use padfx::effects::{
    effect_metadata, effect_type_from_str, implemented_effects, is_implemented, Curve,
    EffectType,
};
use padfx::ipc::{curve_label, effect_label, effect_parameters, list_effects, parse_bus};
use padfx::state::BusRouting;
use std::collections::HashSet;

#[test]
fn test_effect_metadata_validity() {
    for &effect in implemented_effects().iter() {
        let specs = effect_metadata(effect);
        assert!(!specs.is_empty(), "{:?} must declare at least one ParamSpec", effect);
        for spec in specs.iter() {
            assert!(spec.min_milli < spec.max_milli, "{:?}.{} requires min < max", effect, spec.name);
            if spec.curve == Curve::Exponential {
                assert!(spec.min_milli > 0, "{:?}.{} exponential curve requires min > 0", effect, spec.name);
            }
        }
    }
}

#[test]
fn test_implemented_effects_set() {
    let got: HashSet<EffectType> = implemented_effects().iter().copied().collect();
    let expected: HashSet<EffectType> = [
        EffectType::Filter,
        EffectType::Isolator,
        EffectType::Delay,
        EffectType::Reverb,
        EffectType::VinylSim,
        EffectType::DjfxLooper,
        EffectType::Scatter,
        EffectType::Slicer,
        EffectType::Tremolo,
        EffectType::AutoPan,
        EffectType::Chorus,
        EffectType::Flanger,
        EffectType::Phaser,
    ]
    .into_iter()
    .collect();
    assert_eq!(got, expected);
    assert_eq!(implemented_effects().len(), 13);
}

#[test]
fn metadata_holds_exact_thousandths() {
    let filter = effect_metadata(EffectType::Filter);
    assert_eq!(filter.len(), 1);
    assert_eq!(filter[0].name, "Cutoff");
    assert_eq!(filter[0].unit, "Hz");
    assert_eq!(filter[0].min_milli, 20_000);
    assert_eq!(filter[0].max_milli, 20_000_000);
    assert_eq!(filter[0].default_milli, 500);
    assert_eq!(filter[0].curve, Curve::Exponential);

    let comp = effect_metadata(EffectType::Compressor);
    assert_eq!(comp.len(), 4);
    assert_eq!(comp[0].name, "Threshold");
    assert_eq!(comp[0].min_milli, -60_000);
    assert_eq!(comp[0].max_milli, 0);
    assert_eq!(comp[3].name, "Release");
    assert_eq!(comp[3].max_milli, 1_000_000);

    assert_eq!(effect_metadata(EffectType::Flanger)[2].max_milli, 900);
    assert_eq!(effect_metadata(EffectType::Wah).len(), 3);
    assert!(effect_metadata(EffectType::RingMod).is_empty());
    assert!(effect_metadata(EffectType::Delay2).is_empty());
}

#[test]
fn every_parameter_is_valid() {
    let all = [
        EffectType::Compressor,
        EffectType::Equalizer,
        EffectType::Wah,
        EffectType::Filter,
        EffectType::Reverb,
    ];
    for &e in all.iter() {
        for spec in effect_metadata(e).iter() {
            assert!(spec.min_milli < spec.max_milli);
            assert!(spec.default_milli >= 0 && spec.default_milli <= 1000);
            if spec.curve == Curve::Exponential {
                assert!(spec.min_milli > 0);
            }
        }
    }
}

#[test]
fn is_implemented_follows_create_effect() {
    for &e in implemented_effects().iter() {
        assert!(is_implemented(e));
    }
    assert!(is_implemented(EffectType::Filter));
    assert!(is_implemented(EffectType::Phaser));
    assert!(is_implemented(EffectType::Compressor));
    assert!(is_implemented(EffectType::Equalizer));
    assert!(!is_implemented(EffectType::RingMod));
    assert!(!is_implemented(EffectType::PitchShifter));
    assert!(!is_implemented(EffectType::Delay2));
}

#[test]
fn identifiers_round_trip() {
    for &e in implemented_effects().iter() {
        let name = effect_label(e);
        assert!(!name.is_empty());
        assert_eq!(effect_type_from_str(name), Some(e));
    }
    assert_eq!(effect_label(EffectType::Compressor), "");
    assert_eq!(effect_type_from_str("Compressor"), None);
    assert_eq!(effect_type_from_str("filter"), None);
    assert_eq!(effect_type_from_str(""), None);
    assert_eq!(effect_type_from_str("DjfxLooper"), Some(EffectType::DjfxLooper));
}

#[test]
fn list_effects_gives_identifiers_in_order() {
    let names = list_effects();
    assert_eq!(names.len(), 13);
    assert_eq!(names[0], "Filter");
    assert_eq!(names[1], "Isolator");
    assert_eq!(names[12], "Phaser");
}

#[test]
fn curve_labels() {
    assert_eq!(curve_label(Curve::Linear), "linear");
    assert_eq!(curve_label(Curve::Exponential), "exponential");
}

#[test]
fn bus_identifiers() {
    assert_eq!(parse_bus("Bus1"), Ok(BusRouting::Bus1));
    assert_eq!(parse_bus("Bus2"), Ok(BusRouting::Bus2));
    assert_eq!(parse_bus("Dry"), Ok(BusRouting::Dry));
    assert_eq!(parse_bus("bus1"), Err("Invalid bus".to_string()));
    assert_eq!(parse_bus("Master"), Err("Invalid bus".to_string()));
}

#[test]
fn effect_parameters_by_identifier() {
    let specs = effect_parameters("Flanger").unwrap();
    assert_eq!(specs.len(), 3);
    assert_eq!(specs[2].name, "Feedback");
    match effect_parameters("RingMod") {
        Err(msg) => assert_eq!(msg, "Invalid effect"),
        Ok(_) => panic!("an unimplemented effect must be refused"),
    }
}

#[test]
fn metadata_tables_are_static() {
    let first: &'static [padfx::effects::ParamSpec] = effect_metadata(EffectType::Flanger);
    let params: &'static [padfx::effects::ParamSpec] = effect_parameters("Flanger").unwrap();
    assert_eq!(first.len(), 3);
    assert_eq!(params.len(), 3);
    assert!(first.iter().zip(params.iter()).all(|(a, b)| a.name == b.name && a.max_milli == b.max_milli));
}
