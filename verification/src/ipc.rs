use vstd::prelude::*;
use crate::effects::{
    effect_metadata, effect_type_from_str, implemented, implemented_effects, label, metadata,
    lemma_labels_distinct, names, parse_effect, str_eq, Curve, EffectType, ParamSpec,
};
use crate::state::BusRouting;

verus! {

/// The frontend identifier of an effect, as `effect_type_from_str` reads it.
pub fn effect_label(effect: EffectType) -> (r: &'static str)
    ensures
        r == label(effect),
{
    match effect {
        EffectType::Filter => "Filter",
        EffectType::Isolator => "Isolator",
        EffectType::Delay => "Delay",
        EffectType::Reverb => "Reverb",
        EffectType::VinylSim => "VinylSim",
        EffectType::DjfxLooper => "DjfxLooper",
        EffectType::Scatter => "Scatter",
        EffectType::Slicer => "Slicer",
        EffectType::Tremolo => "Tremolo",
        EffectType::AutoPan => "AutoPan",
        EffectType::Chorus => "Chorus",
        EffectType::Flanger => "Flanger",
        EffectType::Phaser => "Phaser",
        _ => "",
    }
}

pub open spec fn curve_name(c: Curve) -> &'static str {
    match c {
        Curve::Linear => "linear",
        Curve::Exponential => "exponential",
    }
}

/// The label under which a curve crosses the IPC boundary.
pub fn curve_label(curve: Curve) -> (r: &'static str)
    ensures
        r == curve_name(curve),
{
    match curve {
        Curve::Linear => "linear",
        Curve::Exponential => "exponential",
    }
}

/// Every implemented effect's identifier, in selector order.
pub fn list_effects() -> (r: Vec<String>)
    ensures
        r.len() == implemented().len(),
        forall|i: int| 0 <= i < r.len() ==> #[trigger] r@[i]@ == label(implemented()[i])@,
{
    let effects = implemented_effects();
    let mut out: Vec<String> = Vec::new();
    let mut i: usize = 0;
    while i < effects.len()
        invariant
            effects@ == implemented(),
            0 <= i <= effects.len(),
            out.len() == i,
            forall|j: int| 0 <= j < i ==> #[trigger] out@[j]@ == label(implemented()[j])@,
        decreases effects.len() - i,
    {
        let name = effect_label(effects[i]).to_owned();
        out.push(name);
        i = i + 1;
    }
    out
}

/// What a bus identifier from the frontend names.
pub open spec fn parse_bus_name(name: Seq<char>) -> Option<BusRouting> {
    if name == "Bus1"@ {
        Some(BusRouting::Bus1)
    } else if name == "Bus2"@ {
        Some(BusRouting::Bus2)
    } else if name == "Dry"@ {
        Some(BusRouting::Dry)
    } else {
        None
    }
}

/// Reads a bus identifier; an unknown one is refused with "Invalid bus".
pub fn parse_bus(bus: &str) -> (r: Result<BusRouting, String>)
    ensures
        match r {
            Ok(b) => parse_bus_name(bus@) == Some(b),
            Err(msg) => parse_bus_name(bus@) is None && msg@ == "Invalid bus"@,
        },
{
    if str_eq(bus, "Bus1") {
        Ok(BusRouting::Bus1)
    } else if str_eq(bus, "Bus2") {
        Ok(BusRouting::Bus2)
    } else if str_eq(bus, "Dry") {
        Ok(BusRouting::Dry)
    } else {
        Err("Invalid bus".to_owned())
    }
}

/// The parameter table of the effect that an identifier names; an unknown or
/// unimplemented identifier is refused with "Invalid effect".
pub fn effect_parameters(effect: &str) -> (r: Result<&'static [ParamSpec], String>)
    ensures
        match r {
            Ok(specs) => parse_effect(effect@) is Some && specs@ == metadata(
                parse_effect(effect@)->0,
            ),
            Err(msg) => parse_effect(effect@) is None && msg@ == "Invalid effect"@,
        },
{
    match effect_type_from_str(effect) {
        Some(e) => Ok(effect_metadata(e)),
        None => Err("Invalid effect".to_owned()),
    }
}

/// Reading back the identifier of an implemented effect gives that effect.
pub proof fn lemma_label_round_trip(e: EffectType)
    requires
        implemented().contains(e),
    ensures
        parse_effect(label(e)@) == Some(e),
{
    assert(names(e, label(e)@));
    let c = choose|x: EffectType| names(x, label(e)@);
    lemma_labels_distinct(c, e);
}

/// The identifier of each implemented effect is the name of its variant, and
/// the frontend's identifier reads back as that variant.
pub proof fn lemma_identifiers_are_variant_names()
    ensures
        label(EffectType::Filter)@ == "Filter"@ && parse_effect("Filter"@) == Some(EffectType::Filter),
        label(EffectType::Isolator)@ == "Isolator"@ && parse_effect("Isolator"@) == Some(EffectType::Isolator),
        label(EffectType::Delay)@ == "Delay"@ && parse_effect("Delay"@) == Some(EffectType::Delay),
        label(EffectType::Reverb)@ == "Reverb"@ && parse_effect("Reverb"@) == Some(EffectType::Reverb),
        label(EffectType::VinylSim)@ == "VinylSim"@ && parse_effect("VinylSim"@) == Some(EffectType::VinylSim),
        label(EffectType::DjfxLooper)@ == "DjfxLooper"@ && parse_effect("DjfxLooper"@) == Some(EffectType::DjfxLooper),
        label(EffectType::Scatter)@ == "Scatter"@ && parse_effect("Scatter"@) == Some(EffectType::Scatter),
        label(EffectType::Slicer)@ == "Slicer"@ && parse_effect("Slicer"@) == Some(EffectType::Slicer),
        label(EffectType::Tremolo)@ == "Tremolo"@ && parse_effect("Tremolo"@) == Some(EffectType::Tremolo),
        label(EffectType::AutoPan)@ == "AutoPan"@ && parse_effect("AutoPan"@) == Some(EffectType::AutoPan),
        label(EffectType::Chorus)@ == "Chorus"@ && parse_effect("Chorus"@) == Some(EffectType::Chorus),
        label(EffectType::Flanger)@ == "Flanger"@ && parse_effect("Flanger"@) == Some(EffectType::Flanger),
        label(EffectType::Phaser)@ == "Phaser"@ && parse_effect("Phaser"@) == Some(EffectType::Phaser),
{
    assert(implemented()[0] == EffectType::Filter);
    lemma_label_round_trip(EffectType::Filter);
    assert(implemented()[1] == EffectType::Isolator);
    lemma_label_round_trip(EffectType::Isolator);
    assert(implemented()[2] == EffectType::Delay);
    lemma_label_round_trip(EffectType::Delay);
    assert(implemented()[3] == EffectType::Reverb);
    lemma_label_round_trip(EffectType::Reverb);
    assert(implemented()[4] == EffectType::VinylSim);
    lemma_label_round_trip(EffectType::VinylSim);
    assert(implemented()[5] == EffectType::DjfxLooper);
    lemma_label_round_trip(EffectType::DjfxLooper);
    assert(implemented()[6] == EffectType::Scatter);
    lemma_label_round_trip(EffectType::Scatter);
    assert(implemented()[7] == EffectType::Slicer);
    lemma_label_round_trip(EffectType::Slicer);
    assert(implemented()[8] == EffectType::Tremolo);
    lemma_label_round_trip(EffectType::Tremolo);
    assert(implemented()[9] == EffectType::AutoPan);
    lemma_label_round_trip(EffectType::AutoPan);
    assert(implemented()[10] == EffectType::Chorus);
    lemma_label_round_trip(EffectType::Chorus);
    assert(implemented()[11] == EffectType::Flanger);
    lemma_label_round_trip(EffectType::Flanger);
    assert(implemented()[12] == EffectType::Phaser);
    lemma_label_round_trip(EffectType::Phaser);
}

/// An identifier is read as an effect only when it is that implemented
/// effect's own identifier.
pub proof fn lemma_parse_names_label(name: Seq<char>)
    ensures
        match parse_effect(name) {
            Some(e) => implemented().contains(e) && label(e)@ == name,
            None => forall|e: EffectType| implemented().contains(e) ==> label(e)@ != name,
        },
{
    if exists|e: EffectType| names(e, name) {
        let c = choose|x: EffectType| names(x, name);
        assert(names(c, name));
    } else {
        assert forall|e: EffectType| implemented().contains(e) implies label(e)@ != name by {
            assert(!names(e, name));
        }
    }
}

} // verus!
