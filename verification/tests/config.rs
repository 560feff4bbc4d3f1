use padfx::effects::EffectType;
use padfx::state::{AppFxConfig, BusRouting, FollowUp};

fn control(milli: i32) -> f32 {
    milli as f32 / 1000.0
}

#[test]
fn assigning_an_effect_seeds_defaults_and_full_mix() {
    let mut cfg: AppFxConfig<f32> = AppFxConfig::default();
    let r = cfg.set_bus_effect(BusRouting::Bus1, 0, EffectType::Flanger, control);
    assert_eq!(r, FollowUp { persist: true, enqueue: true });
    let slot = cfg.bus1.slots[0].as_ref().expect("slot must be populated");
    assert_eq!(slot.effect_type, EffectType::Flanger);
    assert_eq!(slot.params, vec![0.25, 0.6, 0.5]);
    assert_eq!(slot.mix, 1.0);
    assert!(cfg.bus2.slots.iter().all(|s| s.is_none()));
    assert!(cfg.bus1.slots[1..].iter().all(|s| s.is_none()));
}

#[test]
fn assigning_to_the_dry_bus_changes_nothing_and_forwards_nothing() {
    let mut cfg: AppFxConfig<f32> = AppFxConfig::default();
    let r = cfg.set_bus_effect(BusRouting::Dry, 0, EffectType::Delay, control);
    assert_eq!(r, FollowUp { persist: false, enqueue: false });
    assert!(cfg.bus1.slots.iter().all(|s| s.is_none()));
    assert!(cfg.bus2.slots.iter().all(|s| s.is_none()));
}

#[test]
fn assigning_an_effect_without_processor_changes_nothing() {
    let mut cfg: AppFxConfig<f32> = AppFxConfig::default();
    let r = cfg.set_bus_effect(BusRouting::Bus1, 0, EffectType::PitchShifter, control);
    assert_eq!(r, FollowUp { persist: false, enqueue: false });
    assert!(cfg.bus1.slots.iter().all(|s| s.is_none()));
    let r = cfg.set_bus_effect(BusRouting::Bus2, 1, EffectType::Compressor, control);
    assert_eq!(r, FollowUp { persist: true, enqueue: true });
    assert_eq!(cfg.bus2.slots[1].as_ref().unwrap().params, vec![0.7, 0.2, 0.2, 0.4]);
}

#[test]
fn assigning_out_of_range_is_forwarded_but_not_stored() {
    let mut cfg: AppFxConfig<f32> = AppFxConfig::default();
    let r = cfg.set_bus_effect(BusRouting::Bus2, 4, EffectType::Delay, control);
    assert_eq!(r, FollowUp { persist: false, enqueue: true });
    assert!(cfg.bus2.slots.iter().all(|s| s.is_none()));
}

#[test]
fn parameter_values_are_stored_normalized_with_their_descriptor() {
    let mut cfg: AppFxConfig<f32> = AppFxConfig::default();
    cfg.set_bus_effect(BusRouting::Bus1, 0, EffectType::Delay, control);
    let (r, spec) = cfg.set_effect_param(BusRouting::Bus1, 0, 0, 0.75);
    assert_eq!(r, FollowUp { persist: true, enqueue: true });
    let spec = spec.expect("Delay has a parameter 0");
    assert_eq!(spec.name, "Time");
    assert_eq!(spec.max_milli, 2000);
    assert_eq!(cfg.bus1.slots[0].as_ref().unwrap().params, vec![0.75]);

    // No such parameter: forwarded unscaled, nothing stored.
    let (r, spec) = cfg.set_effect_param(BusRouting::Bus1, 0, 3, 0.1);
    assert_eq!(r, FollowUp { persist: false, enqueue: true });
    assert!(spec.is_none());
    assert_eq!(cfg.bus1.slots[0].as_ref().unwrap().params, vec![0.75]);

    // Empty slot: nothing stored, still forwarded.
    let (r, spec) = cfg.set_effect_param(BusRouting::Bus2, 1, 0, 0.3);
    assert_eq!(r, FollowUp { persist: false, enqueue: true });
    assert!(spec.is_none());
}

#[test]
fn mix_is_stored_for_populated_slots_only() {
    let mut cfg: AppFxConfig<f32> = AppFxConfig::default();
    assert_eq!(cfg.set_effect_mix(BusRouting::Bus1, 0, 0.25), FollowUp { persist: false, enqueue: true });
    cfg.set_bus_effect(BusRouting::Bus1, 0, EffectType::Reverb, control);
    assert_eq!(cfg.set_effect_mix(BusRouting::Bus1, 0, 0.25), FollowUp { persist: true, enqueue: true });
    let slot = cfg.bus1.slots[0].as_ref().unwrap();
    assert_eq!(slot.mix, 0.25);
    assert_eq!(slot.params, vec![1.0]);
}

#[test]
fn removing_empties_the_slot() {
    let mut cfg: AppFxConfig<f32> = AppFxConfig::default();
    cfg.set_bus_effect(BusRouting::Bus2, 3, EffectType::Chorus, control);
    cfg.set_bus_effect(BusRouting::Bus2, 2, EffectType::Phaser, control);
    assert_eq!(cfg.remove_bus_effect(BusRouting::Bus2, 3), FollowUp { persist: true, enqueue: true });
    assert!(cfg.bus2.slots[3].is_none());
    assert_eq!(cfg.bus2.slots[2].as_ref().unwrap().effect_type, EffectType::Phaser);
    assert_eq!(cfg.remove_bus_effect(BusRouting::Dry, 0), FollowUp { persist: false, enqueue: true });
    assert_eq!(cfg.remove_bus_effect(BusRouting::Bus2, 9), FollowUp { persist: false, enqueue: true });
}
