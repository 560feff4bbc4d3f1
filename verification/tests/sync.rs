use padfx::effects::{EffectChain, EffectSlot, EffectType};
use padfx::engine::{EngineAction, EngineState};
use padfx::state::{AppFxConfig, AudioBuffer, AudioCommand, BusRouting};
use std::sync::Arc;

type Engine = EngineState<Arc<AudioBuffer<f32>>, &'static str, f32>;

fn control(milli: i32) -> f32 {
    milli as f32 / 1000.0
}

fn occupancy_and_mix(cfg: &AppFxConfig<f32>, eng: &Engine) -> bool {
    let pairs = [(&cfg.bus1, &eng.bus1_fx), (&cfg.bus2, &eng.bus2_fx)];
    pairs.iter().all(|(c, e)| {
        (0..4).all(|i| match (&c.slots[i], &e.slots[i]) {
            (None, None) => true,
            (Some(a), Some(b)) => a.mix == b.mix,
            _ => false,
        })
    })
}

#[test]
fn config_and_engine_stay_in_agreement() {
    let mut cfg: AppFxConfig<f32> = AppFxConfig::default();
    let mut eng: Engine = EngineState::new(EffectChain::new(), EffectChain::new(), 120.0, 0.0, 1.0);
    assert!(occupancy_and_mix(&cfg, &eng));

    let follow = cfg.set_bus_effect(BusRouting::Bus2, 1, EffectType::Chorus, control);
    assert!(follow.enqueue);
    eng.apply_command(AudioCommand::SetBusEffect {
        bus: BusRouting::Bus2,
        slot: 1,
        slot_fx: EffectSlot { effect: "chorus", mix: 1.0 },
    });
    assert!(occupancy_and_mix(&cfg, &eng));

    // The dry bus: nothing stored and nothing forwarded.
    let follow = cfg.set_bus_effect(BusRouting::Dry, 0, EffectType::Delay, control);
    assert!(!follow.enqueue);
    assert!(occupancy_and_mix(&cfg, &eng));

    cfg.set_effect_mix(BusRouting::Bus2, 1, 0.3);
    eng.apply_command(AudioCommand::SetEffectMix { bus: BusRouting::Bus2, slot: 1, mix: 0.3 });
    assert!(occupancy_and_mix(&cfg, &eng));

    let (_, spec) = cfg.set_effect_param(BusRouting::Bus2, 1, 0, 0.5);
    assert_eq!(spec.map(|s| s.name), Some("Rate"));
    eng.apply_command(AudioCommand::SetEffectParam { bus: BusRouting::Bus2, slot: 1, param_id: 0, value: 0.7 });
    assert!(occupancy_and_mix(&cfg, &eng));

    cfg.remove_bus_effect(BusRouting::Bus2, 1);
    let action = eng.apply_command(AudioCommand::RemoveBusEffect { bus: BusRouting::Bus2, slot: 1 });
    assert!(matches!(action, EngineAction::Retire(EffectSlot { effect: "chorus", .. })));
    assert!(occupancy_and_mix(&cfg, &eng));
}

#[test]
fn chain_install_and_remove() {
    let mut chain: EffectChain<u32> = EffectChain::new();
    assert_eq!(chain.install(2, 7), None);
    assert_eq!(chain.install(2, 8), Some(7));
    assert_eq!(chain.install(4, 9), Some(9));
    assert_eq!(chain.slots, [None, None, Some(8), None]);
    assert_eq!(chain.remove(2), Some(8));
    assert_eq!(chain.remove(2), None);
    assert_eq!(chain.remove(10), None);
    assert_eq!(chain.slots, [None, None, None, None]);
}

fn held(eng: &Engine) -> Vec<&'static str> {
    let mut v: Vec<&'static str> = [&eng.bus1_fx, &eng.bus2_fx, &eng.master_fx]
        .iter()
        .flat_map(|c| c.slots.iter().filter_map(|s| s.as_ref().map(|s| s.effect)))
        .collect();
    v.sort();
    v
}

#[test]
fn effects_are_never_lost() {
    let mut eng: Engine = EngineState::new(EffectChain::new(), EffectChain::new(), 120.0, 0.0, 1.0);
    let mut retired: Vec<&'static str> = Vec::new();
    let mut incoming: Vec<&'static str> = Vec::new();
    let cmds = vec![
        (BusRouting::Bus1, 0, "a"),
        (BusRouting::Bus1, 0, "b"),
        (BusRouting::Dry, 0, "c"),
        (BusRouting::Bus2, 5, "d"),
        (BusRouting::Bus2, 3, "e"),
    ];
    for (bus, slot, name) in cmds {
        incoming.push(name);
        if let EngineAction::Retire(s) =
            eng.apply_command(AudioCommand::SetBusEffect { bus, slot, slot_fx: EffectSlot { effect: name, mix: 1.0 } })
        {
            retired.push(s.effect);
        }
    }
    if let EngineAction::Retire(s) = eng.apply_command(AudioCommand::RemoveBusEffect { bus: BusRouting::Bus2, slot: 3 }) {
        retired.push(s.effect);
    }
    let mut accounted = held(&eng);
    accounted.extend(retired.iter().copied());
    accounted.sort();
    incoming.sort();
    assert_eq!(accounted, incoming);
    assert_eq!(held(&eng), vec!["b"]);
}
