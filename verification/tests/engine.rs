use padfx::effects::{is_implemented, EffectChain, EffectSlot, EffectType};
use padfx::engine::{remove_finished, EngineAction, EngineState, ResamplingCapture};
use padfx::state::{AppFxConfig, AudioBuffer, AudioCommand, BusRouting, FollowUp, PlaybackEvent};
use std::sync::Arc;

/// A stand-in for a built effect, identified by a name.
#[derive(Debug, PartialEq)]
struct Fx(&'static str);

type Engine = EngineState<Arc<AudioBuffer<f32>>, Fx, f32>;
type Cmd = AudioCommand<Arc<AudioBuffer<f32>>, Fx, f32>;

fn engine() -> Engine {
    EngineState::new(EffectChain::new(), EffectChain::new(), 120.0, 0.0, 1.0)
}

fn mono(samples: Vec<f32>) -> Arc<AudioBuffer<f32>> {
    Arc::new(AudioBuffer { samples, channels: 1, sample_rate: 44100 })
}

fn install(bus: BusRouting, slot: usize, name: &'static str) -> Cmd {
    AudioCommand::SetBusEffect { bus, slot, slot_fx: EffectSlot { effect: Fx(name), mix: 1.0 } }
}

#[test]
fn test_ring_buffer_commands() {
    let mut st = engine();
    st.apply_command(install(BusRouting::Bus1, 0, "Delay"));
    let action = st.apply_command(AudioCommand::SetEffectParam {
        bus: BusRouting::Bus1,
        slot: 0,
        param_id: 0,
        value: 1.5,
    });
    match action {
        EngineAction::SetParameter { bus, slot, param_id, value } => {
            assert_eq!((bus, slot, param_id, value), (BusRouting::Bus1, 0, 0, 1.5));
        }
        _ => panic!("a populated slot must get its parameter"),
    }
    st.apply_command(AudioCommand::SetEffectMix { bus: BusRouting::Bus1, slot: 0, mix: 0.25 });
    let active = st.bus1_fx.slots[0].as_ref().expect("slot must be populated");
    assert_eq!(active.mix, 0.25);
}

#[test]
fn test_unimplemented_effect_swap_is_noop() {
    let mut cfg: AppFxConfig<f32> = AppFxConfig::default();
    let mut st = engine();

    // Install a live, implemented effect and give it a recognizable mix.
    let follow = cfg.set_bus_effect(BusRouting::Bus1, 0, EffectType::Delay, |m| m as f32 / 1000.0);
    assert!(follow.enqueue);
    st.apply_command(install(BusRouting::Bus1, 0, "Delay"));
    cfg.set_effect_mix(BusRouting::Bus1, 0, 0.42);
    st.apply_command(AudioCommand::SetEffectMix { bus: BusRouting::Bus1, slot: 0, mix: 0.42 });
    assert!(st.bus1_fx.slots[0].is_some());

    // Swapping to an unimplemented variant is a graceful no-op: nothing is
    // persisted and no command is produced, so the live slot is untouched.
    assert!(!is_implemented(EffectType::RingMod));
    let follow = cfg.set_bus_effect(BusRouting::Bus1, 0, EffectType::RingMod, |m| m as f32 / 1000.0);
    assert_eq!(follow, FollowUp { persist: false, enqueue: false });
    if follow.enqueue {
        st.apply_command(install(BusRouting::Bus1, 0, "RingMod"));
    }
    let kept = cfg.bus1.slots[0].as_ref().expect("the persisted slot must survive");
    assert_eq!(kept.effect_type, EffectType::Delay);
    assert_eq!(kept.mix, 0.42);
    let active = st.bus1_fx.slots[0].as_ref().expect("unimplemented swap must not clear the slot");
    assert_eq!(active.effect, Fx("Delay"));
    assert_eq!(active.mix, 0.42, "the original effect slot must survive a no-op swap");
}

#[test]
fn test_mute_group_choking() {
    let mut st = engine();
    st.apply_command(AudioCommand::AddBuffer(0, mono(vec![1.0, 1.0, 1.0, 1.0])));
    st.apply_command(AudioCommand::AddBuffer(1, mono(vec![0.5, 0.5, 0.5, 0.5])));

    // Trigger pad 0 with mute group 1: it plays.
    st.apply_command(AudioCommand::TriggerPad { pad_id: 0, mute_group: Some(1), routing: BusRouting::Dry });
    let pads: Vec<usize> = st.active_events.iter().map(|e| e.pad_id).collect();
    assert_eq!(pads, vec![0]);

    // Trigger pad 1 with the same mute group: pad 0 is choked, only pad 1 plays.
    st.apply_command(AudioCommand::TriggerPad { pad_id: 1, mute_group: Some(1), routing: BusRouting::Dry });
    let pads: Vec<usize> = st.active_events.iter().map(|e| e.pad_id).collect();
    assert_eq!(pads, vec![1]);
    assert_eq!(st.active_events[0].mute_group, Some(1));
}

#[test]
fn test_effect_swap_installs_new_and_retires_old_off_thread() {
    let mut st = engine();
    let first = st.apply_command(install(BusRouting::Bus1, 0, "Delay"));
    assert!(st.bus1_fx.slots[0].is_some(), "first effect must install");
    assert!(matches!(first, EngineAction::Done), "installing into an empty slot retires nothing");

    let mut second = EngineAction::Done;
    assert_no_alloc::assert_no_alloc(|| {
        second = st.apply_command(install(BusRouting::Bus1, 0, "Reverb"));
    });
    assert_eq!(st.bus1_fx.slots[0].as_ref().map(|s| &s.effect), Some(&Fx("Reverb")), "swapped-in effect must be present");
    match second {
        EngineAction::Retire(old) => assert_eq!(old.effect, Fx("Delay")),
        _ => panic!("the swapped-out effect must be retired off-thread"),
    }
}

#[test]
fn test_remove_effect_retires_off_thread() {
    let mut st = engine();
    st.apply_command(install(BusRouting::Bus1, 0, "Delay"));
    let mut action = EngineAction::Done;
    assert_no_alloc::assert_no_alloc(|| {
        action = st.apply_command(AudioCommand::RemoveBusEffect { bus: BusRouting::Bus1, slot: 0 });
    });
    assert!(st.bus1_fx.slots[0].is_none(), "removed slot must be empty");
    assert!(matches!(action, EngineAction::Retire(_)), "the removed effect must be retired off-thread");
}

#[test]
fn builds_for_the_dry_bus_or_out_of_range_are_retired() {
    let mut st = engine();
    match st.apply_command(install(BusRouting::Dry, 0, "Delay")) {
        EngineAction::Retire(s) => assert_eq!(s.effect, Fx("Delay")),
        _ => panic!("a build for the dry bus must be retired"),
    }
    match st.apply_command(install(BusRouting::Bus2, 7, "Chorus")) {
        EngineAction::Retire(s) => assert_eq!(s.effect, Fx("Chorus")),
        _ => panic!("a build for a missing slot must be retired"),
    }
    assert!(st.bus2_fx.slots.iter().all(|s| s.is_none()));
}

#[test]
fn parameters_of_empty_slots_are_dropped() {
    let mut st = engine();
    let a = st.apply_command(AudioCommand::SetEffectParam { bus: BusRouting::Bus2, slot: 1, param_id: 0, value: 3.0 });
    assert!(matches!(a, EngineAction::Done));
    let a = st.apply_command(AudioCommand::SetEffectParam { bus: BusRouting::Dry, slot: 0, param_id: 0, value: 3.0 });
    assert!(matches!(a, EngineAction::Done));
}

#[test]
fn tempo_reaches_every_chain() {
    let mut st = engine();
    match st.apply_command(AudioCommand::SetTempo { bpm: 98.0 }) {
        EngineAction::Tempo(bpm) => assert_eq!(bpm, 98.0),
        _ => panic!("tempo must be passed on"),
    }
    assert_eq!(st.tempo, 98.0);
}

#[test]
fn triggering_needs_a_loaded_buffer() {
    let mut st = engine();
    st.apply_command(AudioCommand::TriggerPad { pad_id: 3, mute_group: None, routing: BusRouting::Dry });
    assert!(st.active_events.is_empty());
    st.apply_command(AudioCommand::AddBuffer(3, mono(vec![1.0, 1.0])));
    st.apply_command(AudioCommand::TriggerPad { pad_id: 3, mute_group: None, routing: BusRouting::Bus2 });
    assert_eq!(st.active_events.len(), 1);
    let v = st.active_events[0];
    assert_eq!((v.pad_id, v.position, v.volume, v.mute_group, v.routing), (3, 0.0, 1.0, None, BusRouting::Bus2));
}

#[test]
fn mute_group_chokes_voices() {
    let mut st = engine();
    st.apply_command(AudioCommand::AddBuffer(0, mono(vec![1.0, 1.0, 1.0, 1.0])));
    st.apply_command(AudioCommand::AddBuffer(1, mono(vec![0.5, 0.5, 0.5, 0.5])));
    st.apply_command(AudioCommand::AddBuffer(2, mono(vec![0.2])));
    st.apply_command(AudioCommand::TriggerPad { pad_id: 2, mute_group: Some(2), routing: BusRouting::Dry });
    st.apply_command(AudioCommand::TriggerPad { pad_id: 0, mute_group: Some(1), routing: BusRouting::Dry });
    st.apply_command(AudioCommand::TriggerPad { pad_id: 1, mute_group: Some(1), routing: BusRouting::Dry });
    let pads: Vec<usize> = st.active_events.iter().map(|e| e.pad_id).collect();
    assert_eq!(pads, vec![2, 1]);
    // Voices without a group never choke each other.
    st.apply_command(AudioCommand::TriggerPad { pad_id: 0, mute_group: None, routing: BusRouting::Dry });
    st.apply_command(AudioCommand::TriggerPad { pad_id: 0, mute_group: None, routing: BusRouting::Dry });
    assert_eq!(st.active_events.len(), 4);
}

#[test]
fn pre_listen_starts_at_the_beginning() {
    let mut st = engine();
    st.apply_command(AudioCommand::PreListen { buffer: mono(vec![0.1, 0.2]) });
    let (buf, pos) = st.pre_listen_event.as_ref().expect("audition must start");
    assert_eq!(buf.samples, vec![0.1, 0.2]);
    assert_eq!(*pos, 0.0);
}

fn voice(pad_id: usize) -> PlaybackEvent<f32> {
    PlaybackEvent { pad_id, position: 0.0, volume: 1.0, mute_group: None, routing: BusRouting::Dry }
}

#[test]
fn finished_voices_are_removed_in_order() {
    let mut events: Vec<PlaybackEvent<f32>> = (0..6).map(voice).collect();
    remove_finished(&mut events, &vec![1, 4, 1, 9, 4, 4]);
    let pads: Vec<usize> = events.iter().map(|e| e.pad_id).collect();
    assert_eq!(pads, vec![0, 2, 3, 5]);
    remove_finished(&mut events, &vec![]);
    assert_eq!(events.len(), 4);
}

#[test]
fn sample_positions() {
    let stereo = AudioBuffer { samples: vec![0.0f32; 6], channels: 2, sample_rate: 44100 };
    assert_eq!(stereo.sample_index(1, 0), Some(2));
    assert_eq!(stereo.sample_index(1, 1), Some(3));
    assert_eq!(stereo.sample_index(1, 5), Some(2));
    assert_eq!(stereo.sample_index(3, 0), None);
    assert!(!stereo.is_exhausted(2));
    assert!(stereo.is_exhausted(3));
    assert!(stereo.is_exhausted(usize::MAX));
    let mono = AudioBuffer { samples: vec![0.0f32; 4], channels: 1, sample_rate: 22050 };
    assert_eq!(mono.sample_index(2, 1), Some(2));
    assert_eq!(mono.sample_index(usize::MAX, 0), None);
}

#[test]
fn resampling_capture_stops_when_full() {
    let mut cap = ResamplingCapture::new(vec![0.0f32; 2]);
    cap.record(false, 0.9);
    assert_eq!(cap.index, 0);
    cap.record(true, 0.1);
    cap.record(true, 0.2);
    cap.record(true, 0.3);
    assert_eq!(cap.buffer, vec![0.1, 0.2]);
    assert_eq!(cap.index, 2);
}

#[test]
fn capture_over_a_callback_lands_in_order() {
    let mut cap = ResamplingCapture::new(vec![0.0f32; 5]);
    cap.index = 1;
    let output = [0.5f32, -0.5, 0.25, 1.0, -1.0, 0.75];
    for &s in output.iter() {
        cap.record(true, s);
    }
    assert_eq!(cap.index, 5);
    assert_eq!(cap.buffer, vec![0.0, 0.5, -0.5, 0.25, 1.0]);
    for &s in output.iter() {
        cap.record(false, s);
    }
    assert_eq!(cap.buffer, vec![0.0, 0.5, -0.5, 0.25, 1.0]);
}
