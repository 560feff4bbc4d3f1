use vstd::prelude::*;
use crate::effects::{buildable, effect_metadata, is_implemented, metadata, EffectSlot, EffectType, ParamSpec, CHAIN_SLOTS};

verus! {

/// Where a triggered pad's audio goes: through one of the two effect buses,
/// or straight to the master without a bus chain.
#[derive(Clone, Copy, PartialEq, Eq, Structural, Debug)]
pub enum BusRouting {
    Bus1,
    Bus2,
    Dry,
}

/// Sample rate assumed for effect builds until the audio device reports its
/// own.
pub const DEFAULT_SAMPLE_RATE: u32 = 44100;

/// Decoded audio: interleaved samples with their channel count and rate.
pub struct AudioBuffer<T> {
    pub samples: Vec<T>,
    pub channels: u16,
    pub sample_rate: u32,
}

/// One voice of a triggered pad. `position` is the read position in source
/// frames; `volume` the gain applied to every sample of the voice.
#[derive(Clone, Copy)]
pub struct PlaybackEvent<V> {
    pub pad_id: usize,
    pub position: V,
    pub volume: V,
    pub mute_group: Option<u8>,
    pub routing: BusRouting,
}

/// A message from the control side to the audio engine. `B` is the shared
/// handle of a decoded buffer, `E` a fully built effect and `V` a control or
/// sample value.
pub enum AudioCommand<B, E, V> {
    TriggerPad { pad_id: usize, mute_group: Option<u8>, routing: BusRouting },
    AddBuffer(usize, B),
    PreListen { buffer: B },
    /// The effect arrives fully built, ready to be moved into its slot.
    SetBusEffect { bus: BusRouting, slot: usize, slot_fx: EffectSlot<E, V> },
    /// `value` is the real (already scaled) parameter value.
    SetEffectParam { bus: BusRouting, slot: usize, param_id: u8, value: V },
    SetEffectMix { bus: BusRouting, slot: usize, mix: V },
    RemoveBusEffect { bus: BusRouting, slot: usize },
    SetTempo { bpm: V },
}

/// The persisted state of one populated slot. `params` holds one normalized
/// (0..1) knob value per parameter of the effect; `mix` is the wet/dry amount.
pub struct EffectSlotConfig<V> {
    pub effect_type: EffectType,
    pub params: Vec<V>,
    pub mix: V,
}

/// The persisted state of one bus chain.
pub struct FxChainConfig<V> {
    pub slots: [Option<EffectSlotConfig<V>>; 4],
}

/// The persisted effect state of both buses.
pub struct AppFxConfig<V> {
    pub bus1: FxChainConfig<V>,
    pub bus2: FxChainConfig<V>,
}

impl<V> Default for FxChainConfig<V> {
    fn default() -> (r: Self)
        ensures
            forall|i: int| 0 <= i < 4 ==> r.slots[i] is None,
    {
        FxChainConfig { slots: [None, None, None, None] }
    }
}

impl<V> Default for AppFxConfig<V> {
    fn default() -> (r: Self)
        ensures
            forall|i: int| 0 <= i < 4 ==> r.bus1.slots[i] is None && r.bus2.slots[i] is None,
    {
        AppFxConfig { bus1: FxChainConfig::default(), bus2: FxChainConfig::default() }
    }
}

/// What the caller owes after a configuration update: write the
/// configuration back to disk, and forward the request to the audio engine.
#[derive(Clone, Copy, PartialEq, Eq, Structural, Debug)]
pub struct FollowUp {
    pub persist: bool,
    pub enqueue: bool,
}

/// The knob values a fresh slot of `effect` is seeded with: each parameter's
/// default position, then a fully wet mix, each turned into a value by `control`.
pub open spec fn seeded<V, F: Fn(i32) -> V>(
    cfg: EffectSlotConfig<V>,
    effect: EffectType,
    control: F,
) -> bool {
    &&& cfg.effect_type == effect
    &&& cfg.params.len() == metadata(effect).len()
    &&& forall|i: int|
        0 <= i < cfg.params.len() ==> call_ensures(
            control,
            (metadata(effect)[i].default_milli,),
            #[trigger] cfg.params@[i],
        )
    &&& call_ensures(control, (1000i32,), cfg.mix)
}

impl<V> AppFxConfig<V> {
    /// The chain that a bus routes through; the dry bus has none.
    pub open spec fn chain(self, bus: BusRouting) -> Option<FxChainConfig<V>> {
        match bus {
            BusRouting::Bus1 => Some(self.bus1),
            BusRouting::Bus2 => Some(self.bus2),
            BusRouting::Dry => None,
        }
    }

    /// The persisted state of one slot, `None` where there is no such slot
    /// or it is empty.
    pub open spec fn slot(self, bus: BusRouting, slot: int) -> Option<EffectSlotConfig<V>> {
        match self.chain(bus) {
            Some(c) => if 0 <= slot < 4 {
                c.slots[slot]
            } else {
                None
            },
            None => None,
        }
    }

    /// Every slot other than (`bus`, `slot`) is as it was in `other`.
    pub open spec fn same_elsewhere(self, other: Self, bus: BusRouting, slot: int) -> bool {
        forall|b: BusRouting, s: int|
            !(b == bus && s == slot) ==> #[trigger] self.slot(b, s) == other.slot(b, s)
    }

    /// `new` is `self` with a freshly seeded `effect` in (`bus`, `slot`); a
    /// request for an effect that cannot be built, or for the dry bus,
    /// changes nothing and is not forwarded; one for a slot out of range
    /// changes nothing but is forwarded.
    pub open spec fn assigned<F: Fn(i32) -> V>(
        self,
        new: Self,
        bus: BusRouting,
        slot: usize,
        effect: EffectType,
        control: F,
        r: FollowUp,
    ) -> bool {
        if !buildable(effect) || self.chain(bus) is None {
            new == self && r == (FollowUp { persist: false, enqueue: false })
        } else if slot >= CHAIN_SLOTS {
            new == self && r == (FollowUp { persist: false, enqueue: true })
        } else {
            &&& new.slot(bus, slot as int) is Some
            &&& seeded(new.slot(bus, slot as int)->0, effect, control)
            &&& new.same_elsewhere(self, bus, slot as int)
            &&& r == (FollowUp { persist: true, enqueue: true })
        }
    }

    /// `new` is `self` with knob `param_id` of a populated slot set to
    /// `value` where the slot has that knob; the descriptor handed back is
    /// that of the slot's effect's parameter `param_id`, if any; the request
    /// is forwarded in any case.
    pub open spec fn param_recorded(
        self,
        new: Self,
        bus: BusRouting,
        slot: usize,
        param_id: u8,
        value: V,
        r: (FollowUp, Option<ParamSpec>),
    ) -> bool {
        &&& r.0.enqueue
        &&& match self.slot(bus, slot as int) {
            None => new == self && !r.0.persist && r.1 is None,
            Some(cfg) => {
                &&& r.1 == (if (param_id as int) < metadata(cfg.effect_type).len() {
                    Some(metadata(cfg.effect_type)[param_id as int])
                } else {
                    None
                })
                &&& r.0.persist == ((param_id as int) < cfg.params.len())
                &&& new.slot(bus, slot as int) is Some
                &&& new.slot(bus, slot as int)->0.effect_type == cfg.effect_type
                &&& new.slot(bus, slot as int)->0.mix == cfg.mix
                &&& new.slot(bus, slot as int)->0.params@ == (if r.0.persist {
                    cfg.params@.update(param_id as int, value)
                } else {
                    cfg.params@
                })
                &&& new.same_elsewhere(self, bus, slot as int)
            },
        }
    }

    /// `new` is `self` with the mix of a populated slot set to `mix`; the
    /// request is forwarded in any case.
    pub open spec fn mix_recorded(self, new: Self, bus: BusRouting, slot: usize, mix: V, r: FollowUp) -> bool {
        &&& r.enqueue
        &&& match self.slot(bus, slot as int) {
            None => new == self && !r.persist,
            Some(cfg) => {
                &&& r.persist
                &&& new.slot(bus, slot as int) is Some
                &&& new.slot(bus, slot as int)->0.effect_type == cfg.effect_type
                &&& new.slot(bus, slot as int)->0.params@ == cfg.params@
                &&& new.slot(bus, slot as int)->0.mix == mix
                &&& new.same_elsewhere(self, bus, slot as int)
            },
        }
    }

    /// `new` is `self` with a slot of a bus chain emptied; the request is
    /// forwarded in any case.
    pub open spec fn slot_removed(self, new: Self, bus: BusRouting, slot: usize, r: FollowUp) -> bool {
        &&& r.enqueue
        &&& if self.chain(bus) is Some && slot < CHAIN_SLOTS {
            &&& r.persist
            &&& new.slot(bus, slot as int) is None
            &&& new.same_elsewhere(self, bus, slot as int)
        } else {
            new == self && !r.persist
        }
    }

    /// Puts a freshly seeded `effect` into a slot of a bus chain: one knob per
    /// parameter at its default position and a fully wet mix, each turned by
    /// `control` from thousandths into a value. Nothing changes for an effect
    /// that cannot be built or for the dry bus (and nothing is to be
    /// forwarded: a live slot is never disturbed), or for a slot out of range
    /// (which is still forwarded, for the engine to discard).
    pub fn set_bus_effect<F: Fn(i32) -> V>(
        &mut self,
        bus: BusRouting,
        slot: usize,
        effect: EffectType,
        control: F,
    ) -> (r: FollowUp)
        requires
            forall|m: i32| call_requires(control, (m,)),
        ensures
            old(self).assigned(*final(self), bus, slot, effect, control, r),
    {
        if !is_implemented(effect) || bus == BusRouting::Dry {
            return FollowUp { persist: false, enqueue: false };
        }
        if slot >= CHAIN_SLOTS {
            return FollowUp { persist: false, enqueue: true };
        }
        let specs = effect_metadata(effect);
        let mut params: Vec<V> = Vec::new();
        let mut i: usize = 0;
        while i < specs.len()
            invariant
                specs@ == metadata(effect),
                0 <= i <= specs.len(),
                params.len() == i,
                forall|m: i32| call_requires(control, (m,)),
                forall|j: int|
                    0 <= j < i ==> call_ensures(
                        control,
                        (metadata(effect)[j].default_milli,),
                        #[trigger] params@[j],
                    ),
            decreases specs.len() - i,
        {
            let v = control(specs[i].default_milli);
            params.push(v);
            i = i + 1;
        }
        let mix = control(1000);
        let cfg = EffectSlotConfig { effect_type: effect, params, mix };
        if bus == BusRouting::Bus1 {
            self.bus1.slots[slot] = Some(cfg);
        } else {
            self.bus2.slots[slot] = Some(cfg);
        }
        FollowUp { persist: true, enqueue: true }
    }

    /// Two configurations that agree on every slot are the same.
    proof fn lemma_slots_determine(self, other: Self, bus: BusRouting, slot: int)
        requires
            self.same_elsewhere(other, bus, slot),
            self.slot(bus, slot) == other.slot(bus, slot),
        ensures
            self == other,
    {
        assert forall|i: int| 0 <= i < 4 implies self.bus1.slots[i] == other.bus1.slots[i] by {
            assert(self.slot(BusRouting::Bus1, i) == other.slot(BusRouting::Bus1, i));
        }
        assert forall|i: int| 0 <= i < 4 implies self.bus2.slots[i] == other.bus2.slots[i] by {
            assert(self.slot(BusRouting::Bus2, i) == other.slot(BusRouting::Bus2, i));
        }
        assert(self.bus1.slots =~= other.bus1.slots);
        assert(self.bus2.slots =~= other.bus2.slots);
    }

    fn take_slot(&mut self, bus: BusRouting, slot: usize) -> (taken: Option<EffectSlotConfig<V>>)
        requires
            bus != BusRouting::Dry,
            slot < CHAIN_SLOTS,
        ensures
            taken == old(self).slot(bus, slot as int),
            final(self).slot(bus, slot as int) is None,
            final(self).same_elsewhere(*old(self), bus, slot as int),
    {
        if bus == BusRouting::Bus1 {
            self.bus1.slots[slot].take()
        } else {
            self.bus2.slots[slot].take()
        }
    }

    fn put_slot(&mut self, bus: BusRouting, slot: usize, cfg: Option<EffectSlotConfig<V>>)
        requires
            bus != BusRouting::Dry,
            slot < CHAIN_SLOTS,
        ensures
            final(self).slot(bus, slot as int) == cfg,
            final(self).same_elsewhere(*old(self), bus, slot as int),
    {
        if bus == BusRouting::Bus1 {
            self.bus1.slots[slot] = cfg;
        } else {
            self.bus2.slots[slot] = cfg;
        }
    }

    /// Records a normalized knob value for a parameter of a populated slot.
    /// Also hands back the parameter's descriptor, by which the caller scales
    /// the value before forwarding it; the request is always forwarded.
    /// The value is stored (and to be persisted) only where the slot holds an
    /// entry for that parameter.
    pub fn set_effect_param(&mut self, bus: BusRouting, slot: usize, param_id: u8, value: V) -> (r: (
        FollowUp,
        Option<ParamSpec>,
    ))
        ensures
            old(self).param_recorded(*final(self), bus, slot, param_id, value, r),
    {
        if bus == BusRouting::Dry || slot >= CHAIN_SLOTS {
            return (FollowUp { persist: false, enqueue: true }, None);
        }
        match self.take_slot(bus, slot) {
            None => {
                proof {
                    self.lemma_slots_determine(*old(self), bus, slot as int);
                }
                (FollowUp { persist: false, enqueue: true }, None)
            },
            Some(mut cfg) => {
                let specs = effect_metadata(cfg.effect_type);
                let pid = param_id as usize;
                let spec = if pid < specs.len() {
                    Some(specs[pid])
                } else {
                    None
                };
                let persist = pid < cfg.params.len();
                if persist {
                    cfg.params.set(pid, value);
                }
                self.put_slot(bus, slot, Some(cfg));
                (FollowUp { persist, enqueue: true }, spec)
            },
        }
    }

    /// Records the wet/dry mix of a populated slot; the request is always
    /// forwarded.
    pub fn set_effect_mix(&mut self, bus: BusRouting, slot: usize, mix: V) -> (r: FollowUp)
        ensures
            old(self).mix_recorded(*final(self), bus, slot, mix, r),
    {
        if bus == BusRouting::Dry || slot >= CHAIN_SLOTS {
            return FollowUp { persist: false, enqueue: true };
        }
        match self.take_slot(bus, slot) {
            None => {
                proof {
                    self.lemma_slots_determine(*old(self), bus, slot as int);
                }
                FollowUp { persist: false, enqueue: true }
            },
            Some(mut cfg) => {
                cfg.mix = mix;
                self.put_slot(bus, slot, Some(cfg));
                FollowUp { persist: true, enqueue: true }
            },
        }
    }

    /// Empties a slot of a bus chain; the request is always forwarded.
    pub fn remove_bus_effect(&mut self, bus: BusRouting, slot: usize) -> (r: FollowUp)
        ensures
            old(self).slot_removed(*final(self), bus, slot, r),
    {
        if bus == BusRouting::Dry || slot >= CHAIN_SLOTS {
            return FollowUp { persist: false, enqueue: true };
        }
        let _ = self.take_slot(bus, slot);
        FollowUp { persist: true, enqueue: true }
    }
}

} // verus!
