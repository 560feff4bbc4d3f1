use vstd::prelude::*;
use vstd::multiset::Multiset;
use std::collections::HashMap;
use crate::effects::{EffectChain, EffectSlot, EffectType, ParamSpec, CHAIN_SLOTS};
use crate::state::{AppFxConfig, AudioBuffer, AudioCommand, BusRouting, FollowUp, PlaybackEvent};

verus! {

broadcast use vstd::std_specs::hash::group_hash_axioms;

/// The voices that survive when a voice of mute group `group` starts: every
/// voice of that same group is choked.
pub open spec fn choked<V>(events: Seq<PlaybackEvent<V>>, group: Option<u8>) -> Seq<PlaybackEvent<V>> {
    match group {
        Some(g) => events.filter(outside_group(g)),
        None => events,
    }
}

/// Whether a voice is outside mute group `g`.
pub open spec fn outside_group<V>(g: u8) -> spec_fn(PlaybackEvent<V>) -> bool {
    |e: PlaybackEvent<V>| e.mute_group != Some(g)
}

/// `s` without the elements whose positions are listed in `gone`, in order.
pub open spec fn without_positions<T>(s: Seq<T>, gone: Seq<usize>) -> Seq<T>
    decreases s.len(),
{
    if s.len() == 0 {
        s
    } else {
        let rest = without_positions(s.drop_last(), gone);
        if gone.contains((s.len() - 1) as usize) {
            rest
        } else {
            rest.push(s.last())
        }
    }
}

/// The in-range positions of a list of `n` voices that `gone` lists.
pub open spec fn listed_positions(n: int, gone: Seq<usize>) -> Set<int> {
    Set::new(|p: int| 0 <= p < n && gone.contains(p as usize))
}

/// Removing the listed positions keeps exactly the elements at the positions
/// that are not listed, in their order, and nothing else: `kept[j]` is the old
/// position of the `j`-th survivor. So every listed position within the list
/// is removed, and the list shrinks by the number of distinct listed
/// positions within it.
pub proof fn lemma_without_positions_keeps_unlisted<T>(s: Seq<T>, gone: Seq<usize>) -> (kept: Seq<int>)
    ensures
        kept.len() == without_positions(s, gone).len(),
        forall|j: int| 0 <= j < kept.len() ==> 0 <= #[trigger] kept[j] < s.len()
            && without_positions(s, gone)[j] == s[kept[j]],
        forall|j: int, k: int| 0 <= j < k < kept.len() ==> kept[j] < kept[k],
        forall|p: int| 0 <= p < s.len() ==> (kept.contains(p) <==> !gone.contains(p as usize)),
        listed_positions(s.len() as int, gone).finite(),
        without_positions(s, gone).len() == s.len() - listed_positions(s.len() as int, gone).len(),
    decreases s.len(),
{
    if s.len() == 0 {
        assert(listed_positions(0, gone) =~= Set::<int>::empty());
        Seq::empty()
    } else {
        let n = s.len() - 1;
        let prev = s.drop_last();
        let kept0 = lemma_without_positions_keeps_unlisted(prev, gone);
        let rest = without_positions(prev, gone);
        assert(forall|j: int| 0 <= j < kept0.len() ==> kept0[j] < n);
        if gone.contains(n as usize) {
            assert(listed_positions(s.len() as int, gone) =~= listed_positions(n, gone).insert(n));
            assert(!listed_positions(n, gone).contains(n));
            assert forall|p: int| 0 <= p < s.len() implies (kept0.contains(p) <==> !gone.contains(p as usize)) by {
                if p == n {
                    if kept0.contains(p) {
                        let j = choose|j: int| 0 <= j < kept0.len() && kept0[j] == p;
                        assert(kept0[j] < n);
                    }
                }
            }
            kept0
        } else {
            let kept = kept0.push(n);
            assert(listed_positions(s.len() as int, gone) =~= listed_positions(n, gone));
            assert forall|p: int| 0 <= p < s.len() implies (kept.contains(p) <==> !gone.contains(p as usize)) by {
                if p < n {
                    if kept.contains(p) {
                        let j = choose|j: int| 0 <= j < kept.len() && kept[j] == p;
                        if j < kept0.len() {
                            assert(kept0[j] == p);
                        }
                    }
                    if kept0.contains(p) {
                        let j = choose|j: int| 0 <= j < kept0.len() && kept0[j] == p;
                        assert(kept[j] == p);
                    }
                } else {
                    assert(kept[kept0.len() as int] == n);
                }
            }
            kept
        }
    }
}

/// Keeps the voices whose mute group is not `group`, in order. Works in
/// place: no allocation.
pub fn choke_group<V: Copy>(events: &mut Vec<PlaybackEvent<V>>, group: u8)
    ensures
        final(events)@ == choked(old(events)@, Some(group)),
{
    let ghost pred = outside_group::<V>(group);
    let ghost orig = events@;
    let n = events.len();
    let mut w: usize = 0;
    let mut i: usize = 0;
    while i < n
        invariant
            pred == outside_group::<V>(group),
            n == orig.len(),
            events.len() == n,
            0 <= w <= i <= n,
            events@.take(w as int) == orig.take(i as int).filter(pred),
            forall|k: int| i <= k < n ==> #[trigger] events@[k] == orig[k],
        decreases n - i,
    {
        let e = events[i];
        proof {
            reveal(Seq::filter);
            assert(orig.take(i as int + 1).drop_last() =~= orig.take(i as int));
            assert(orig.take(i as int + 1).last() == e);
        }
        let same_group = match e.mute_group {
            Some(g) => g == group,
            None => false,
        };
        if !same_group {
            let ghost before = events@;
            events.set(w, e);
            assert(events@.take(w as int + 1) =~= before.take(w as int).push(e));
            w = w + 1;
        }
        i = i + 1;
    }
    assert(orig.take(n as int) =~= orig);
    events.truncate(w);
    assert(events@ =~= orig.filter(pred));
}

fn lists(gone: &Vec<usize>, x: usize) -> (r: bool)
    ensures
        r == gone@.contains(x),
{
    let mut i: usize = 0;
    while i < gone.len()
        invariant
            0 <= i <= gone.len(),
            forall|j: int| 0 <= j < i ==> gone@[j] != x,
        decreases gone.len() - i,
    {
        if gone[i] == x {
            assert(gone@[i as int] == x);
            return true;
        }
        i = i + 1;
    }
    false
}

/// Drops the voices at the listed positions (listed any number of times, in
/// any order; positions past the end are ignored), keeping the rest in order.
/// Works in place: no allocation.
pub fn remove_finished<V: Copy>(events: &mut Vec<PlaybackEvent<V>>, finished: &Vec<usize>)
    ensures
        final(events)@ == without_positions(old(events)@, finished@),
{
    let ghost orig = events@;
    let n = events.len();
    let mut w: usize = 0;
    let mut i: usize = 0;
    while i < n
        invariant
            n == orig.len(),
            events.len() == n,
            0 <= w <= i <= n,
            events@.take(w as int) == without_positions(orig.take(i as int), finished@),
            forall|k: int| i <= k < n ==> #[trigger] events@[k] == orig[k],
        decreases n - i,
    {
        let e = events[i];
        proof {
            assert(orig.take(i as int + 1).drop_last() =~= orig.take(i as int));
            assert(orig.take(i as int + 1).last() == e);
        }
        if !lists(finished, i) {
            let ghost before = events@;
            events.set(w, e);
            assert(events@.take(w as int + 1) =~= before.take(w as int).push(e));
            w = w + 1;
        }
        i = i + 1;
    }
    assert(orig.take(n as int) =~= orig);
    events.truncate(w);
    assert(events@ =~= without_positions(orig, finished@));
}

/// The part of the audio thread's state that commands act on. `B` is the
/// shared handle of a decoded buffer, `E` a built effect, `V` a sample or
/// control value.
pub struct EngineState<B, E, V> {
    /// Decoded buffers by pad.
    pub buffers: HashMap<usize, B>,
    /// Voices currently playing, oldest first.
    pub active_events: Vec<PlaybackEvent<V>>,
    /// The buffer being auditioned, with its read position.
    pub pre_listen_event: Option<(B, V)>,
    pub bus1_fx: EffectChain<EffectSlot<E, V>>,
    pub bus2_fx: EffectChain<EffectSlot<E, V>>,
    pub master_fx: EffectChain<EffectSlot<E, V>>,
    /// Current tempo in beats per minute.
    pub tempo: V,
    /// Read position at which a new voice or audition starts.
    pub start_position: V,
    /// Gain of a newly triggered voice.
    pub trigger_volume: V,
}

/// The work a command leaves for the caller, which holds the effects'
/// processing code and the retirement channel.
pub enum EngineAction<E, V> {
    /// Nothing further.
    Done,
    /// Hand this slot off the audio thread to be dropped.
    Retire(EffectSlot<E, V>),
    /// Set a parameter of the effect in this slot, which is populated.
    SetParameter { bus: BusRouting, slot: usize, param_id: u8, value: V },
    /// Pass the new tempo to every effect of every chain.
    Tempo(V),
}

impl<B, E, V: Copy> EngineState<B, E, V> {
    /// A state with no buffers, no voices, no audition and an empty master
    /// chain, holding the given bus chains.
    pub fn new(
        bus1_fx: EffectChain<EffectSlot<E, V>>,
        bus2_fx: EffectChain<EffectSlot<E, V>>,
        tempo: V,
        start_position: V,
        trigger_volume: V,
    ) -> (r: Self)
        ensures
            r.buffers@ == Map::<usize, B>::empty(),
            r.active_events@ == Seq::<PlaybackEvent<V>>::empty(),
            r.pre_listen_event is None,
            r.bus1_fx == bus1_fx,
            r.bus2_fx == bus2_fx,
            forall|i: int| 0 <= i < 4 ==> r.master_fx.slots[i] is None,
            r.tempo == tempo,
            r.start_position == start_position,
            r.trigger_volume == trigger_volume,
    {
        EngineState {
            buffers: HashMap::new(),
            active_events: Vec::new(),
            pre_listen_event: None,
            bus1_fx,
            bus2_fx,
            master_fx: EffectChain::new(),
            tempo,
            start_position,
            trigger_volume,
        }
    }

    /// The chain a bus routes through; the dry bus has none.
    pub open spec fn chain(self, bus: BusRouting) -> Option<EffectChain<EffectSlot<E, V>>> {
        match bus {
            BusRouting::Bus1 => Some(self.bus1_fx),
            BusRouting::Bus2 => Some(self.bus2_fx),
            BusRouting::Dry => None,
        }
    }

    /// The occupant of a slot, `None` where there is no such slot.
    pub open spec fn slot(self, bus: BusRouting, slot: int) -> Option<EffectSlot<E, V>> {
        match self.chain(bus) {
            Some(c) => if 0 <= slot < 4 {
                c.slots[slot]
            } else {
                None
            },
            None => None,
        }
    }

    /// The chains are as in `other` except (perhaps) at (`bus`, `slot`).
    pub open spec fn chains_same_elsewhere(self, other: Self, bus: BusRouting, slot: int) -> bool {
        &&& forall|b: BusRouting, s: int|
            !(b == bus && s == slot) ==> #[trigger] self.slot(b, s) == other.slot(b, s)
        &&& self.master_fx == other.master_fx
    }

    /// Everything but the chains is as in `other`.
    pub open spec fn same_voices(self, other: Self) -> bool {
        &&& self.buffers == other.buffers
        &&& self.active_events == other.active_events
        &&& self.pre_listen_event == other.pre_listen_event
        &&& self.tempo == other.tempo
        &&& self.start_position == other.start_position
        &&& self.trigger_volume == other.trigger_volume
    }

    /// The bus chains and the master chain are as in `other`.
    pub open spec fn same_chains(self, other: Self) -> bool {
        &&& self.bus1_fx == other.bus1_fx
        &&& self.bus2_fx == other.bus2_fx
        &&& self.master_fx == other.master_fx
    }

    /// `new` and `action` are what applying `cmd` to `self` gives.
    pub open spec fn applied(self, new: Self, cmd: AudioCommand<B, E, V>, action: EngineAction<E, V>) -> bool {
        match cmd {
            AudioCommand::AddBuffer(pad_id, buffer) => {
                &&& new.buffers@ == self.buffers@.insert(pad_id, buffer)
                &&& new.active_events == self.active_events
                &&& new.pre_listen_event == self.pre_listen_event
                &&& new.tempo == self.tempo
                &&& new.start_position == self.start_position
                &&& new.trigger_volume == self.trigger_volume
                &&& new.same_chains(self)
                &&& action is Done
            },
            AudioCommand::PreListen { buffer } => {
                &&& new.pre_listen_event == Some((buffer, self.start_position))
                &&& new.buffers == self.buffers
                &&& new.active_events == self.active_events
                &&& new.tempo == self.tempo
                &&& new.start_position == self.start_position
                &&& new.trigger_volume == self.trigger_volume
                &&& new.same_chains(self)
                &&& action is Done
            },
            AudioCommand::TriggerPad { pad_id, mute_group, routing } => {
                &&& new.active_events@ == (if self.buffers@.contains_key(pad_id) {
                    choked(self.active_events@, mute_group).push(
                        PlaybackEvent {
                            pad_id,
                            position: self.start_position,
                            volume: self.trigger_volume,
                            mute_group,
                            routing,
                        },
                    )
                } else {
                    self.active_events@
                })
                &&& new.buffers == self.buffers
                &&& new.pre_listen_event == self.pre_listen_event
                &&& new.tempo == self.tempo
                &&& new.start_position == self.start_position
                &&& new.trigger_volume == self.trigger_volume
                &&& new.same_chains(self)
                &&& action is Done
            },
            AudioCommand::SetBusEffect { bus, slot, slot_fx } => {
                &&& new.same_voices(self)
                &&& if self.chain(bus) is Some && slot < CHAIN_SLOTS {
                    &&& new.slot(bus, slot as int) == Some(slot_fx)
                    &&& new.chains_same_elsewhere(self, bus, slot as int)
                    &&& action == (match self.slot(bus, slot as int) {
                        Some(prev) => EngineAction::Retire(prev),
                        None => EngineAction::<E, V>::Done,
                    })
                } else {
                    &&& new.same_chains(self)
                    &&& action == EngineAction::Retire(slot_fx)
                }
            },
            AudioCommand::SetEffectParam { bus, slot, param_id, value } => {
                &&& new == self
                &&& action == (if self.slot(bus, slot as int) is Some {
                    EngineAction::SetParameter { bus, slot, param_id, value }
                } else {
                    EngineAction::<E, V>::Done
                })
            },
            AudioCommand::SetEffectMix { bus, slot, mix } => {
                &&& new.same_voices(self)
                &&& action is Done
                &&& match self.slot(bus, slot as int) {
                    Some(active) => {
                        &&& new.slot(bus, slot as int) == Some(
                            EffectSlot { effect: active.effect, mix },
                        )
                        &&& new.chains_same_elsewhere(self, bus, slot as int)
                    },
                    None => new.same_chains(self),
                }
            },
            AudioCommand::RemoveBusEffect { bus, slot } => {
                &&& new.same_voices(self)
                &&& if self.chain(bus) is Some && slot < CHAIN_SLOTS {
                    &&& new.slot(bus, slot as int) is None
                    &&& new.chains_same_elsewhere(self, bus, slot as int)
                    &&& action == (match self.slot(bus, slot as int) {
                        Some(prev) => EngineAction::Retire(prev),
                        None => EngineAction::<E, V>::Done,
                    })
                } else {
                    &&& new.same_chains(self)
                    &&& action is Done
                }
            },
            AudioCommand::SetTempo { bpm } => {
                &&& new.tempo == bpm
                &&& new.buffers == self.buffers
                &&& new.active_events == self.active_events
                &&& new.pre_listen_event == self.pre_listen_event
                &&& new.start_position == self.start_position
                &&& new.trigger_volume == self.trigger_volume
                &&& new.same_chains(self)
                &&& action == EngineAction::<E, V>::Tempo(bpm)
            },
        }
    }

    /// Applies one command from the control side. Buffers, voices, the
    /// audition, effect slots and the tempo change as the command says; the
    /// action says what is left for the caller to do with effects that this
    /// state only holds.
    pub fn apply_command(&mut self, cmd: AudioCommand<B, E, V>) -> (action: EngineAction<E, V>)
        ensures
            old(self).applied(*final(self), cmd, action),
    {
        match cmd {
            AudioCommand::AddBuffer(pad_id, buffer) => {
                let _ = self.buffers.insert(pad_id, buffer);
                EngineAction::Done
            },
            AudioCommand::PreListen { buffer } => {
                self.pre_listen_event = Some((buffer, self.start_position));
                EngineAction::Done
            },
            AudioCommand::TriggerPad { pad_id, mute_group, routing } => {
                if self.buffers.contains_key(&pad_id) {
                    match mute_group {
                        Some(g) => choke_group(&mut self.active_events, g),
                        None => {},
                    }
                    self.active_events.push(
                        PlaybackEvent {
                            pad_id,
                            position: self.start_position,
                            volume: self.trigger_volume,
                            mute_group,
                            routing,
                        },
                    );
                }
                EngineAction::Done
            },
            AudioCommand::SetBusEffect { bus, slot, slot_fx } => {
                let retired = match bus {
                    BusRouting::Bus1 => self.bus1_fx.install(slot, slot_fx),
                    BusRouting::Bus2 => self.bus2_fx.install(slot, slot_fx),
                    BusRouting::Dry => Some(slot_fx),
                };
                match retired {
                    Some(old_slot) => EngineAction::Retire(old_slot),
                    None => EngineAction::Done,
                }
            },
            AudioCommand::SetEffectParam { bus, slot, param_id, value } => {
                if self.is_populated(bus, slot) {
                    EngineAction::SetParameter { bus, slot, param_id, value }
                } else {
                    EngineAction::Done
                }
            },
            AudioCommand::SetEffectMix { bus, slot, mix } => {
                if bus != BusRouting::Dry && slot < CHAIN_SLOTS {
                    let taken = if bus == BusRouting::Bus1 {
                        self.bus1_fx.slots[slot].take()
                    } else {
                        self.bus2_fx.slots[slot].take()
                    };
                    let back = match taken {
                        Some(active) => Some(EffectSlot { effect: active.effect, mix }),
                        None => None,
                    };
                    if bus == BusRouting::Bus1 {
                        self.bus1_fx.slots[slot] = back;
                    } else {
                        self.bus2_fx.slots[slot] = back;
                    }
                    proof {
                        if old(self).slot(bus, slot as int) is None {
                            assert(self.bus1_fx.slots =~= old(self).bus1_fx.slots);
                            assert(self.bus2_fx.slots =~= old(self).bus2_fx.slots);
                        }
                    }
                }
                EngineAction::Done
            },
            AudioCommand::RemoveBusEffect { bus, slot } => {
                let retired = match bus {
                    BusRouting::Bus1 => self.bus1_fx.remove(slot),
                    BusRouting::Bus2 => self.bus2_fx.remove(slot),
                    BusRouting::Dry => None,
                };
                match retired {
                    Some(old_slot) => EngineAction::Retire(old_slot),
                    None => EngineAction::Done,
                }
            },
            AudioCommand::SetTempo { bpm } => {
                self.tempo = bpm;
                EngineAction::Tempo(bpm)
            },
        }
    }

    /// Whether a slot of a bus chain holds an effect.
    pub fn is_populated(&self, bus: BusRouting, slot: usize) -> (r: bool)
        ensures
            r == self.slot(bus, slot as int) is Some,
    {
        if slot >= CHAIN_SLOTS {
            return false;
        }
        match bus {
            BusRouting::Bus1 => self.bus1_fx.slots[slot].is_some(),
            BusRouting::Bus2 => self.bus2_fx.slots[slot].is_some(),
            BusRouting::Dry => false,
        }
    }
}


/// The interleaved channel that output channel `channel` reads from a source
/// of `channels` channels: its own where the source has it, else the first.
pub open spec fn source_channel(channel: int, channels: int) -> int {
    if channel < channels {
        channel
    } else {
        0
    }
}

/// The interleaved position read for output channel `channel` at source
/// frame `index`, when it lies within `len` samples.
pub open spec fn frame_sample(index: int, channel: int, channels: int, len: int) -> Option<usize> {
    let k = index * channels + source_channel(channel, channels);
    if k < len {
        Some(k as usize)
    } else {
        None
    }
}

impl<T> AudioBuffer<T> {
    /// Whether a voice reading source frame `index` has run past the end.
    pub fn is_exhausted(&self, index: usize) -> (r: bool)
        ensures
            r == (index as int * self.channels as int >= self.samples.len()),
    {
        let channels = self.channels as usize;
        match index.checked_mul(channels) {
            Some(start) => start >= self.samples.len(),
            None => true,
        }
    }

    /// Where output channel `channel` reads at source frame `index`: its
    /// own channel or, past the source's channel count, the first one;
    /// `None` when that position lies past the end.
    pub fn sample_index(&self, index: usize, channel: usize) -> (r: Option<usize>)
        ensures
            r == frame_sample(index as int, channel as int, self.channels as int, self.samples.len() as int),
            r matches Some(k) ==> k < self.samples.len(),
    {
        let channels = self.channels as usize;
        let source = if channel < channels {
            channel
        } else {
            0
        };
        match index.checked_mul(channels) {
            Some(start) => match start.checked_add(source) {
                Some(k) => if k < self.samples.len() {
                    Some(k)
                } else {
                    None
                },
                None => None,
            },
            None => {
                assert(index as int * channels as int > usize::MAX);
                None
            },
        }
    }
}

/// The resampling capture: mixed output samples are written in order while
/// armed, until the buffer is full.
pub struct ResamplingCapture<T> {
    pub buffer: Vec<T>,
    /// Position of the next sample to write.
    pub index: usize,
}

impl<T> ResamplingCapture<T> {
    /// A capture that writes into `buffer` from its start.
    pub fn new(buffer: Vec<T>) -> (r: Self)
        ensures
            r.buffer == buffer,
            r.index == 0,
    {
        ResamplingCapture { buffer, index: 0 }
    }

    /// Stores one output sample when armed and there is room; otherwise
    /// leaves the capture unchanged.
    pub fn record(&mut self, armed: bool, sample: T)
        ensures
            armed && old(self).index < old(self).buffer.len() ==> {
                &&& final(self).buffer@ == old(self).buffer@.update(old(self).index as int, sample)
                &&& final(self).index == old(self).index + 1
            },
            !(armed && old(self).index < old(self).buffer.len()) ==> *final(self) == *old(self),
            (final(self).buffer@, final(self).index as int) == capture_step(
                old(self).buffer@,
                old(self).index as int,
                armed,
                sample,
            ),
    {
        if armed && self.index < self.buffer.len() {
            self.buffer.set(self.index, sample);
            self.index = self.index + 1;
        }
    }
}

/// One sample offered to the capture: the buffer and next position after it.
pub open spec fn capture_step<T>(buffer: Seq<T>, index: int, armed: bool, sample: T) -> (Seq<T>, int) {
    if armed && index < buffer.len() {
        (buffer.update(index, sample), index + 1)
    } else {
        (buffer, index)
    }
}

/// The samples offered to the capture in order, one `record` each.
pub open spec fn capture_run<T>(buffer: Seq<T>, index: int, armed: bool, samples: Seq<T>) -> (Seq<T>, int)
    decreases samples.len(),
{
    if samples.len() == 0 {
        (buffer, index)
    } else {
        let (b, i) = capture_run(buffer, index, armed, samples.drop_last());
        capture_step(b, i, armed, samples.last())
    }
}

/// Over a whole callback with the capture armed, the samples land in order
/// from the capture's position on until the buffer is full, and the rest of
/// the buffer is untouched; disarmed, nothing changes.
pub proof fn lemma_capture_run<T>(buffer: Seq<T>, index: int, armed: bool, samples: Seq<T>)
    requires
        0 <= index <= buffer.len(),
    ensures
        ({
            let (b, i) = capture_run(buffer, index, armed, samples);
            if armed {
                &&& i == (if index + samples.len() < buffer.len() {
                    index + samples.len()
                } else {
                    buffer.len() as int
                })
                &&& b.len() == buffer.len()
                &&& forall|j: int| index <= j < i ==> #[trigger] b[j] == samples[j - index]
                &&& forall|j: int| 0 <= j < buffer.len() && !(index <= j < i) ==> #[trigger] b[j] == buffer[j]
            } else {
                b == buffer && i == index
            }
        }),
    decreases samples.len(),
{
    if samples.len() > 0 {
        lemma_capture_run(buffer, index, armed, samples.drop_last());
        let (b0, i0) = capture_run(buffer, index, armed, samples.drop_last());
        if armed && i0 < buffer.len() {
            assert(i0 == index + samples.len() - 1);
            assert(samples.last() == samples[i0 - index]);
            assert forall|j: int| index <= j < i0 implies #[trigger] samples.drop_last()[j - index] == samples[j - index] by {}
        }
    }
}

/// Triggering a voice of a mute group chokes every other voice of that group
/// and keeps every voice of another group (or of none) in its order: after
/// the trigger, the new voice is the only one of its group.
pub proof fn lemma_trigger_chokes_group<V>(
    events: Seq<PlaybackEvent<V>>,
    g: u8,
    voice: PlaybackEvent<V>,
)
    requires
        voice.mute_group == Some(g),
    ensures
        ({
            let after = choked(events, Some(g)).push(voice);
            &&& after.last() == voice
            &&& forall|i: int| 0 <= i < after.len() - 1 ==> #[trigger] after[i].mute_group != Some(g)
            &&& forall|i: int|
                0 <= i < events.len() && events[i].mute_group != Some(g) ==> after.contains(
                    #[trigger] events[i],
                )
        }),
{
    broadcast use vstd::seq_lib::group_filter_ensures;

    let kept = choked(events, Some(g));
    let after = kept.push(voice);
    assert forall|i: int| 0 <= i < after.len() - 1 implies #[trigger] after[i].mute_group != Some(g) by {
        assert(after[i] == kept[i]);
        assert(outside_group::<V>(g)(kept[i]));
    }
    assert forall|i: int| 0 <= i < events.len() && events[i].mute_group != Some(g) implies after.contains(
        #[trigger] events[i],
    ) by {
        assert(outside_group::<V>(g)(events[i]));
        assert(kept.contains(events[i]));
        let j = choose|j: int| 0 <= j < kept.len() && kept[j] == events[i];
        assert(after[j] == events[i]);
    }
}


/// The persisted configuration and the live chains agree: the same slots are
/// populated, and every populated slot has the same mix in both.
pub open spec fn agrees<B, E, V: Copy>(cfg: AppFxConfig<V>, eng: EngineState<B, E, V>) -> bool {
    forall|b: BusRouting, s: int|
        #![trigger cfg.slot(b, s), eng.slot(b, s)]
        (cfg.slot(b, s) is Some <==> eng.slot(b, s) is Some) && (cfg.slot(b, s) is Some
            ==> cfg.slot(b, s)->0.mix == eng.slot(b, s)->0.mix)
}

/// An empty configuration and an engine with empty chains agree.
pub proof fn lemma_empty_states_agree<B, E, V: Copy>(cfg: AppFxConfig<V>, eng: EngineState<B, E, V>)
    requires
        forall|i: int| 0 <= i < 4 ==> cfg.bus1.slots[i] is None && cfg.bus2.slots[i] is None,
        forall|i: int| 0 <= i < 4 ==> eng.bus1_fx.slots[i] is None && eng.bus2_fx.slots[i] is None,
    ensures
        agrees(cfg, eng),
{
}

/// Assigning an effect keeps configuration and engine in agreement, when the
/// request is forwarded exactly when the configuration says so and the built
/// slot carries the mix that was persisted for it.
pub proof fn lemma_assign_keeps_agreement<B, E, V: Copy, F: Fn(i32) -> V>(
    cfg: AppFxConfig<V>,
    cfg2: AppFxConfig<V>,
    eng: EngineState<B, E, V>,
    eng2: EngineState<B, E, V>,
    bus: BusRouting,
    slot: usize,
    effect: EffectType,
    control: F,
    r: FollowUp,
    slot_fx: EffectSlot<E, V>,
    action: EngineAction<E, V>,
)
    requires
        agrees(cfg, eng),
        cfg.assigned(cfg2, bus, slot, effect, control, r),
        r.enqueue ==> eng.applied(eng2, AudioCommand::SetBusEffect { bus, slot, slot_fx }, action),
        !r.enqueue ==> eng2 == eng,
        cfg2.slot(bus, slot as int) is Some ==> slot_fx.mix == cfg2.slot(bus, slot as int)->0.mix,
    ensures
        agrees(cfg2, eng2),
{
    assert forall|b: BusRouting, s: int|
        #![trigger cfg2.slot(b, s), eng2.slot(b, s)]
        (cfg2.slot(b, s) is Some <==> eng2.slot(b, s) is Some) && (cfg2.slot(b, s) is Some
            ==> cfg2.slot(b, s)->0.mix == eng2.slot(b, s)->0.mix) by {
        assert(cfg.slot(b, s) is Some <==> eng.slot(b, s) is Some);
    }
}

/// Setting a mix keeps configuration and engine in agreement.
pub proof fn lemma_mix_keeps_agreement<B, E, V: Copy>(
    cfg: AppFxConfig<V>,
    cfg2: AppFxConfig<V>,
    eng: EngineState<B, E, V>,
    eng2: EngineState<B, E, V>,
    bus: BusRouting,
    slot: usize,
    mix: V,
    r: FollowUp,
    action: EngineAction<E, V>,
)
    requires
        agrees(cfg, eng),
        cfg.mix_recorded(cfg2, bus, slot, mix, r),
        eng.applied(eng2, AudioCommand::SetEffectMix { bus, slot, mix }, action),
    ensures
        agrees(cfg2, eng2),
{
    assert forall|b: BusRouting, s: int|
        #![trigger cfg2.slot(b, s), eng2.slot(b, s)]
        (cfg2.slot(b, s) is Some <==> eng2.slot(b, s) is Some) && (cfg2.slot(b, s) is Some
            ==> cfg2.slot(b, s)->0.mix == eng2.slot(b, s)->0.mix) by {
        assert(cfg.slot(b, s) is Some <==> eng.slot(b, s) is Some);
        assert(cfg.slot(bus, slot as int) is Some <==> eng.slot(bus, slot as int) is Some);
    }
}

/// Setting a parameter keeps configuration and engine in agreement, whatever
/// value (scaled or not) is forwarded.
pub proof fn lemma_param_keeps_agreement<B, E, V: Copy>(
    cfg: AppFxConfig<V>,
    cfg2: AppFxConfig<V>,
    eng: EngineState<B, E, V>,
    eng2: EngineState<B, E, V>,
    bus: BusRouting,
    slot: usize,
    param_id: u8,
    knob: V,
    scaled: V,
    r: (FollowUp, Option<ParamSpec>),
    action: EngineAction<E, V>,
)
    requires
        agrees(cfg, eng),
        cfg.param_recorded(cfg2, bus, slot, param_id, knob, r),
        eng.applied(eng2, AudioCommand::SetEffectParam { bus, slot, param_id, value: scaled }, action),
    ensures
        agrees(cfg2, eng2),
{
    assert forall|b: BusRouting, s: int|
        #![trigger cfg2.slot(b, s), eng2.slot(b, s)]
        (cfg2.slot(b, s) is Some <==> eng2.slot(b, s) is Some) && (cfg2.slot(b, s) is Some
            ==> cfg2.slot(b, s)->0.mix == eng2.slot(b, s)->0.mix) by {
        assert(cfg.slot(b, s) is Some <==> eng.slot(b, s) is Some);
    }
}

/// Removing an effect keeps configuration and engine in agreement.
pub proof fn lemma_remove_keeps_agreement<B, E, V: Copy>(
    cfg: AppFxConfig<V>,
    cfg2: AppFxConfig<V>,
    eng: EngineState<B, E, V>,
    eng2: EngineState<B, E, V>,
    bus: BusRouting,
    slot: usize,
    r: FollowUp,
    action: EngineAction<E, V>,
)
    requires
        agrees(cfg, eng),
        cfg.slot_removed(cfg2, bus, slot, r),
        eng.applied(eng2, AudioCommand::RemoveBusEffect { bus, slot }, action),
    ensures
        agrees(cfg2, eng2),
{
    assert forall|b: BusRouting, s: int|
        #![trigger cfg2.slot(b, s), eng2.slot(b, s)]
        (cfg2.slot(b, s) is Some <==> eng2.slot(b, s) is Some) && (cfg2.slot(b, s) is Some
            ==> cfg2.slot(b, s)->0.mix == eng2.slot(b, s)->0.mix) by {
        assert(cfg.slot(b, s) is Some <==> eng.slot(b, s) is Some);
    }
}

/// Buffer, voice, audition and tempo commands never touch an effect slot.
pub proof fn lemma_voice_commands_keep_chains<B, E, V: Copy>(
    eng: EngineState<B, E, V>,
    eng2: EngineState<B, E, V>,
    cmd: AudioCommand<B, E, V>,
    action: EngineAction<E, V>,
)
    requires
        eng.applied(eng2, cmd, action),
        cmd is AddBuffer || cmd is PreListen || cmd is TriggerPad || cmd is SetTempo,
    ensures
        eng2.same_chains(eng),
{
}


/// The effect held in one slot, as a multiset of at most one element.
pub open spec fn slot_effect<E, V>(slot: Option<EffectSlot<E, V>>) -> Multiset<E> {
    match slot {
        Some(s) => Multiset::singleton(s.effect),
        None => Multiset::empty(),
    }
}

/// The effects held by a chain.
pub open spec fn chain_effects<E, V>(c: EffectChain<EffectSlot<E, V>>) -> Multiset<E> {
    slot_effect(c.slots[0]).add(slot_effect(c.slots[1])).add(slot_effect(c.slots[2])).add(
        slot_effect(c.slots[3]),
    )
}

/// The effects held by all three chains of the engine.
pub open spec fn held_effects<B, E, V: Copy>(eng: EngineState<B, E, V>) -> Multiset<E> {
    chain_effects(eng.bus1_fx).add(chain_effects(eng.bus2_fx)).add(chain_effects(eng.master_fx))
}

/// The effect a command brings along, if any.
pub open spec fn incoming_effects<B, E, V>(cmd: AudioCommand<B, E, V>) -> Multiset<E> {
    match cmd {
        AudioCommand::SetBusEffect { slot_fx, .. } => Multiset::singleton(slot_fx.effect),
        _ => Multiset::empty(),
    }
}

/// The effect an action hands off for retirement, if any.
pub open spec fn retired_effects<E, V>(action: EngineAction<E, V>) -> Multiset<E> {
    match action {
        EngineAction::Retire(s) => Multiset::singleton(s.effect),
        _ => Multiset::empty(),
    }
}

proof fn lemma_chain_effects_update<E, V>(
    c: EffectChain<EffectSlot<E, V>>,
    d: EffectChain<EffectSlot<E, V>>,
    k: int,
)
    requires
        0 <= k < 4,
        forall|i: int| 0 <= i < 4 && i != k ==> c.slots[i] == d.slots[i],
    ensures
        chain_effects(c).add(slot_effect(d.slots[k])) =~= chain_effects(d).add(slot_effect(c.slots[k])),
{
    broadcast use vstd::multiset::group_multiset_axioms;

    assert(c.slots[0] == d.slots[0] || k == 0);
    assert(c.slots[1] == d.slots[1] || k == 1);
    assert(c.slots[2] == d.slots[2] || k == 2);
    assert(c.slots[3] == d.slots[3] || k == 3);
}

/// Changing one slot of a bus chain changes the held effects by exactly
/// what left and what arrived there.
proof fn lemma_held_after_slot_change<B, E, V: Copy>(
    eng: EngineState<B, E, V>,
    eng2: EngineState<B, E, V>,
    bus: BusRouting,
    k: int,
)
    requires
        bus != BusRouting::Dry,
        0 <= k < 4,
        eng2.chains_same_elsewhere(eng, bus, k),
    ensures
        held_effects(eng).add(slot_effect(eng2.slot(bus, k))) =~= held_effects(eng2).add(
            slot_effect(eng.slot(bus, k)),
        ),
{
    broadcast use vstd::multiset::group_multiset_axioms;

    assert forall|i: int| 0 <= i < 4 && !(bus == BusRouting::Bus1 && i == k) implies eng.bus1_fx.slots[i]
        == eng2.bus1_fx.slots[i] by {
        assert(eng2.slot(BusRouting::Bus1, i) == eng.slot(BusRouting::Bus1, i));
    }
    assert forall|i: int| 0 <= i < 4 && !(bus == BusRouting::Bus2 && i == k) implies eng.bus2_fx.slots[i]
        == eng2.bus2_fx.slots[i] by {
        assert(eng2.slot(BusRouting::Bus2, i) == eng.slot(BusRouting::Bus2, i));
    }
    if bus == BusRouting::Bus1 {
        assert(eng.bus2_fx.slots =~= eng2.bus2_fx.slots);
        lemma_chain_effects_update(eng.bus1_fx, eng2.bus1_fx, k);
    } else {
        assert(eng.bus1_fx.slots =~= eng2.bus1_fx.slots);
        lemma_chain_effects_update(eng.bus2_fx, eng2.bus2_fx, k);
    }
}

proof fn lemma_install_conserves<B, E, V: Copy>(
    eng: EngineState<B, E, V>,
    eng2: EngineState<B, E, V>,
    bus: BusRouting,
    slot: usize,
    slot_fx: EffectSlot<E, V>,
    action: EngineAction<E, V>,
)
    requires
        eng.applied(eng2, AudioCommand::SetBusEffect { bus, slot, slot_fx }, action),
    ensures
        held_effects(eng).add(Multiset::singleton(slot_fx.effect)) =~= held_effects(eng2).add(
            retired_effects(action),
        ),
{
    broadcast use vstd::multiset::group_multiset_axioms;

    if eng.chain(bus) is Some && slot < CHAIN_SLOTS {
        lemma_held_after_slot_change(eng, eng2, bus, slot as int);
        assert(slot_effect(eng2.slot(bus, slot as int)) == Multiset::singleton(slot_fx.effect));
        assert(slot_effect(eng.slot(bus, slot as int)) == retired_effects(action));
    } else {
        assert(held_effects(eng2) == held_effects(eng));
    }
}

/// No command loses or duplicates an effect: what the chains held plus what
/// the command brings is what they hold afterwards plus what is handed off
/// for retirement. An effect therefore only ever leaves the audio thread's
/// chains through a `Retire` action.
pub proof fn lemma_effects_conserved<B, E, V: Copy>(
    eng: EngineState<B, E, V>,
    eng2: EngineState<B, E, V>,
    cmd: AudioCommand<B, E, V>,
    action: EngineAction<E, V>,
)
    requires
        eng.applied(eng2, cmd, action),
    ensures
        held_effects(eng).add(incoming_effects(cmd)) == held_effects(eng2).add(retired_effects(action)),
{
    broadcast use vstd::multiset::group_multiset_axioms;

    match cmd {
        AudioCommand::SetBusEffect { bus, slot, slot_fx } => {
            lemma_install_conserves(eng, eng2, bus, slot, slot_fx, action);
        },
        AudioCommand::RemoveBusEffect { bus, slot } => {
            if eng.chain(bus) is Some && slot < CHAIN_SLOTS {
                lemma_held_after_slot_change(eng, eng2, bus, slot as int);
            }
        },
        AudioCommand::SetEffectMix { bus, slot, .. } => {
            if eng.slot(bus, slot as int) is Some {
                lemma_held_after_slot_change(eng, eng2, bus, slot as int);
                let same = slot_effect(eng.slot(bus, slot as int));
                assert(slot_effect(eng2.slot(bus, slot as int)) == same);
                assert forall|v: E| held_effects(eng).count(v) == held_effects(eng2).count(v) by {
                    assert(held_effects(eng).add(same).count(v) == held_effects(eng2).add(same).count(v));
                }
                assert(held_effects(eng) =~= held_effects(eng2));
            }
        },
        _ => {},
    }
}


/// No two voices share a mute group: a voice of a group is the only one of
/// that group.
pub open spec fn groups_unique<V>(events: Seq<PlaybackEvent<V>>) -> bool {
    forall|i: int, j: int|
        0 <= i < j < events.len() && (#[trigger] events[i]).mute_group is Some ==> (
        #[trigger] events[j]).mute_group != events[i].mute_group
}

proof fn lemma_unique_push<V>(s: Seq<PlaybackEvent<V>>, x: PlaybackEvent<V>)
    requires
        groups_unique(s),
        x.mute_group is Some ==> forall|k: int| 0 <= k < s.len() ==> #[trigger] s[k].mute_group != x.mute_group,
    ensures
        groups_unique(s.push(x)),
{
    let t = s.push(x);
    assert forall|i: int, j: int|
        0 <= i < j < t.len() && (#[trigger] t[i]).mute_group is Some implies (#[trigger] t[j]).mute_group
        != t[i].mute_group by {
        if j == s.len() {
            assert(t[i] == s[i]);
        } else {
            assert(t[i] == s[i] && t[j] == s[j]);
        }
    }
}

proof fn lemma_unique_filter<V>(s: Seq<PlaybackEvent<V>>, pred: spec_fn(PlaybackEvent<V>) -> bool)
    requires
        groups_unique(s),
    ensures
        groups_unique(s.filter(pred)),
    decreases s.len(),
{
    reveal(Seq::filter);
    if s.len() > 0 {
        let d = s.drop_last();
        assert(groups_unique(d)) by {
            assert forall|i: int, j: int|
                0 <= i < j < d.len() && (#[trigger] d[i]).mute_group is Some implies (
                #[trigger] d[j]).mute_group != d[i].mute_group by {
                assert(d[i] == s[i] && d[j] == s[j]);
            }
        }
        lemma_unique_filter(d, pred);
        if pred(s.last()) {
            let f = d.filter(pred);
            assert forall|k: int| 0 <= k < f.len() && s.last().mute_group is Some implies #[trigger] f[k].mute_group
                != s.last().mute_group by {
                assert(f.contains(f[k]));
                d.lemma_filter_contains_rev(pred, f[k]);
                let m = choose|m: int| 0 <= m < d.len() && d[m] == f[k];
                assert(s[m] == f[k]);
                assert(s[s.len() - 1] == s.last());
            }
            lemma_unique_push(f, s.last());
        }
    }
}

proof fn lemma_unique_without<V>(s: Seq<PlaybackEvent<V>>, gone: Seq<usize>)
    requires
        groups_unique(s),
    ensures
        groups_unique(without_positions(s, gone)),
        forall|k: int| 0 <= k < without_positions(s, gone).len() ==> s.contains(
            #[trigger] without_positions(s, gone)[k],
        ),
    decreases s.len(),
{
    if s.len() > 0 {
        let d = s.drop_last();
        assert(groups_unique(d)) by {
            assert forall|i: int, j: int|
                0 <= i < j < d.len() && (#[trigger] d[i]).mute_group is Some implies (
                #[trigger] d[j]).mute_group != d[i].mute_group by {
                assert(d[i] == s[i] && d[j] == s[j]);
            }
        }
        lemma_unique_without(d, gone);
        let r = without_positions(d, gone);
        assert forall|k: int| 0 <= k < r.len() implies #[trigger] s.contains(r[k]) by {
            assert(d.contains(r[k]));
            let m = choose|m: int| 0 <= m < d.len() && d[m] == r[k];
            assert(s[m] == r[k]);
        }
        if !gone.contains((s.len() - 1) as usize) {
            assert forall|k: int| 0 <= k < r.len() && s.last().mute_group is Some implies #[trigger] r[k].mute_group
                != s.last().mute_group by {
                assert(d.contains(r[k]));
                let m = choose|m: int| 0 <= m < d.len() && d[m] == r[k];
                assert(s[m] == r[k]);
                assert(s[s.len() - 1] == s.last());
            }
            lemma_unique_push(r, s.last());
            let t = r.push(s.last());
            assert forall|k: int| 0 <= k < t.len() implies #[trigger] s.contains(t[k]) by {
                if k == r.len() {
                    assert(s[s.len() - 1] == t[k]);
                } else {
                    assert(t[k] == r[k]);
                }
            }
        }
    }
}

/// Every command keeps each mute group down to at most one voice.
pub proof fn lemma_command_keeps_groups_unique<B, E, V: Copy>(
    eng: EngineState<B, E, V>,
    eng2: EngineState<B, E, V>,
    cmd: AudioCommand<B, E, V>,
    action: EngineAction<E, V>,
)
    requires
        groups_unique(eng.active_events@),
        eng.applied(eng2, cmd, action),
    ensures
        groups_unique(eng2.active_events@),
{
    broadcast use vstd::seq_lib::group_filter_ensures;

    match cmd {
        AudioCommand::TriggerPad { pad_id, mute_group, routing } => {
            if eng.buffers@.contains_key(pad_id) {
                let voice = PlaybackEvent {
                    pad_id,
                    position: eng.start_position,
                    volume: eng.trigger_volume,
                    mute_group,
                    routing,
                };
                let kept = choked(eng.active_events@, mute_group);
                match mute_group {
                    Some(g) => {
                        lemma_unique_filter(eng.active_events@, outside_group::<V>(g));
                        assert forall|k: int| 0 <= k < kept.len() implies #[trigger] kept[k].mute_group
                            != voice.mute_group by {
                            assert(outside_group::<V>(g)(kept[k]));
                        }
                    },
                    None => {},
                }
                lemma_unique_push(kept, voice);
            }
        },
        _ => {},
    }
}

/// Over a whole audio callback (the commands drained in order, then the
/// finished voices removed) each mute group keeps at most one voice.
pub proof fn lemma_callback_keeps_groups_unique<B, E, V: Copy>(
    states: Seq<EngineState<B, E, V>>,
    cmds: Seq<AudioCommand<B, E, V>>,
    actions: Seq<EngineAction<E, V>>,
    finished: Seq<usize>,
)
    requires
        states.len() == cmds.len() + 1,
        actions.len() == cmds.len(),
        forall|k: int| 0 <= k < cmds.len() ==> (#[trigger] states[k]).applied(states[k + 1], cmds[k], actions[k]),
        groups_unique(states[0].active_events@),
    ensures
        groups_unique(states.last().active_events@),
        groups_unique(without_positions(states.last().active_events@, finished)),
    decreases cmds.len(),
{
    if cmds.len() > 0 {
        let n = cmds.len() as int;
        lemma_callback_keeps_groups_unique(
            states.drop_last(),
            cmds.drop_last(),
            actions.drop_last(),
            finished,
        );
        assert(states.drop_last().last() == states[n - 1]);
        lemma_command_keeps_groups_unique(states[n - 1], states[n], cmds[n - 1], actions[n - 1]);
    }
    lemma_unique_without(states.last().active_events@, finished);
}

} // verus!
