use vstd::prelude::*;
use vstd::utf8::encode_utf8;

verus! {

/// One entry of a directory listing.
pub struct DirEntry {
    pub name: String,
    pub path: String,
    pub is_dir: bool,
}

/// Lexicographic byte order, as Rust orders byte strings: at the first
/// difference the smaller byte comes first, and a proper prefix comes
/// before its extensions.
pub open spec fn bytes_lt(a: Seq<u8>, b: Seq<u8>) -> bool
    decreases a.len(),
{
    if b.len() == 0 {
        false
    } else if a.len() == 0 {
        true
    } else if a[0] != b[0] {
        a[0] < b[0]
    } else {
        bytes_lt(a.drop_first(), b.drop_first())
    }
}

/// The bytes by which names are ordered: their UTF-8 encoding.
pub open spec fn name_key(e: DirEntry) -> Seq<u8> {
    encode_utf8(e.name@)
}

/// Whether `a` is listed strictly before `b`: directories before files, then
/// by name.
pub open spec fn listed_before(a: DirEntry, b: DirEntry) -> bool {
    ||| (a.is_dir && !b.is_dir)
    ||| (a.is_dir == b.is_dir && bytes_lt(name_key(a), name_key(b)))
}

/// No entry is listed after one that should come after it.
pub open spec fn listing_sorted(s: Seq<DirEntry>) -> bool {
    forall|i: int, j: int| 0 <= i < j < s.len() ==> !listed_before(#[trigger] s[j], #[trigger] s[i])
}

/// `x` inserted into `s` after every entry it is not listed before: the step
/// of a stable insertion sort.
pub open spec fn insert_listed(s: Seq<DirEntry>, x: DirEntry) -> Seq<DirEntry>
    decreases s.len(),
{
    if s.len() == 0 {
        seq![x]
    } else if listed_before(x, s[0]) {
        seq![x] + s
    } else {
        seq![s[0]] + insert_listed(s.drop_first(), x)
    }
}

/// The stable sort of a listing: directories first, then by name; entries
/// that compare equal keep their order.
pub open spec fn sorted_listing(s: Seq<DirEntry>) -> Seq<DirEntry>
    decreases s.len(),
{
    if s.len() == 0 {
        s
    } else {
        insert_listed(sorted_listing(s.drop_last()), s.last())
    }
}

/// Names compare by their first differing byte, as unsigned bytes: when `a`
/// and `b` agree on their first `i` bytes and differ at byte `i`, `a` orders
/// before `b` exactly when its byte there is the smaller one.
pub proof fn lemma_bytes_lt_first_difference(a: Seq<u8>, b: Seq<u8>, i: int)
    requires
        0 <= i < a.len(),
        i < b.len(),
        a.take(i) == b.take(i),
        a[i] != b[i],
    ensures
        bytes_lt(a, b) == (a[i] < b[i]),
    decreases i,
{
    if i > 0 {
        assert(a[0] == a.take(i)[0] && b[0] == b.take(i)[0]);
        assert(a.drop_first().take(i - 1) =~= a.take(i).drop_first());
        assert(b.drop_first().take(i - 1) =~= b.take(i).drop_first());
        lemma_bytes_lt_first_difference(a.drop_first(), b.drop_first(), i - 1);
    }
}

/// A name orders before every longer name that it begins, and never after a
/// name that it extends.
pub proof fn lemma_bytes_lt_prefix(a: Seq<u8>, b: Seq<u8>)
    requires
        a.len() < b.len(),
        b.take(a.len() as int) == a,
    ensures
        bytes_lt(a, b),
        !bytes_lt(b, a),
    decreases a.len(),
{
    if a.len() > 0 {
        assert(a[0] == b.take(a.len() as int)[0]);
        assert(b.drop_first().take(a.len() - 1) =~= a.drop_first());
        lemma_bytes_lt_prefix(a.drop_first(), b.drop_first());
    }
}

/// Among entries of the same kind, the listing follows the names' first
/// differing byte (so "bass.wav" is listed before "clap.wav").
pub proof fn lemma_listing_by_name(a: DirEntry, b: DirEntry, i: int)
    requires
        a.is_dir == b.is_dir,
        0 <= i < name_key(a).len(),
        i < name_key(b).len(),
        name_key(a).take(i) == name_key(b).take(i),
        name_key(a)[i] != name_key(b)[i],
    ensures
        listed_before(a, b) == (name_key(a)[i] < name_key(b)[i]),
        listed_before(b, a) == (name_key(b)[i] < name_key(a)[i]),
{
    lemma_bytes_lt_first_difference(name_key(a), name_key(b), i);
    lemma_bytes_lt_first_difference(name_key(b), name_key(a), i);
}

/// A directory is listed before every file, whatever their names.
pub proof fn lemma_directories_first(d: DirEntry, f: DirEntry)
    requires
        d.is_dir,
        !f.is_dir,
    ensures
        listed_before(d, f),
        !listed_before(f, d),
{
}

proof fn lemma_bytes_lt_irreflexive(a: Seq<u8>)
    ensures
        !bytes_lt(a, a),
    decreases a.len(),
{
    if a.len() > 0 {
        lemma_bytes_lt_irreflexive(a.drop_first());
    }
}

proof fn lemma_bytes_lt_asymmetric(a: Seq<u8>, b: Seq<u8>)
    ensures
        !(bytes_lt(a, b) && bytes_lt(b, a)),
    decreases a.len(),
{
    if a.len() > 0 && b.len() > 0 && a[0] == b[0] {
        lemma_bytes_lt_asymmetric(a.drop_first(), b.drop_first());
    }
}

proof fn lemma_bytes_lt_transitive(a: Seq<u8>, b: Seq<u8>, c: Seq<u8>)
    requires
        bytes_lt(a, b),
        bytes_lt(b, c),
    ensures
        bytes_lt(a, c),
    decreases a.len(),
{
    if a.len() > 0 && b.len() > 0 && c.len() > 0 && a[0] == b[0] && b[0] == c[0] {
        lemma_bytes_lt_transitive(a.drop_first(), b.drop_first(), c.drop_first());
    }
}

proof fn lemma_listed_before_order(a: DirEntry, b: DirEntry, c: DirEntry)
    ensures
        !listed_before(a, a),
        listed_before(a, b) ==> !listed_before(b, a),
        listed_before(a, b) && listed_before(b, c) ==> listed_before(a, c),
{
    lemma_bytes_lt_irreflexive(name_key(a));
    lemma_bytes_lt_asymmetric(name_key(a), name_key(b));
    if listed_before(a, b) && listed_before(b, c) && a.is_dir == b.is_dir && b.is_dir == c.is_dir {
        lemma_bytes_lt_transitive(name_key(a), name_key(b), name_key(c));
    }
}

/// Inserting into a sorted listing keeps it sorted and adds exactly the one
/// entry.
proof fn lemma_insert_listed(s: Seq<DirEntry>, x: DirEntry)
    requires
        listing_sorted(s),
    ensures
        listing_sorted(insert_listed(s, x)),
        insert_listed(s, x).to_multiset() == s.to_multiset().insert(x),
        insert_listed(s, x).len() == s.len() + 1,
        forall|i: int|
            0 <= i < insert_listed(s, x).len() ==> #[trigger] insert_listed(s, x)[i] == x || s.contains(
                insert_listed(s, x)[i],
            ),
    decreases s.len(),
{
    broadcast use vstd::seq_lib::to_multiset_insert;

    let r = insert_listed(s, x);
    if s.len() == 0 {
        assert(r =~= s.insert(0, x));
    } else if listed_before(x, s[0]) {
        assert(r =~= s.insert(0, x));
        assert forall|i: int, j: int| 0 <= i < j < r.len() implies !listed_before(#[trigger] r[j], #[trigger] r[i]) by {
            if i == 0 {
                lemma_listed_before_order(x, s[0], s[j - 1]);
                lemma_listed_before_order(s[j - 1], x, s[0]);
                if j - 1 > 0 {
                    assert(!listed_before(s[j - 1], s[0]));
                }
            }
        }
        assert forall|i: int| 0 <= i < r.len() implies #[trigger] r[i] == x || s.contains(r[i]) by {
            if i > 0 {
                assert(r[i] == s[i - 1]);
            }
        }
    } else {
        let t = s.drop_first();
        assert(listing_sorted(t)) by {
            assert forall|i: int, j: int| 0 <= i < j < t.len() implies !listed_before(#[trigger] t[j], #[trigger] t[i]) by {
                assert(t[j] == s[j + 1] && t[i] == s[i + 1]);
            }
        }
        lemma_insert_listed(t, x);
        let rt = insert_listed(t, x);
        assert(r =~= seq![s[0]] + rt);
        assert forall|i: int, j: int| 0 <= i < j < r.len() implies !listed_before(#[trigger] r[j], #[trigger] r[i]) by {
            if i == 0 {
                assert(r[j] == rt[j - 1]);
                if rt[j - 1] == x {
                } else {
                    assert(t.contains(rt[j - 1]));
                    let k = choose|k: int| 0 <= k < t.len() && t[k] == rt[j - 1];
                    assert(s[k + 1] == rt[j - 1]);
                }
            } else {
                assert(r[i] == rt[i - 1] && r[j] == rt[j - 1]);
            }
        }
        assert forall|i: int| 0 <= i < r.len() implies #[trigger] r[i] == x || s.contains(r[i]) by {
            if i == 0 {
                assert(s[0] == r[0]);
            } else {
                assert(r[i] == rt[i - 1]);
                if rt[i - 1] != x {
                    assert(t.contains(rt[i - 1]));
                    let k = choose|k: int| 0 <= k < t.len() && t[k] == rt[i - 1];
                    assert(s[k + 1] == rt[i - 1]);
                }
            }
        }
        assert(s =~= seq![s[0]] + t);
        vstd::seq_lib::lemma_multiset_commutative(seq![s[0]], t);
        vstd::seq_lib::lemma_multiset_commutative(seq![s[0]], rt);
        assert(r.to_multiset() =~= s.to_multiset().insert(x)) by {
            broadcast use vstd::multiset::group_multiset_axioms;

            vstd::seq_lib::lemma_seq_union_to_multiset_commutative(seq![s[0]], rt);
            vstd::seq_lib::lemma_seq_union_to_multiset_commutative(seq![s[0]], t);
        }
    }
}


/// The stable sort yields a sorted listing with exactly the given entries.
pub proof fn lemma_sorted_listing(s: Seq<DirEntry>)
    ensures
        listing_sorted(sorted_listing(s)),
        sorted_listing(s).to_multiset() == s.to_multiset(),
        sorted_listing(s).len() == s.len(),
    decreases s.len(),
{
    broadcast use vstd::seq_lib::to_multiset_build;

    if s.len() > 0 {
        lemma_sorted_listing(s.drop_last());
        lemma_insert_listed(sorted_listing(s.drop_last()), s.last());
        assert(s.drop_last().push(s.last()) =~= s);
    }
}

proof fn lemma_insert_at(s: Seq<DirEntry>, x: DirEntry, k: int)
    requires
        0 <= k <= s.len(),
        forall|i: int| 0 <= i < k ==> !listed_before(x, #[trigger] s[i]),
        k < s.len() ==> listed_before(x, s[k]),
    ensures
        insert_listed(s, x) == s.insert(k, x),
    decreases s.len(),
{
    if s.len() == 0 {
        assert(s.insert(k, x) =~= seq![x]);
    } else if k == 0 {
        assert(s.insert(0, x) =~= seq![x] + s);
    } else {
        let t = s.drop_first();
        assert forall|i: int| 0 <= i < k - 1 implies !listed_before(x, #[trigger] t[i]) by {
            assert(t[i] == s[i + 1]);
        }
        assert(!listed_before(x, s[0]));
        lemma_insert_at(t, x, k - 1);
        assert(s.insert(k, x) =~= seq![s[0]] + t.insert(k - 1, x));
    }
}

fn bytes_before(a: &[u8], b: &[u8]) -> (r: bool)
    ensures
        r == bytes_lt(a@, b@),
{
    let mut i: usize = 0;
    assert(a@.skip(0) =~= a@);
    assert(b@.skip(0) =~= b@);
    while i < a.len() && i < b.len() && a[i] == b[i]
        invariant
            0 <= i <= a.len(),
            i <= b.len(),
            bytes_lt(a@, b@) == bytes_lt(a@.skip(i as int), b@.skip(i as int)),
        decreases a.len() - i,
    {
        assert(a@.skip(i as int).drop_first() =~= a@.skip(i as int + 1));
        assert(b@.skip(i as int).drop_first() =~= b@.skip(i as int + 1));
        i = i + 1;
    }
    if i == b.len() {
        false
    } else if i == a.len() {
        true
    } else {
        a[i] < b[i]
    }
}

/// Whether `a` is listed strictly before `b`.
pub fn entry_before(a: &DirEntry, b: &DirEntry) -> (r: bool)
    ensures
        r == listed_before(*a, *b),
{
    if a.is_dir != b.is_dir {
        a.is_dir
    } else {
        bytes_before(a.name.as_str().as_bytes(), b.name.as_str().as_bytes())
    }
}

/// Orders a directory listing: directories first, then by name (byte
/// order); entries that compare equal keep their relative order.
pub fn sort_entries(entries: Vec<DirEntry>) -> (r: Vec<DirEntry>)
    ensures
        r@ == sorted_listing(entries@),
        listing_sorted(r@),
        r@.to_multiset() == entries@.to_multiset(),
{
    let ghost orig = entries@;
    let mut rest = entries;
    let mut out: Vec<DirEntry> = Vec::new();
    assert(orig.skip(0) =~= orig);
    let mut n: usize = 0;
    let total = rest.len();
    while rest.len() > 0
        invariant
            n + rest.len() == total,
            total == orig.len(),
            rest@ == orig.skip(n as int),
            out@ == sorted_listing(orig.take(n as int)),
        decreases rest.len(),
    {
        let x = rest.remove(0);
        proof {
            lemma_sorted_listing(orig.take(n as int));
        }
        let mut k: usize = 0;
        while k < out.len() && !entry_before(&x, &out[k])
            invariant
                0 <= k <= out.len(),
                forall|i: int| 0 <= i < k ==> !listed_before(x, #[trigger] out@[i]),
            decreases out.len() - k,
        {
            k = k + 1;
        }
        proof {
            lemma_insert_at(out@, x, k as int);
            assert(orig.take(n as int + 1).drop_last() =~= orig.take(n as int));
            assert(orig.take(n as int + 1).last() == x);
        }
        out.insert(k, x);
        n = n + 1;
        assert(rest@ =~= orig.skip(n as int));
    }
    assert(orig.take(n as int) =~= orig);
    proof {
        lemma_sorted_listing(orig);
    }
    out
}


/// What the autosave worker sees when it waits for the next project state.
pub enum SaveEvent<T> {
    /// A new project state arrived.
    Received(T),
    /// The wait ended with nothing new: the project has been quiet.
    Timeout,
    /// Every sender is gone.
    Disconnected,
}

/// What the autosave worker does next.
pub enum SaveAction<T> {
    /// Keep waiting.
    Wait,
    /// Write this project state to disk, then keep waiting.
    Write(T),
    /// End the worker.
    Stop,
}

/// The debouncing autosave: a project state is written once the project has
/// been quiet for one wait, and only the latest of a burst is written.
pub struct AutoSaver<T> {
    /// The latest state received and not yet written.
    pub pending: Option<T>,
}

/// One step of the autosave: the next pending state and the action.
pub open spec fn save_step<T>(pending: Option<T>, event: SaveEvent<T>) -> (Option<T>, SaveAction<T>) {
    match event {
        SaveEvent::Received(state) => (Some(state), SaveAction::Wait),
        SaveEvent::Timeout => match pending {
            Some(state) => (None, SaveAction::Write(state)),
            None => (None, SaveAction::Wait),
        },
        SaveEvent::Disconnected => (pending, SaveAction::Stop),
    }
}

impl<T> AutoSaver<T> {
    /// A worker with nothing pending.
    pub fn new() -> (r: Self)
        ensures
            r.pending is None,
    {
        AutoSaver { pending: None }
    }

    /// Takes one event and says what to do.
    pub fn step(&mut self, event: SaveEvent<T>) -> (action: SaveAction<T>)
        ensures
            (final(self).pending, action) == save_step(old(self).pending, event),
    {
        match event {
            SaveEvent::Received(state) => {
                self.pending = Some(state);
                SaveAction::Wait
            },
            SaveEvent::Timeout => match self.pending.take() {
                Some(state) => SaveAction::Write(state),
                None => SaveAction::Wait,
            },
            SaveEvent::Disconnected => SaveAction::Stop,
        }
    }
}



/// The pending state and the actions after the worker takes `events` in
/// order, starting with `pending`.
pub open spec fn save_run<T>(pending: Option<T>, events: Seq<SaveEvent<T>>) -> (Option<T>, Seq<SaveAction<T>>)
    decreases events.len(),
{
    if events.len() == 0 {
        (pending, Seq::empty())
    } else {
        let (p, acts) = save_run(pending, events.drop_last());
        let (p2, a) = save_step(p, events.last());
        (p2, acts.push(a))
    }
}

/// Each state of a burst arriving in turn.
pub open spec fn arrivals<T>(states: Seq<T>) -> Seq<SaveEvent<T>> {
    Seq::new(states.len(), |i: int| SaveEvent::Received(states[i]))
}

/// `k` quiet waits in a row.
pub open spec fn quiet<T>(k: nat) -> Seq<SaveEvent<T>> {
    Seq::new(k, |i: int| SaveEvent::<T>::Timeout)
}

/// `k` actions that only wait.
pub open spec fn waits<T>(k: nat) -> Seq<SaveAction<T>> {
    Seq::new(k, |i: int| SaveAction::<T>::Wait)
}

proof fn lemma_burst_pending<T>(pending: Option<T>, states: Seq<T>)
    requires
        states.len() > 0,
    ensures
        save_run(pending, arrivals(states)) == (Some(states.last()), waits::<T>(states.len())),
    decreases states.len(),
{
    let evs = arrivals(states);
    assert(evs.drop_last() =~= arrivals(states.drop_last()));
    assert(evs.last() == SaveEvent::Received(states.last()));
    if states.len() > 1 {
        lemma_burst_pending(pending, states.drop_last());
        assert(states.drop_last().last() == states[states.len() - 2]);
    } else {
        assert(evs.drop_last() =~= Seq::<SaveEvent<T>>::empty());
        assert(save_run(pending, evs.drop_last()) == (pending, Seq::<SaveAction<T>>::empty()));
        assert(waits::<T>(0) =~= Seq::<SaveAction<T>>::empty());
    }
    assert(waits::<T>((states.len() - 1) as nat).push(SaveAction::Wait) =~= waits::<T>(states.len()));
}

proof fn lemma_quiet_run<T>(pending: Option<T>, states: Seq<T>, k: nat)
    requires
        states.len() > 0,
        k > 0,
    ensures
        save_run(pending, arrivals(states) + quiet::<T>(k)) == (
            None::<T>,
            waits::<T>(states.len()).push(SaveAction::Write(states.last())) + waits::<T>((k - 1) as nat),
        ),
    decreases k,
{
    let evs = arrivals(states) + quiet::<T>(k);
    if k == 1 {
        assert(evs.drop_last() =~= arrivals(states));
        lemma_burst_pending(pending, states);
        assert(waits::<T>(states.len()).push(SaveAction::Write(states.last())) + waits::<T>(0)
            =~= waits::<T>(states.len()).push(SaveAction::Write(states.last())));
    } else {
        assert(evs.drop_last() =~= arrivals(states) + quiet::<T>((k - 1) as nat));
        lemma_quiet_run(pending, states, (k - 1) as nat);
        assert(evs.last() == SaveEvent::<T>::Timeout);
        assert((waits::<T>(states.len()).push(SaveAction::Write(states.last())) + waits::<T>(
            (k - 2) as nat,
        )).push(SaveAction::Wait) =~= waits::<T>(states.len()).push(SaveAction::Write(states.last()))
            + waits::<T>((k - 1) as nat));
    }
}

/// Whatever was pending, a burst of states of any length followed by any
/// number of quiet waits makes the worker wait through the burst, write the
/// burst's last state exactly once at the first quiet wait (never an
/// earlier state of the burst), and then only wait, with nothing pending.
pub proof fn lemma_autosave_writes_latest_of_burst<T>(pending: Option<T>, states: Seq<T>, k: nat)
    requires
        states.len() > 0,
        k > 0,
    ensures
        save_run(pending, arrivals(states) + quiet::<T>(k)).0 is None,
        save_run(pending, arrivals(states) + quiet::<T>(k)).1 == waits::<T>(states.len()).push(
            SaveAction::Write(states.last()),
        ) + waits::<T>((k - 1) as nat),
{
    lemma_quiet_run(pending, states, k);
}

} // verus!
