use vstd::prelude::*;

use crate::flags::FlagMap;
use crate::settings::{flag_set, Settings};

verus! {

/// What `load` gives for `k` on a ledger whose view is `m`.
pub open spec fn loaded(m: Map<Seq<char>, bool>, k: Seq<char>) -> Option<bool> {
    if m.contains_key(k) {
        Some(m[k])
    } else {
        None
    }
}

/// The keys of a sequence of strings, as character sequences.
pub open spec fn key_views(s: Seq<String>) -> Seq<Seq<char>> {
    s.map_values(|x: String| x@)
}

/// Dispatch of the candidate events `cands`, in order, against the ledger
/// `fired` and the enabled flags `enabled`: an event fires when it is enabled
/// and not yet fired, and is then recorded as fired. Gives the ledger after
/// and the events fired, in order.
pub open spec fn dispatch_spec(
    fired: Map<Seq<char>, bool>,
    enabled: Map<Seq<char>, bool>,
    cands: Seq<Seq<char>>,
) -> (Map<Seq<char>, bool>, Seq<Seq<char>>)
    decreases cands.len(),
{
    if cands.len() == 0 {
        (fired, Seq::empty())
    } else {
        let (f, out) = dispatch_spec(fired, enabled, cands.drop_last());
        let k = cands.last();
        if flag_set(enabled, k) && !flag_set(f, k) {
            (f.insert(k, true), out.push(k))
        } else {
            (f, out)
        }
    }
}

/// Dispatch over several ticks with no epoch reset between them: each round
/// holds the enabled flags of its tick and its candidate events. Gives the
/// ledger after and all events fired, in order.
pub open spec fn dispatch_rounds(
    fired: Map<Seq<char>, bool>,
    rounds: Seq<(Map<Seq<char>, bool>, Seq<Seq<char>>)>,
) -> (Map<Seq<char>, bool>, Seq<Seq<char>>)
    decreases rounds.len(),
{
    if rounds.len() == 0 {
        (fired, Seq::empty())
    } else {
        let (f, out) = dispatch_rounds(fired, rounds.drop_last());
        let (f2, out2) = dispatch_spec(f, rounds.last().0, rounds.last().1);
        (f2, out + out2)
    }
}

/// Dispatch fires only events that were not fired before, each at most once,
/// and records every one of them; a fired flag is never cleared by dispatch.
pub proof fn lemma_dispatch_fires_once(
    fired: Map<Seq<char>, bool>,
    enabled: Map<Seq<char>, bool>,
    cands: Seq<Seq<char>>,
)
    ensures
        ({
            let (f, out) = dispatch_spec(fired, enabled, cands);
            &&& out.no_duplicates()
            &&& forall|i: int| 0 <= i < out.len() ==> !flag_set(fired, #[trigger] out[i]) && flag_set(f, out[i])
            &&& forall|k: Seq<char>| flag_set(fired, k) ==> #[trigger] flag_set(f, k)
        }),
    decreases cands.len(),
{
    if cands.len() > 0 {
        lemma_dispatch_fires_once(fired, enabled, cands.drop_last());
        let (f, out) = dispatch_spec(fired, enabled, cands.drop_last());
        let k = cands.last();
        if flag_set(enabled, k) && !flag_set(f, k) {
            let out2 = out.push(k);
            assert forall|i: int, j: int| 0 <= i < out2.len() && 0 <= j < out2.len() && i != j implies out2[i] != out2[j] by {
                if i == out.len() as int && j < out.len() {
                    assert(flag_set(f, out[j]));
                } else if j == out.len() as int && i < out.len() {
                    assert(flag_set(f, out[i]));
                } else {
                    assert(out2[i] == out[i] && out2[j] == out[j]);
                }
            }
            assert forall|i: int| 0 <= i < out2.len() implies !flag_set(fired, #[trigger] out2[i]) && flag_set(f.insert(k, true), out2[i]) by {
                if i < out.len() {
                    assert(out2[i] == out[i]);
                }
            }
            assert forall|q: Seq<char>| flag_set(fired, q) implies #[trigger] flag_set(f.insert(k, true), q) by {
                assert(flag_set(f, q));
            }
        }
    }
}

/// Between two epoch resets, an event fires at most once, however many ticks
/// dispatch it and whatever its flag does between them: over any run of
/// dispatch rounds, the events fired are all distinct and none of them had
/// fired when the run began.
pub proof fn lemma_at_most_once_per_epoch(
    fired: Map<Seq<char>, bool>,
    rounds: Seq<(Map<Seq<char>, bool>, Seq<Seq<char>>)>,
)
    ensures
        ({
            let (f, out) = dispatch_rounds(fired, rounds);
            &&& out.no_duplicates()
            &&& forall|i: int| 0 <= i < out.len() ==> !flag_set(fired, #[trigger] out[i]) && flag_set(f, out[i])
            &&& forall|k: Seq<char>| flag_set(fired, k) ==> #[trigger] flag_set(f, k)
        }),
    decreases rounds.len(),
{
    if rounds.len() > 0 {
        lemma_at_most_once_per_epoch(fired, rounds.drop_last());
        let (f, out) = dispatch_rounds(fired, rounds.drop_last());
        lemma_dispatch_fires_once(f, rounds.last().0, rounds.last().1);
        let (f2, out2) = dispatch_spec(f, rounds.last().0, rounds.last().1);
        let all = out + out2;
        assert forall|i: int| 0 <= i < all.len() implies !flag_set(fired, #[trigger] all[i]) && flag_set(f2, all[i]) by {
            if i < out.len() {
                assert(all[i] == out[i]);
            } else {
                assert(all[i] == out2[i - out.len()]);
            }
        }
        assert forall|i: int, j: int| 0 <= i < all.len() && 0 <= j < all.len() && i != j implies all[i] != all[j] by {
            if i < out.len() && j < out.len() {
                assert(all[i] == out[i] && all[j] == out[j]);
            } else if i >= out.len() && j >= out.len() {
                assert(all[i] == out2[i - out.len()] && all[j] == out2[j - out.len()]);
            } else if i < out.len() {
                assert(all[i] == out[i]);
                assert(all[j] == out2[j - out.len()]);
                assert(flag_set(f, out[i]));
            } else {
                assert(all[j] == out[j]);
                assert(all[i] == out2[i - out.len()]);
                assert(flag_set(f, out[j]));
            }
        }
    }
}

/// After an epoch reset, an event that was recorded as fired fires again the
/// next time it is dispatched while enabled.
pub proof fn lemma_reset_rearms(fired: Map<Seq<char>, bool>, enabled: Map<Seq<char>, bool>, k: Seq<char>)
    requires
        flag_set(enabled, k),
    ensures
        ({
            let reset = Map::new(|q: Seq<char>| fired.contains_key(q), |q: Seq<char>| false);
            let (f, out) = dispatch_spec(reset, enabled, seq![k]);
            out == seq![k] && flag_set(f, k)
        }),
{
    let reset = Map::new(|q: Seq<char>| fired.contains_key(q), |q: Seq<char>| false);
    let one = seq![k];
    assert(one.drop_last() =~= Seq::<Seq<char>>::empty());
    assert(one.last() == k);
    assert(dispatch_spec(reset, enabled, one.drop_last()) == (reset, Seq::<Seq<char>>::empty()));
    assert(!flag_set(reset, k));
    assert(Seq::<Seq<char>>::empty().push(k) =~= one);
}

/// Loading an entry right after inserting it gives back the inserted flag.
pub proof fn lemma_insert_then_load(m: Map<Seq<char>, bool>, k: Seq<char>, v: bool)
    ensures
        loaded(m.insert(k, v), k) == Some(v),
{
}

/// The persisted record of which split events have fired in the current
/// epoch. An event fires at most once per epoch.
#[derive(Debug)]
pub struct CompletionLedger {
    fired: FlagMap,
}

impl CompletionLedger {
    /// The fired flags, by event key.
    pub closed spec fn view(&self) -> Map<Seq<char>, bool> {
        self.fired.view()
    }

    pub closed spec fn wf(&self) -> bool {
        self.fired.wf()
    }

    /// An empty ledger: nothing has fired.
    pub fn new() -> (r: Self)
        ensures
            r.wf(),
            r.view() == Map::<Seq<char>, bool>::empty(),
    {
        CompletionLedger { fired: FlagMap::new() }
    }

    /// True iff the entry for `key` is absent or false.
    pub fn should_fire(&self, key: &String) -> (r: bool)
        requires
            self.wf(),
        ensures
            r == !flag_set(self.view(), key@),
    {
        match self.fired.get(key) {
            Some(v) => !v,
            None => true,
        }
    }

    /// Records that `key` has fired.
    pub fn record_fired(&mut self, key: String)
        requires
            old(self).wf(),
        ensures
            final(self).wf(),
            final(self).view() == old(self).view().insert(key@, true),
    {
        self.fired.insert(key, true);
    }

    /// Starts a new epoch: every entry returns to not fired.
    pub fn on_epoch_reset(&mut self)
        requires
            old(self).wf(),
        ensures
            final(self).wf(),
            final(self).view() == Map::new(|k: Seq<char>| old(self).view().contains_key(k), |k: Seq<char>| false),
    {
        self.fired.clear_flags();
    }

    /// Stores `value` under `key`, as a persisted entry is restored.
    pub fn insert(&mut self, key: String, value: bool)
        requires
            old(self).wf(),
        ensures
            final(self).wf(),
            final(self).view() == old(self).view().insert(key@, value),
    {
        self.fired.insert(key, value);
    }

    /// The entry stored under `key`, if any.
    pub fn load(&self, key: &String) -> (r: Option<bool>)
        requires
            self.wf(),
        ensures
            r == loaded(self.view(), key@),
    {
        self.fired.get(key)
    }

    /// The number of entries.
    pub fn len(&self) -> (r: usize)
        requires
            self.wf(),
        ensures
            r == self.view().dom().len(),
    {
        self.fired.len()
    }

    /// The keys of the entries, each once.
    pub fn keys(&self) -> (r: Vec<String>)
        requires
            self.wf(),
        ensures
            r@.len() == self.view().dom().len(),
            forall|i: int| 0 <= i < r@.len() ==> self.view().contains_key(#[trigger] r@[i]@),
            forall|k: Seq<char>| #[trigger] self.view().contains_key(k) ==> exists|i: int| 0 <= i < r@.len() && r@[i]@ == k,
    {
        self.fired.keys()
    }

    /// Brings the ledger in line with the configuration keys `keys` when the
    /// two disagree in count: every key that is missing is added as not fired;
    /// entries are never removed and fired flags never change.
    pub fn reconcile(&mut self, keys: &Vec<String>)
        requires
            old(self).wf(),
        ensures
            final(self).wf(),
            keys@.len() == old(self).view().dom().len() ==> final(self).view() == old(self).view(),
            keys@.len() != old(self).view().dom().len() ==> final(self).view() == Map::new(
                |k: Seq<char>| key_views(keys@).contains(k),
                |k: Seq<char>| false,
            ).union_prefer_right(old(self).view()),
    {
        if keys.len() == self.len() {
            return;
        }
        let ghost start = self.view();
        let mut i: usize = 0;
        while i < keys.len()
            invariant
                self.wf(),
                i <= keys@.len(),
                self.view() == Map::new(
                    |k: Seq<char>| key_views(keys@.subrange(0, i as int)).contains(k),
                    |k: Seq<char>| false,
                ).union_prefer_right(start),
            decreases keys@.len() - i,
        {
            let ghost before = self.view();
            if self.fired.get(&keys[i]).is_none() {
                self.fired.insert(keys[i].clone(), false);
            }
            proof {
                let prev = Map::new(|k: Seq<char>| key_views(keys@.subrange(0, i as int)).contains(k), |k: Seq<char>| false);
                let next = Map::new(|k: Seq<char>| key_views(keys@.subrange(0, i + 1)).contains(k), |k: Seq<char>| false);
                assert forall|k: Seq<char>| #[trigger] key_views(keys@.subrange(0, i + 1)).contains(k) == (key_views(keys@.subrange(0, i as int)).contains(k) || k == keys@[i as int]@) by {
                    if key_views(keys@.subrange(0, i + 1)).contains(k) {
                        let j = choose|j: int| 0 <= j < i + 1 && #[trigger] key_views(keys@.subrange(0, i + 1))[j] == k;
                        if j < i {
                            assert(key_views(keys@.subrange(0, i as int))[j] == k);
                        }
                    }
                    if key_views(keys@.subrange(0, i as int)).contains(k) {
                        let j = choose|j: int| 0 <= j < i && #[trigger] key_views(keys@.subrange(0, i as int))[j] == k;
                        assert(key_views(keys@.subrange(0, i + 1))[j] == k);
                    }
                    if k == keys@[i as int]@ {
                        assert(key_views(keys@.subrange(0, i + 1))[i as int] == k);
                    }
                }
                assert(self.view() =~= next.union_prefer_right(start));
            }
            i = i + 1;
        }
        proof {
            assert(keys@.subrange(0, i as int) =~= keys@);
        }
    }

    /// Fires the candidate events `candidates`, in order: one fires when
    /// `settings` enables it and the ledger has not recorded it; it is then
    /// recorded before it is handed out. Returns the events fired, in order.
    pub fn dispatch(&mut self, settings: &Settings, candidates: &Vec<String>) -> (r: Vec<String>)
        requires
            old(self).wf(),
            settings.wf(),
        ensures
            final(self).wf(),
            (final(self).view(), key_views(r@)) == dispatch_spec(old(self).view(), settings.flags(), key_views(candidates@)),
    {
        let mut out: Vec<String> = Vec::new();
        let mut i: usize = 0;
        while i < candidates.len()
            invariant
                self.wf(),
                settings.wf(),
                i <= candidates@.len(),
                (self.view(), key_views(out@)) == dispatch_spec(
                    old(self).view(),
                    settings.flags(),
                    key_views(candidates@.subrange(0, i as int)),
                ),
            decreases candidates@.len() - i,
        {
            proof {
                assert(key_views(candidates@.subrange(0, i + 1)).drop_last() =~= key_views(candidates@.subrange(0, i as int)));
            }
            let key = &candidates[i];
            if settings.is_enabled(key) && self.should_fire(key) {
                self.record_fired(key.clone());
                out.push(key.clone());
                proof {
                    assert(key_views(out@) =~= key_views(out@.drop_last()).push(key@));
                }
            }
            i = i + 1;
        }
        proof {
            assert(candidates@.subrange(0, i as int) =~= candidates@);
        }
        out
    }
}

} // verus!
