use vstd::map::*;
use vstd::prelude::*;

verus! {

/// A store from string keys to booleans, keys unique, in insertion order.
/// Both the split configuration and the completion ledger are kept in one.
#[derive(Debug)]
pub struct FlagMap {
    entries: Vec<(String, bool)>,
}

impl FlagMap {
    /// The entries, keys as character sequences, in insertion order.
    pub closed spec fn entries(&self) -> Seq<(Seq<char>, bool)> {
        self.entries@.map_values(|e: (String, bool)| (e.0@, e.1))
    }

    /// No key stands twice.
    pub closed spec fn wf(&self) -> bool {
        forall|i: int, j: int|
            0 <= i < self.entries@.len() && 0 <= j < self.entries@.len() && #[trigger] self.entries@[i].0@
                == #[trigger] self.entries@[j].0@ ==> i == j
    }

    closed spec fn has_key(&self, k: Seq<char>) -> bool {
        exists|i: int| 0 <= i < self.entries@.len() && #[trigger] self.entries@[i].0@ == k
    }

    closed spec fn index_of(&self, k: Seq<char>) -> int {
        choose|i: int| 0 <= i < self.entries@.len() && #[trigger] self.entries@[i].0@ == k
    }

    /// What the store holds, as a map from keys to flags.
    pub closed spec fn view(&self) -> Map<Seq<char>, bool> {
        Map::new(|k: Seq<char>| self.has_key(k), |k: Seq<char>| self.entries@[self.index_of(k)].1)
    }

    proof fn lemma_lookup(&self, i: int)
        requires
            self.wf(),
            0 <= i < self.entries@.len(),
        ensures
            self.view().contains_key(self.entries@[i].0@),
            self.view()[self.entries@[i].0@] == self.entries@[i].1,
    {
        let k = self.entries@[i].0@;
        assert(self.has_key(k));
        let j = self.index_of(k);
        assert(self.entries@[j].0@ == k);
    }

    proof fn lemma_len(&self)
        requires
            self.wf(),
        ensures
            self.view().dom().len() == self.entries@.len(),
            self.view().dom().finite(),
    {
        let s = self.entries@;
        lemma_key_set_len(s);
        let d = Set::new(|k: Seq<char>| exists|i: int| 0 <= i < s.len() && #[trigger] s[i].0@ == k);
        assert(self.view().dom() =~= d);
    }
}

impl FlagMap {
    /// An empty store.
    pub fn new() -> (r: Self)
        ensures
            r.wf(),
            r.view() == Map::<Seq<char>, bool>::empty(),
    {
        let r = FlagMap { entries: Vec::new() };
        assert(r.view() =~= Map::<Seq<char>, bool>::empty());
        r
    }

    /// The position of `key` among the entries, if it is there.
    fn find(&self, key: &String) -> (r: Option<usize>)
        requires
            self.wf(),
        ensures
            match r {
                Some(i) => i < self.entries@.len() && self.entries@[i as int].0@ == key@,
                None => !self.view().contains_key(key@),
            },
    {
        let mut i: usize = 0;
        while i < self.entries.len()
            invariant
                i <= self.entries@.len(),
                forall|j: int| 0 <= j < i ==> #[trigger] self.entries@[j].0@ != key@,
            decreases self.entries@.len() - i,
        {
            if self.entries[i].0 == *key {
                return Some(i);
            }
            i = i + 1;
        }
        None
    }

    /// The flag stored under `key`, if any.
    pub fn get(&self, key: &String) -> (r: Option<bool>)
        requires
            self.wf(),
        ensures
            r == (if self.view().contains_key(key@) {
                Some(self.view()[key@])
            } else {
                None
            }),
    {
        match self.find(key) {
            Some(i) => {
                proof {
                    self.lemma_lookup(i as int);
                }
                Some(self.entries[i].1)
            },
            None => None,
        }
    }

    /// Stores `value` under `key`, in place of what was stored there.
    pub fn insert(&mut self, key: String, value: bool)
        requires
            old(self).wf(),
        ensures
            final(self).wf(),
            final(self).view() == old(self).view().insert(key@, value),
    {
        let ghost k = key@;
        match self.find(&key) {
            Some(i) => {
                proof {
                    old(self).lemma_lookup(i as int);
                }
                self.entries.set(i, (key, value));
                proof {
                    assert forall|a: int, b: int|
                        0 <= a < self.entries@.len() && 0 <= b < self.entries@.len() && #[trigger] self.entries@[a].0@
                            == #[trigger] self.entries@[b].0@ implies a == b by {
                        assert(old(self).entries@[a].0@ == self.entries@[a].0@);
                        assert(old(self).entries@[b].0@ == self.entries@[b].0@);
                    }
                    assert forall|q: Seq<char>| #[trigger] self.has_key(q) == old(self).has_key(q) by {
                        if self.has_key(q) {
                            let j = choose|j: int| 0 <= j < self.entries@.len() && #[trigger] self.entries@[j].0@ == q;
                            assert(old(self).entries@[j].0@ == q);
                        }
                        if old(self).has_key(q) {
                            let j = choose|j: int| 0 <= j < old(self).entries@.len() && #[trigger] old(self).entries@[j].0@ == q;
                            assert(self.entries@[j].0@ == q);
                        }
                    }
                    assert forall|q: Seq<char>| self.view().contains_key(q) implies self.view()[q] == old(self).view().insert(k, value)[q] by {
                        let j = choose|j: int| 0 <= j < self.entries@.len() && #[trigger] self.entries@[j].0@ == q;
                        self.lemma_lookup(j);
                        if j != i {
                            old(self).lemma_lookup(j);
                        }
                    }
                    assert(self.view() =~= old(self).view().insert(k, value));
                }
            },
            None => {
                self.entries.push((key, value));
                proof {
                    let n = old(self).entries@.len();
                    assert forall|a: int, b: int|
                        0 <= a < self.entries@.len() && 0 <= b < self.entries@.len() && #[trigger] self.entries@[a].0@
                            == #[trigger] self.entries@[b].0@ implies a == b by {
                        if a < n && b == n {
                            assert(old(self).has_key(k));
                        }
                        if b < n && a == n {
                            assert(old(self).has_key(k));
                        }
                    }
                    assert forall|q: Seq<char>| #[trigger] self.has_key(q) == (old(self).has_key(q) || q == k) by {
                        if self.has_key(q) {
                            let j = choose|j: int| 0 <= j < self.entries@.len() && #[trigger] self.entries@[j].0@ == q;
                            if j < n {
                                assert(old(self).entries@[j].0@ == q);
                            }
                        }
                        if old(self).has_key(q) {
                            let j = choose|j: int| 0 <= j < old(self).entries@.len() && #[trigger] old(self).entries@[j].0@ == q;
                            assert(self.entries@[j].0@ == q);
                        }
                        if q == k {
                            assert(self.entries@[n as int].0@ == q);
                        }
                    }
                    assert forall|q: Seq<char>| self.view().contains_key(q) implies self.view()[q] == old(self).view().insert(k, value)[q] by {
                        let j = choose|j: int| 0 <= j < self.entries@.len() && #[trigger] self.entries@[j].0@ == q;
                        self.lemma_lookup(j);
                        if j < n {
                            old(self).lemma_lookup(j);
                        }
                    }
                    assert(self.view() =~= old(self).view().insert(k, value));
                }
            },
        }
    }

    /// The number of keys stored.
    pub fn len(&self) -> (r: usize)
        requires
            self.wf(),
        ensures
            r == self.view().dom().len(),
            self.view().dom().finite(),
    {
        proof {
            self.lemma_len();
        }
        self.entries.len()
    }

    /// The keys stored, each once, in insertion order.
    pub fn keys(&self) -> (r: Vec<String>)
        requires
            self.wf(),
        ensures
            r@.len() == self.view().dom().len(),
            forall|i: int| 0 <= i < r@.len() ==> self.view().contains_key(#[trigger] r@[i]@),
            forall|k: Seq<char>| #[trigger] self.view().contains_key(k) ==> exists|i: int| 0 <= i < r@.len() && r@[i]@ == k,
            forall|i: int, j: int| 0 <= i < r@.len() && 0 <= j < r@.len() && #[trigger] r@[i]@ == #[trigger] r@[j]@ ==> i == j,
    {
        proof {
            self.lemma_len();
        }
        let mut out: Vec<String> = Vec::new();
        let mut i: usize = 0;
        while i < self.entries.len()
            invariant
                self.wf(),
                i <= self.entries@.len(),
                out@.len() == i,
                forall|j: int| 0 <= j < i ==> #[trigger] out@[j]@ == self.entries@[j].0@,
            decreases self.entries@.len() - i,
        {
            out.push(self.entries[i].0.clone());
            i = i + 1;
        }
        proof {
            assert forall|j: int| 0 <= j < out@.len() implies self.view().contains_key(#[trigger] out@[j]@) by {
                self.lemma_lookup(j);
            }
            assert forall|k: Seq<char>| #[trigger] self.view().contains_key(k) implies exists|j: int| 0 <= j < out@.len() && out@[j]@ == k by {
                let j = choose|j: int| 0 <= j < self.entries@.len() && #[trigger] self.entries@[j].0@ == k;
                assert(out@[j]@ == k);
            }
            assert forall|a: int, b: int| 0 <= a < out@.len() && 0 <= b < out@.len() && #[trigger] out@[a]@ == #[trigger] out@[b]@ implies a == b by {
                assert(self.entries@[a].0@ == self.entries@[b].0@);
            }
        }
        out
    }

    /// Sets every stored flag to `false`, keeping the keys.
    pub fn clear_flags(&mut self)
        requires
            old(self).wf(),
        ensures
            final(self).wf(),
            final(self).view() == Map::new(|k: Seq<char>| old(self).view().contains_key(k), |k: Seq<char>| false),
    {
        let mut i: usize = 0;
        while i < self.entries.len()
            invariant
                i <= self.entries@.len(),
                self.entries@.len() == old(self).entries@.len(),
                forall|j: int| 0 <= j < self.entries@.len() ==> #[trigger] self.entries@[j].0@ == old(self).entries@[j].0@,
                forall|j: int| 0 <= j < i ==> !(#[trigger] self.entries@[j]).1,
            decreases self.entries@.len() - i,
        {
            let key = self.entries[i].0.clone();
            self.entries.set(i, (key, false));
            i = i + 1;
        }
        proof {
            assert forall|a: int, b: int|
                0 <= a < self.entries@.len() && 0 <= b < self.entries@.len() && #[trigger] self.entries@[a].0@
                    == #[trigger] self.entries@[b].0@ implies a == b by {
                assert(old(self).entries@[a].0@ == old(self).entries@[b].0@);
            }
            assert forall|q: Seq<char>| #[trigger] self.has_key(q) == old(self).has_key(q) by {
                if self.has_key(q) {
                    let j = choose|j: int| 0 <= j < self.entries@.len() && #[trigger] self.entries@[j].0@ == q;
                    assert(old(self).entries@[j].0@ == q);
                }
                if old(self).has_key(q) {
                    let j = choose|j: int| 0 <= j < old(self).entries@.len() && #[trigger] old(self).entries@[j].0@ == q;
                    assert(self.entries@[j].0@ == q);
                }
            }
            let target = Map::new(|k: Seq<char>| old(self).view().contains_key(k), |k: Seq<char>| false);
            assert forall|q: Seq<char>| self.view().contains_key(q) implies self.view()[q] == target[q] by {
                let j = choose|j: int| 0 <= j < self.entries@.len() && #[trigger] self.entries@[j].0@ == q;
                self.lemma_lookup(j);
            }
            assert(self.view() =~= target);
        }
    }
}

/// The set of keys of `s` has as many members as `s` has entries when no key stands twice.
proof fn lemma_key_set_len(s: Seq<(String, bool)>)
    requires
        forall|i: int, j: int| 0 <= i < s.len() && 0 <= j < s.len() && #[trigger] s[i].0@ == #[trigger] s[j].0@ ==> i == j,
    ensures
        ({
            let d = Set::new(|k: Seq<char>| exists|i: int| 0 <= i < s.len() && #[trigger] s[i].0@ == k);
            d.finite() && d.len() == s.len()
        }),
    decreases s.len(),
{
    let d = Set::new(|k: Seq<char>| exists|i: int| 0 <= i < s.len() && #[trigger] s[i].0@ == k);
    if s.len() == 0 {
        assert(d =~= Set::empty());
    } else {
        let p = s.drop_last();
        let last = s.last().0@;
        lemma_key_set_len(p);
        let pd = Set::new(|k: Seq<char>| exists|i: int| 0 <= i < p.len() && #[trigger] p[i].0@ == k);
        assert(!pd.contains(last)) by {
            if pd.contains(last) {
                let i = choose|i: int| 0 <= i < p.len() && #[trigger] p[i].0@ == last;
                assert(s[i].0@ == s[s.len() - 1].0@);
            }
        }
        assert(d =~= pd.insert(last)) by {
            assert forall|k: Seq<char>| d.contains(k) implies pd.insert(last).contains(k) by {
                let i = choose|i: int| 0 <= i < s.len() && #[trigger] s[i].0@ == k;
                if i < p.len() {
                    assert(p[i].0@ == k);
                }
            }
            assert forall|k: Seq<char>| pd.insert(last).contains(k) implies d.contains(k) by {
                if k == last {
                    assert(s[s.len() - 1].0@ == k);
                } else {
                    let i = choose|i: int| 0 <= i < p.len() && #[trigger] p[i].0@ == k;
                    assert(s[i].0@ == k);
                }
            }
        }
    }
}

} // verus!
