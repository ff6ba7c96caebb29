use vstd::prelude::*;

use crate::array::ReadError;

verus! {

/// A fixed-layout record read from the monitored process: a plain value,
/// compared by structural equality.
pub trait Snapshot: Sized + Copy {
    /// Whether the two records hold the same field values.
    fn same_as(&self, other: &Self) -> (r: bool)
        ensures
            r == (*self == *other);
}

/// A record of a homogeneous collection, with a discriminant that orders the
/// collection independently of the order the monitored process keeps it in.
pub trait Ranked: Snapshot {
    /// The discriminant, as a number below `rank_count()`.
    spec fn rank_spec(&self) -> nat;

    /// The number of distinct discriminants.
    spec fn rank_count() -> nat;

    /// Every discriminant is below `rank_count()`.
    proof fn lemma_rank_bound(&self)
        ensures
            self.rank_spec() < Self::rank_count();

    fn rank(&self) -> (r: u32)
        ensures
            r as nat == self.rank_spec(),
            self.rank_spec() < Self::rank_count();

    fn rank_limit() -> (r: u32)
        ensures
            r as nat == Self::rank_count();
}

/// Where a tracked entity stands.
#[derive(Debug, Clone, Copy, PartialEq, Eq, Structural)]
pub enum EntityState {
    /// No address is known.
    Unbound,
    /// An address is known, and no read of it has succeeded yet.
    BoundNoSnapshot,
    /// An address is known, with the value last read from it.
    BoundSnapshotted,
}

/// What one observation of a tracked entity found.
#[derive(Debug, PartialEq, Eq)]
pub enum Observation<T> {
    /// The entity has no address, so nothing was read.
    Unbound,
    /// The read failed; the entity is as it was.
    Failed(ReadError),
    /// The first value read since the entity was bound: a baseline, no transition.
    Baseline,
    /// The value read equals the stored one.
    Unchanged,
    /// The value read differs from the stored one, which it replaces.
    Changed { previous: T, current: T },
}

/// The state of an entity as its address and its stored snapshot.
pub open spec fn state_of<T>(e: (Option<u64>, Option<T>)) -> EntityState {
    match e.0 {
        None => EntityState::Unbound,
        Some(_) => if e.1.is_some() {
            EntityState::BoundSnapshotted
        } else {
            EntityState::BoundNoSnapshot
        },
    }
}

/// A snapshot is only ever held together with the address it was read from.
pub open spec fn entity_wf<T>(e: (Option<u64>, Option<T>)) -> bool {
    e.1.is_some() ==> e.0.is_some()
}

/// The entity after its owner reports `ptr` as the entity's address. The same
/// address keeps everything; another one drops the snapshot, so that the next
/// read is a baseline; a null one leaves the entity unbound.
pub open spec fn bind_spec<T>(e: (Option<u64>, Option<T>), ptr: u64) -> (Option<u64>, Option<T>) {
    if e.0 == Some(ptr) {
        e
    } else if ptr == 0 {
        (None, None)
    } else {
        (Some(ptr), None)
    }
}

/// The entity after it takes in `read`, the result of reading its address,
/// and what that observation found.
pub open spec fn observe_spec<T>(e: (Option<u64>, Option<T>), read: Result<T, ReadError>) -> ((Option<u64>, Option<T>), Observation<T>) {
    match e.0 {
        None => (e, Observation::Unbound),
        Some(_) => match read {
            Err(err) => (e, Observation::Failed(err)),
            Ok(v) => match e.1 {
                None => ((e.0, Some(v)), Observation::Baseline),
                Some(s) => if s == v {
                    (e, Observation::Unchanged)
                } else {
                    ((e.0, Some(v)), Observation::Changed { previous: s, current: v })
                },
            },
        },
    }
}

/// A record of the monitored process that is watched across ticks: the last
/// known address and the snapshot last read from it.
#[derive(Debug)]
pub struct TrackedEntity<T> {
    address: Option<u64>,
    snapshot: Option<T>,
}

impl<T: Snapshot> TrackedEntity<T> {
    /// The address and the snapshot.
    pub closed spec fn view(&self) -> (Option<u64>, Option<T>) {
        (self.address, self.snapshot)
    }

    /// A new entity: unbound.
    pub fn new() -> (r: Self)
        ensures
            r.view() == (None::<u64>, None::<T>),
            state_of(r.view()) == EntityState::Unbound,
    {
        TrackedEntity { address: None, snapshot: None }
    }

    /// The address to read the entity from, if it is bound.
    pub fn address(&self) -> (r: Option<u64>)
        ensures
            r == self.view().0,
    {
        self.address
    }

    /// The snapshot last accepted, if any.
    pub fn snapshot(&self) -> (r: Option<T>)
        ensures
            r == self.view().1,
    {
        self.snapshot
    }

    pub fn state(&self) -> (r: EntityState)
        ensures
            r == state_of(self.view()),
    {
        match self.address {
            None => EntityState::Unbound,
            Some(_) => if self.snapshot.is_some() {
                EntityState::BoundSnapshotted
            } else {
                EntityState::BoundNoSnapshot
            },
        }
    }

    /// Takes in the owner's pointer to this entity. Returns whether the
    /// address changed, in which case the snapshot was dropped.
    pub fn bind(&mut self, ptr: u64) -> (r: bool)
        ensures
            final(self).view() == bind_spec(old(self).view(), ptr),
            r == (old(self).view().0 != Some(ptr)),
            entity_wf(final(self).view()),
    {
        match self.address {
            Some(a) if a == ptr => false,
            _ => {
                self.address = if ptr == 0 {
                    None
                } else {
                    Some(ptr)
                };
                self.snapshot = None;
                true
            },
        }
    }

    /// Takes in `read`, the result of reading the entity's address this tick.
    /// A failed read changes nothing; the first successful read after binding
    /// is a baseline; a later one that differs is a change.
    pub fn observe(&mut self, read: Result<T, ReadError>) -> (r: Observation<T>)
        ensures
            (final(self).view(), r) == observe_spec(old(self).view(), read),
            entity_wf(old(self).view()) ==> entity_wf(final(self).view()),
    {
        if self.address.is_none() {
            return Observation::Unbound;
        }
        match read {
            Err(err) => Observation::Failed(err),
            Ok(v) => match self.snapshot {
                None => {
                    self.snapshot = Some(v);
                    Observation::Baseline
                },
                Some(s) => if s.same_as(&v) {
                    Observation::Unchanged
                } else {
                    self.snapshot = Some(v);
                    Observation::Changed { previous: s, current: v }
                },
            },
        }
    }
}

/// With its owner's pointer unchanged, an entity whose re-read value equals
/// its snapshot keeps that snapshot and reports no transition.
pub proof fn lemma_unchanged_pointer_keeps_snapshot<T>(e: (Option<u64>, Option<T>), ptr: u64, v: T)
    requires
        e.0 == Some(ptr),
        e.1 == Some(v),
    ensures
        observe_spec(bind_spec(e, ptr), Ok(v)) == (e, Observation::<T>::Unchanged),
{
}

/// When its owner's pointer changes to another non-null address, an entity's
/// next successful read is a baseline, whatever value it reads and whatever
/// snapshot it held.
pub proof fn lemma_moved_pointer_rebaselines<T>(e: (Option<u64>, Option<T>), ptr: u64, v: T)
    requires
        e.0 != Some(ptr),
        ptr != 0,
    ensures
        observe_spec(bind_spec(e, ptr), Ok(v)) == ((Some(ptr), Some(v)), Observation::<T>::Baseline),
        state_of(bind_spec(e, ptr)) == EntityState::BoundNoSnapshot,
{
}

/// The records of `s` whose discriminant is `k`, in their order in `s`.
pub open spec fn of_rank<T: Ranked>(s: Seq<T>, k: nat) -> Seq<T>
    decreases s.len(),
{
    if s.len() == 0 {
        Seq::empty()
    } else {
        let prefix = of_rank(s.drop_last(), k);
        if s.last().rank_spec() == k {
            prefix.push(s.last())
        } else {
            prefix
        }
    }
}

/// The records of `s` with a discriminant below `k`, ordered by discriminant;
/// records with equal discriminants keep their order in `s`.
pub open spec fn sorted_by_rank<T: Ranked>(s: Seq<T>, k: nat) -> Seq<T>
    decreases k,
{
    if k == 0 {
        Seq::empty()
    } else {
        sorted_by_rank(s, (k - 1) as nat) + of_rank(s, (k - 1) as nat)
    }
}

/// The pairs (previous, current) at the first `n` common positions of two
/// sorted collections where the records differ but share a discriminant.
pub open spec fn changed_pairs<T: Ranked>(old: Seq<T>, new: Seq<T>, n: nat) -> Seq<(T, T)>
    decreases n,
{
    if n == 0 {
        Seq::empty()
    } else {
        let prefix = changed_pairs(old, new, (n - 1) as nat);
        let a = old[n - 1];
        let b = new[n - 1];
        if a != b && a.rank_spec() == b.rank_spec() {
            prefix.push((a, b))
        } else {
            prefix
        }
    }
}

/// The number of common positions of two collections.
pub open spec fn common_len(a: nat, b: nat) -> nat {
    if a < b {
        a
    } else {
        b
    }
}

proof fn lemma_of_rank_members<T: Ranked>(s: Seq<T>, k: nat)
    ensures
        forall|i: int| 0 <= i < of_rank(s, k).len() ==> (#[trigger] of_rank(s, k)[i]).rank_spec() == k,
        forall|x: T| #[trigger] of_rank(s, k).contains(x) <==> (s.contains(x) && x.rank_spec() == k),
    decreases s.len(),
{
    if s.len() > 0 {
        let p = s.drop_last();
        lemma_of_rank_members(p, k);
        let o = of_rank(s, k);
        let po = of_rank(p, k);
        assert forall|x: T| #[trigger] o.contains(x) <==> (s.contains(x) && x.rank_spec() == k) by {
            if o.contains(x) {
                let i = choose|i: int| 0 <= i < o.len() && o[i] == x;
                if i < po.len() {
                    assert(po[i] == x);
                    assert(po.contains(x));
                    assert(p.contains(x));
                    let j = choose|j: int| 0 <= j < p.len() && p[j] == x;
                    assert(s[j] == x);
                } else {
                    assert(x == s.last());
                    assert(s[s.len() - 1] == x);
                }
            }
            if s.contains(x) && x.rank_spec() == k {
                let j = choose|j: int| 0 <= j < s.len() && s[j] == x;
                if j < p.len() {
                    assert(p[j] == x);
                    assert(po.contains(x));
                    let i = choose|i: int| 0 <= i < po.len() && po[i] == x;
                    assert(o[i] == x);
                } else {
                    assert(o[o.len() - 1] == x);
                }
            }
        }
    }
}

/// A collection sorted by discriminant is ordered by discriminant, and holds
/// exactly the records of the collection it came from, as long as every
/// discriminant is below `k`.
pub proof fn lemma_sorted_by_rank<T: Ranked>(s: Seq<T>, k: nat)
    ensures
        forall|i: int, j: int|
            0 <= i < j < sorted_by_rank(s, k).len() ==> (#[trigger] sorted_by_rank(s, k)[i]).rank_spec()
                <= (#[trigger] sorted_by_rank(s, k)[j]).rank_spec(),
        forall|i: int| 0 <= i < sorted_by_rank(s, k).len() ==> (#[trigger] sorted_by_rank(s, k)[i]).rank_spec() < k,
        forall|x: T| #[trigger] sorted_by_rank(s, k).contains(x) <==> (s.contains(x) && x.rank_spec() < k),
    decreases k,
{
    if k > 0 {
        let k1 = (k - 1) as nat;
        lemma_sorted_by_rank(s, k1);
        lemma_of_rank_members(s, k1);
        let a = sorted_by_rank(s, k1);
        let b = of_rank(s, k1);
        let r = a + b;
        assert(r == sorted_by_rank(s, k));
        assert forall|i: int| 0 <= i < r.len() implies (#[trigger] r[i]).rank_spec() < k by {
            if i < a.len() {
                assert(r[i] == a[i]);
            } else {
                assert(r[i] == b[i - a.len()]);
            }
        }
        assert forall|i: int, j: int| 0 <= i < j < r.len() implies (#[trigger] r[i]).rank_spec() <= (#[trigger] r[j]).rank_spec() by {
            if j < a.len() {
                assert(r[i] == a[i] && r[j] == a[j]);
            } else if i >= a.len() {
                assert(r[i] == b[i - a.len()] && r[j] == b[j - a.len()]);
            } else {
                assert(r[i] == a[i] && r[j] == b[j - a.len()]);
            }
        }
        assert forall|x: T| #[trigger] r.contains(x) <==> (s.contains(x) && x.rank_spec() < k) by {
            if r.contains(x) {
                let i = choose|i: int| 0 <= i < r.len() && r[i] == x;
                if i < a.len() {
                    assert(a[i] == x);
                    assert(a.contains(x));
                } else {
                    assert(b[i - a.len()] == x);
                    assert(b.contains(x));
                }
            }
            if s.contains(x) && x.rank_spec() < k {
                if x.rank_spec() < k1 {
                    assert(a.contains(x));
                    let i = choose|i: int| 0 <= i < a.len() && a[i] == x;
                    assert(r[i] == x);
                } else {
                    assert(b.contains(x));
                    let i = choose|i: int| 0 <= i < b.len() && b[i] == x;
                    assert(r[i + a.len()] == x);
                }
            }
        }
    }
}

/// Sorts `v` by discriminant, stably.
pub fn sort_by_rank<T: Ranked>(v: &Vec<T>) -> (r: Vec<T>)
    ensures
        r@ == sorted_by_rank(v@, T::rank_count()),
        forall|i: int, j: int| 0 <= i < j < r@.len() ==> (#[trigger] r@[i]).rank_spec() <= (#[trigger] r@[j]).rank_spec(),
        forall|x: T| #[trigger] r@.contains(x) <==> v@.contains(x),
{
    proof {
        lemma_sorted_by_rank(v@, T::rank_count());
        assert forall|x: T| v@.contains(x) implies x.rank_spec() < T::rank_count() by {
            x.lemma_rank_bound();
        }
    }
    let limit = T::rank_limit();
    let mut out: Vec<T> = Vec::new();
    let mut k: u32 = 0;
    while k < limit
        invariant
            limit as nat == T::rank_count(),
            k <= limit,
            out@ == sorted_by_rank(v@, k as nat),
        decreases limit - k,
    {
        let ghost before = out@;
        let mut j: usize = 0;
        while j < v.len()
            invariant
                j <= v@.len(),
                out@ == before + of_rank(v@.subrange(0, j as int), k as nat),
            decreases v@.len() - j,
        {
            proof {
                assert(v@.subrange(0, j + 1).drop_last() =~= v@.subrange(0, j as int));
            }
            let x = v[j];
            if x.rank() == k {
                out.push(x);
                proof {
                    assert(before + of_rank(v@.subrange(0, j + 1), k as nat) =~= (before + of_rank(v@.subrange(0, j as int), k as nat)).push(x));
                }
            }
            j = j + 1;
        }
        proof {
            assert(v@.subrange(0, j as int) =~= v@);
        }
        k = k + 1;
    }
    out
}

/// A homogeneous collection of records of the monitored process, watched
/// across ticks: the last known address of the array that holds it, and the
/// collection last read from it, sorted by discriminant.
#[derive(Debug)]
pub struct ListTracker<T> {
    address: Option<u64>,
    snapshot: Option<Vec<T>>,
}

/// The tracker after it takes in `read`, and the pairs of records that changed.
pub open spec fn observe_list_spec<T: Ranked>(
    e: (Option<u64>, Option<Seq<T>>),
    read: Result<Seq<T>, ReadError>,
) -> ((Option<u64>, Option<Seq<T>>), Seq<(T, T)>) {
    match e.0 {
        None => (e, Seq::empty()),
        Some(_) => match read {
            Err(_) => (e, Seq::empty()),
            Ok(v) => {
                let sorted = sorted_by_rank(v, T::rank_count());
                match e.1 {
                    None => ((e.0, Some(sorted)), Seq::empty()),
                    Some(s) => (
                        (e.0, Some(sorted)),
                        changed_pairs(s, sorted, common_len(s.len(), sorted.len())),
                    ),
                }
            },
        },
    }
}

impl<T: Ranked> ListTracker<T> {
    /// The array's address and the stored sorted collection.
    pub closed spec fn view(&self) -> (Option<u64>, Option<Seq<T>>) {
        (
            self.address,
            match self.snapshot {
                Some(v) => Some(v@),
                None => None,
            },
        )
    }

    /// A new tracker: unbound.
    pub fn new() -> (r: Self)
        ensures
            r.view() == (None::<u64>, None::<Seq<T>>),
    {
        ListTracker { address: None, snapshot: None }
    }

    /// The address of the array to read, if it is bound.
    pub fn address(&self) -> (r: Option<u64>)
        ensures
            r == self.view().0,
    {
        self.address
    }

    /// The collection last accepted, sorted by discriminant, if any.
    pub fn snapshot(&self) -> (r: Option<&Vec<T>>)
        ensures
            match r {
                Some(v) => self.view().1 == Some(v@),
                None => self.view().1.is_none(),
            },
    {
        match &self.snapshot {
            Some(v) => Some(v),
            None => None,
        }
    }

    /// Takes in the owner's pointer to the array, as `TrackedEntity::bind` does.
    pub fn bind(&mut self, ptr: u64) -> (r: bool)
        ensures
            final(self).view() == bind_spec(old(self).view(), ptr),
            r == (old(self).view().0 != Some(ptr)),
    {
        match self.address {
            Some(a) if a == ptr => false,
            _ => {
                self.address = if ptr == 0 {
                    None
                } else {
                    Some(ptr)
                };
                self.snapshot = None;
                true
            },
        }
    }

    /// Takes in `read`, the collection read this tick. It is sorted by
    /// discriminant and compared position by position with the stored one;
    /// returns the pairs (previous, current) that differ and share a
    /// discriminant. The first successful read after binding is a baseline
    /// and a failed read changes nothing: neither yields a pair.
    pub fn observe(&mut self, read: Result<Vec<T>, ReadError>) -> (r: Vec<(T, T)>)
        ensures
            (final(self).view(), r@) == observe_list_spec(
                old(self).view(),
                match read {
                    Ok(v) => Ok(v@),
                    Err(e) => Err(e),
                },
            ),
    {
        if self.address.is_none() {
            return Vec::new();
        }
        let v = match read {
            Err(_) => {
                return Vec::new();
            },
            Ok(v) => v,
        };
        let sorted = sort_by_rank(&v);
        let pairs = match &self.snapshot {
            None => Vec::new(),
            Some(prev) => changed_pairs_of(prev, &sorted),
        };
        self.snapshot = Some(sorted);
        pairs
    }
}

/// When the owner's pointer to a collection changes to another non-null
/// address, the next successful read of the collection is a baseline: it
/// reports no changed pair, whatever it holds.
pub proof fn lemma_moved_list_rebaselines<T: Ranked>(e: (Option<u64>, Option<Seq<T>>), ptr: u64, v: Seq<T>)
    requires
        e.0 != Some(ptr),
        ptr != 0,
    ensures
        observe_list_spec(bind_spec(e, ptr), Ok(v)) == ((Some(ptr), Some(sorted_by_rank(v, T::rank_count()))), Seq::<(T, T)>::empty()),
{
}

/// The pairs of records at common positions of `old` and `new` that differ
/// and share a discriminant.
pub fn changed_pairs_of<T: Ranked>(old: &Vec<T>, new: &Vec<T>) -> (r: Vec<(T, T)>)
    ensures
        r@ == changed_pairs(old@, new@, common_len(old@.len(), new@.len())),
{
    let n = if old.len() < new.len() {
        old.len()
    } else {
        new.len()
    };
    let mut out: Vec<(T, T)> = Vec::new();
    let mut i: usize = 0;
    while i < n
        invariant
            n == common_len(old@.len(), new@.len()),
            i <= n,
            out@ == changed_pairs(old@, new@, i as nat),
        decreases n - i,
    {
        let a = old[i];
        let b = new[i];
        if !a.same_as(&b) && a.rank() == b.rank() {
            out.push((a, b));
        }
        i = i + 1;
    }
    out
}

} // verus!
