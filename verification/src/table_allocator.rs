//! Knowledge of which entries of a table are allocated or free, with an amortized O(1)
//! allocation, at the cost of worst case O(n) freeing.

use vstd::prelude::*;

verus! {

/// An interval `inf..sup_excluded` of consecutive free entries.
#[derive(Clone, Copy, PartialEq, Eq, Structural)]
pub struct FreeInterval {
    pub inf: usize,
    pub sup_excluded: usize,
}

impl FreeInterval {
    pub fn length(self) -> (r: usize)
        requires
            self.inf <= self.sup_excluded,
        ensures
            r == self.sup_excluded - self.inf,
    {
        self.sup_excluded - self.inf
    }

    pub fn contains(self, index: usize) -> (r: bool)
        ensures
            r == (self.inf <= index < self.sup_excluded),
    {
        self.inf <= index && index < self.sup_excluded
    }
}

/// The indices in some interval of the sequence.
pub open spec fn free_set(intervals: Seq<FreeInterval>) -> Set<int> {
    Set::new(
        |i: int|
            exists|k: int| 0 <= k < intervals.len() && #[trigger] intervals[k].inf <= i < intervals[k].sup_excluded,
    )
}

/// The intervals are non-empty, sorted, neither overlapping nor touching, and below `length`.
pub open spec fn intervals_wf(intervals: Seq<FreeInterval>, length: int) -> bool {
    &&& forall|k: int| 0 <= k < intervals.len() ==> #[trigger] intervals[k].inf < intervals[k].sup_excluded
    &&& forall|k: int, l: int| 0 <= k < l < intervals.len() ==> #[trigger] intervals[k].sup_excluded < #[trigger] intervals[l].inf
    &&& forall|k: int| 0 <= k < intervals.len() ==> #[trigger] intervals[k].sup_excluded <= length
}

/// Every free index is an index of the table.
pub open spec fn within_table(free: Set<int>, length: nat) -> bool {
    forall|i: int| #[trigger] free.contains(i) ==> 0 <= i < length
}

proof fn lemma_within_table(ivs: Seq<FreeInterval>, length: int)
    requires
        intervals_wf(ivs, length),
    ensures
        within_table(free_set(ivs), length as nat),
{
    assert forall|i: int| #[trigger] free_set(ivs).contains(i) implies 0 <= i < length by {
        let k = choose|k: int| 0 <= k < ivs.len() && #[trigger] ivs[k].inf <= i < ivs[k].sup_excluded;
    }
}

/// Manages the knowledge of which entry is allocated or free in a table of `length` entries.
pub struct TableAllocator {
    length: usize,
    /// The intervals of consecutive free entries: an index is free when it is in one of them.
    free_intervals: Vec<FreeInterval>,
}

pub enum AllocationDecision {
    /// The allocator decided to allocate the given index.
    AllocateIndex(usize),
    /// There is no more free slot, the allocator needs to be lengthened.
    NeedsBiggerBuffer,
}

/// Where an index lands among the free intervals.
pub enum WhereIndexLands {
    /// The index lands inside the interval `free_intervals[i]`.
    InInterval(usize),
    /// The index lands before the interval `free_intervals[i]` but after the one before it (if
    /// any); `i` may be the number of intervals, when the index lands after the last one.
    BeforeInterval(usize),
}

impl TableAllocator {
    #[verifier::type_invariant]
    spec fn wf(self) -> bool {
        intervals_wf(self.free_intervals@, self.length as int)
    }

    /// The number of entries of the table.
    pub closed spec fn len(&self) -> nat {
        self.length as nat
    }

    /// The free entries of the table.
    pub closed spec fn free(&self) -> Set<int> {
        free_set(self.free_intervals@)
    }

    /// The free indices are indices of the table.
    fn free_within_table(&self)
        ensures
            within_table(self.free(), self.len()),
    {
        proof {
            use_type_invariant(self);
            lemma_within_table(self.free_intervals@, self.length as int);
        }
    }

    /// A table of the given length whose entries are all free.
    pub fn new(length: usize) -> (r: TableAllocator)
        ensures
            r.len() == length,
            r.free() == Set::new(|i: int| 0 <= i < length),
            within_table(r.free(), r.len()),
    {
        let mut table_allocator = TableAllocator { length: 0, free_intervals: Vec::new() };
        proof {
            assert(table_allocator.free() =~= Set::<int>::empty());
        }
        if 0 < length {
            table_allocator.length_increased_to(length);
        }
        proof {
            assert(table_allocator.free() =~= Set::new(|i: int| 0 <= i < length));
        }
        table_allocator.free_within_table();
        table_allocator
    }

    /// Communicates to the allocator that it now has a new bigger length.
    /// The added entries are free.
    pub fn length_increased_to(&mut self, new_length: usize)
        requires
            old(self).len() < new_length,
        ensures
            final(self).len() == new_length,
            final(self).free() == old(self).free().union(Set::new(|i: int| old(self).len() <= i < new_length)),
            within_table(final(self).free(), final(self).len()),
    {
        proof {
            use_type_invariant(&*self);
        }
        let ghost old_ivs = self.free_intervals@;
        let ghost added = Set::new(|i: int| self.length <= i < new_length);
        let mut free_intervals: Vec<FreeInterval> = Vec::new();
        std::mem::swap(&mut free_intervals, &mut self.free_intervals);
        let n = free_intervals.len();
        if n > 0 && free_intervals[n - 1].sup_excluded == self.length {
            // The last interval touched the end at the previous length, so it extends to
            // cover the new portion.
            let last = free_intervals[n - 1];
            free_intervals.set(n - 1, FreeInterval { inf: last.inf, sup_excluded: new_length });
            proof {
                let ivs = free_intervals@;
                assert forall|i: int| #[trigger] free_set(ivs).contains(i) == free_set(old_ivs).union(added).contains(i) by {
                    if free_set(ivs).contains(i) {
                        let k = choose|k: int| 0 <= k < ivs.len() && #[trigger] ivs[k].inf <= i < ivs[k].sup_excluded;
                        if k < n - 1 {
                            assert(old_ivs[k].inf <= i < old_ivs[k].sup_excluded);
                        } else if i < self.length {
                            assert(old_ivs[n - 1].inf <= i < old_ivs[n - 1].sup_excluded);
                        }
                    }
                    if free_set(old_ivs).contains(i) {
                        let k = choose|k: int| 0 <= k < old_ivs.len() && #[trigger] old_ivs[k].inf <= i < old_ivs[k].sup_excluded;
                        assert(ivs[k].inf <= i < ivs[k].sup_excluded);
                    }
                    if added.contains(i) {
                        assert(ivs[n - 1].inf <= i < ivs[n - 1].sup_excluded);
                    }
                }
                assert(free_set(ivs) =~= free_set(old_ivs).union(added));
            }
        } else {
            // The new portion forms an interval of its own.
            free_intervals.push(FreeInterval { inf: self.length, sup_excluded: new_length });
            proof {
                let ivs = free_intervals@;
                assert forall|k: int, l: int| 0 <= k < l < ivs.len() implies #[trigger] ivs[k].sup_excluded < #[trigger] ivs[l].inf by {
                    if l == n {
                        assert(old_ivs[k].sup_excluded <= self.length);
                        assert(old_ivs[n - 1].sup_excluded != self.length);
                        if k < n - 1 {
                            assert(old_ivs[k].sup_excluded < old_ivs[n - 1].inf);
                        }
                    }
                }
                assert forall|i: int| #[trigger] free_set(ivs).contains(i) == free_set(old_ivs).union(added).contains(i) by {
                    if free_set(ivs).contains(i) {
                        let k = choose|k: int| 0 <= k < ivs.len() && #[trigger] ivs[k].inf <= i < ivs[k].sup_excluded;
                        if k < n {
                            assert(old_ivs[k].inf <= i < old_ivs[k].sup_excluded);
                        }
                    }
                    if free_set(old_ivs).contains(i) {
                        let k = choose|k: int| 0 <= k < old_ivs.len() && #[trigger] old_ivs[k].inf <= i < old_ivs[k].sup_excluded;
                        assert(ivs[k].inf <= i < ivs[k].sup_excluded);
                    }
                    if added.contains(i) {
                        assert(ivs[n as int].inf <= i < ivs[n as int].sup_excluded);
                    }
                }
                assert(free_set(ivs) =~= free_set(old_ivs).union(added));
            }
        }
        *self = TableAllocator { length: new_length, free_intervals };
        self.free_within_table();
    }
}


impl TableAllocator {
    /// Lets the allocator pick a free index that becomes allocated: the greatest free index.
    /// Returns `NeedsBiggerBuffer` when no index is free; the allocator must then be told of
    /// a greater length with `length_increased_to`.
    pub fn allocate_one(&mut self) -> (r: AllocationDecision)
        ensures
            final(self).len() == old(self).len(),
            match r {
                AllocationDecision::AllocateIndex(i) => old(self).free().contains(i as int)
                    && (forall|j: int| #[trigger] old(self).free().contains(j) ==> j <= i)
                    && final(self).free() == old(self).free().remove(i as int),
                AllocationDecision::NeedsBiggerBuffer => old(self).free().is_empty()
                    && final(self).free() == old(self).free(),
            },
            within_table(final(self).free(), final(self).len()),
    {
        proof {
            use_type_invariant(&*self);
        }
        let ghost old_ivs = self.free_intervals@;
        let n = self.free_intervals.len();
        if n == 0 {
            proof {
                assert(free_set(old_ivs) =~= Set::<int>::empty());
            }
            self.free_within_table();
            return AllocationDecision::NeedsBiggerBuffer;
        }
        let last = self.free_intervals[n - 1];
        proof {
            assert(old_ivs[n - 1].inf < old_ivs[n - 1].sup_excluded);
        }
        let index = last.sup_excluded - 1;
        let mut free_intervals: Vec<FreeInterval> = Vec::new();
        std::mem::swap(&mut free_intervals, &mut self.free_intervals);
        free_intervals.set(n - 1, FreeInterval { inf: last.inf, sup_excluded: index });
        if free_intervals[n - 1].length() == 0 {
            free_intervals.pop();
        }
        proof {
            let ivs = free_intervals@;
            assert(free_set(old_ivs).contains(index as int)) by {
                assert(old_ivs[n - 1].inf <= index < old_ivs[n - 1].sup_excluded);
            }
            assert forall|j: int| #[trigger] free_set(old_ivs).contains(j) implies j <= index by {
                let k = choose|k: int| 0 <= k < old_ivs.len() && #[trigger] old_ivs[k].inf <= j < old_ivs[k].sup_excluded;
                if k < n - 1 {
                    assert(old_ivs[k].sup_excluded < old_ivs[n - 1].inf);
                }
            }
            assert forall|j: int| #[trigger] free_set(ivs).contains(j) == free_set(old_ivs).remove(index as int).contains(j) by {
                if free_set(ivs).contains(j) {
                    let k = choose|k: int| 0 <= k < ivs.len() && #[trigger] ivs[k].inf <= j < ivs[k].sup_excluded;
                    assert(old_ivs[k].inf <= j < old_ivs[k].sup_excluded);
                }
                if free_set(old_ivs).contains(j) && j != index {
                    let k = choose|k: int| 0 <= k < old_ivs.len() && #[trigger] old_ivs[k].inf <= j < old_ivs[k].sup_excluded;
                    assert(ivs[k].inf <= j < ivs[k].sup_excluded);
                }
            }
            assert(free_set(ivs) =~= free_set(old_ivs).remove(index as int));
        }
        self.free_intervals = free_intervals;
        self.free_within_table();
        AllocationDecision::AllocateIndex(index)
    }

    /// Identifies the interval, or the space between intervals, where the given index lands.
    fn where_index_lands(&self, index: usize) -> (r: WhereIndexLands)
        requires
            index < self.len(),
        ensures
            match r {
                WhereIndexLands::InInterval(k) => k < self.free_intervals@.len()
                    && self.free_intervals@[k as int].inf <= index < self.free_intervals@[k as int].sup_excluded,
                WhereIndexLands::BeforeInterval(k) => k <= self.free_intervals@.len()
                    && (k < self.free_intervals@.len() ==> index < self.free_intervals@[k as int].inf)
                    && (k > 0 ==> self.free_intervals@[k - 1].sup_excluded <= index),
            },
    {
        proof {
            use_type_invariant(self);
        }
        let ghost ivs = self.free_intervals@;
        if self.free_intervals.len() == 0 {
            return WhereIndexLands::BeforeInterval(0);
        }
        let mut search_inf: usize = 0;
        let mut search_sup_excluded: usize = self.free_intervals.len();
        while search_inf < search_sup_excluded
            invariant
                ivs == self.free_intervals@,
                intervals_wf(ivs, self.length as int),
                search_inf < search_sup_excluded <= ivs.len(),
                forall|k: int| 0 <= k < search_inf ==> #[trigger] ivs[k].sup_excluded <= index,
                forall|k: int| search_sup_excluded <= k < ivs.len() ==> index < #[trigger] ivs[k].inf,
            decreases search_sup_excluded - search_inf,
        {
            let search_middle = search_inf + (search_sup_excluded - search_inf) / 2;
            let interval = self.free_intervals[search_middle];
            if interval.contains(index) {
                // An interval contains the index.
                return WhereIndexLands::InInterval(search_middle);
            } else if index < interval.inf {
                // The index is before the interval: is it between this interval and the one before?
                if search_middle == 0 {
                    return WhereIndexLands::BeforeInterval(search_middle);
                }
                let interval_before = self.free_intervals[search_middle - 1];
                if interval_before.sup_excluded <= index {
                    return WhereIndexLands::BeforeInterval(search_middle);
                }
                proof {
                    assert forall|k: int| search_middle <= k < ivs.len() implies index < #[trigger] ivs[k].inf by {
                        if k > search_middle {
                            assert(ivs[search_middle as int].sup_excluded < ivs[k].inf);
                        }
                    }
                }
                search_sup_excluded = search_middle;
            } else {
                // The index is after the interval: is it between this interval and the one after?
                if search_middle + 1 == self.free_intervals.len() {
                    return WhereIndexLands::BeforeInterval(search_middle + 1);
                }
                let interval_after = self.free_intervals[search_middle + 1];
                if index < interval_after.inf {
                    return WhereIndexLands::BeforeInterval(search_middle + 1);
                }
                proof {
                    assert forall|k: int| 0 <= k < search_middle + 1 implies #[trigger] ivs[k].sup_excluded <= index by {
                        if k < search_middle {
                            assert(ivs[k].sup_excluded < ivs[search_middle as int].inf);
                        }
                    }
                }
                search_inf = search_middle + 1;
            }
        }
        WhereIndexLands::BeforeInterval(search_inf)
    }
}


/// The facts that freeing `index`, which lands between `ivs[k - 1]` and `ivs[k]`, relies on.
pub open spec fn lands_before(ivs: Seq<FreeInterval>, length: int, index: int, k: int) -> bool {
    &&& intervals_wf(ivs, length)
    &&& length <= usize::MAX
    &&& 0 <= index < length
    &&& 0 <= k <= ivs.len()
    &&& k < ivs.len() ==> index < ivs[k].inf
    &&& k > 0 ==> ivs[k - 1].sup_excluded <= index
}

proof fn lemma_free_merge(ivs: Seq<FreeInterval>, length: int, index: int, k: int)
    requires
        lands_before(ivs, length, index, k),
        0 < k < ivs.len(),
        ivs[k - 1].sup_excluded == index,
        ivs[k].inf == index + 1,
    ensures
        ({
            let merged = FreeInterval { inf: ivs[k - 1].inf, sup_excluded: ivs[k].sup_excluded };
            let new_ivs = ivs.update(k - 1, merged).remove(k);
            intervals_wf(new_ivs, length) && free_set(new_ivs) == free_set(ivs).insert(index)
        }),
{
    let merged = FreeInterval { inf: ivs[k - 1].inf, sup_excluded: ivs[k].sup_excluded };
    let new_ivs = ivs.update(k - 1, merged).remove(k);
    assert(new_ivs.len() == ivs.len() - 1);
    assert forall|j: int| 0 <= j < new_ivs.len() implies #[trigger] new_ivs[j] == (if j < k - 1 {
        ivs[j]
    } else if j == k - 1 {
        merged
    } else {
        ivs[j + 1]
    }) by {}
    assert forall|a: int, b: int| 0 <= a < b < new_ivs.len() implies #[trigger] new_ivs[a].sup_excluded < #[trigger] new_ivs[b].inf by {
        if a == k - 1 {
            assert(ivs[k].sup_excluded < ivs[b + 1].inf);
        } else if a < k - 1 && b == k - 1 {
            assert(ivs[a].sup_excluded < ivs[k - 1].inf);
        } else if a < k - 1 {
            assert(ivs[a].sup_excluded < ivs[b + 1].inf);
        } else {
            assert(ivs[a + 1].sup_excluded < ivs[b + 1].inf);
        }
    }
    assert forall|a: int| 0 <= a < new_ivs.len() implies #[trigger] new_ivs[a].inf < new_ivs[a].sup_excluded by {
        if a == k - 1 {
            assert(ivs[k - 1].inf < ivs[k - 1].sup_excluded);
        } else if a > k - 1 {
            assert(ivs[a + 1].inf < ivs[a + 1].sup_excluded);
        }
    }
    assert forall|a: int| 0 <= a < new_ivs.len() implies #[trigger] new_ivs[a].sup_excluded <= length by {
        if a >= k - 1 {
            assert(ivs[a + 1].sup_excluded <= length);
        }
    }
    assert forall|j: int| #[trigger] free_set(new_ivs).contains(j) == free_set(ivs).insert(index).contains(j) by {
        if free_set(new_ivs).contains(j) {
            let c = choose|c: int| 0 <= c < new_ivs.len() && #[trigger] new_ivs[c].inf <= j < new_ivs[c].sup_excluded;
            if c < k - 1 {
                assert(ivs[c].inf <= j < ivs[c].sup_excluded);
            } else if c > k - 1 {
                assert(ivs[c + 1].inf <= j < ivs[c + 1].sup_excluded);
            } else if j < index {
                assert(ivs[k - 1].inf <= j < ivs[k - 1].sup_excluded);
            } else if j > index {
                assert(ivs[k].inf <= j < ivs[k].sup_excluded);
            }
        }
        if free_set(ivs).contains(j) {
            let c = choose|c: int| 0 <= c < ivs.len() && #[trigger] ivs[c].inf <= j < ivs[c].sup_excluded;
            if c < k - 1 {
                assert(new_ivs[c].inf <= j < new_ivs[c].sup_excluded);
            } else if c == k - 1 || c == k {
                assert(new_ivs[k - 1].inf <= j < new_ivs[k - 1].sup_excluded);
            } else {
                assert(new_ivs[c - 1].inf <= j < new_ivs[c - 1].sup_excluded);
            }
        }
        if j == index {
            assert(new_ivs[k - 1].inf <= j < new_ivs[k - 1].sup_excluded);
        }
    }
    assert(free_set(new_ivs) =~= free_set(ivs).insert(index));
}

proof fn lemma_free_extend_before(ivs: Seq<FreeInterval>, length: int, index: int, k: int)
    requires
        lands_before(ivs, length, index, k),
        0 < k,
        ivs[k - 1].sup_excluded == index,
        k < ivs.len() ==> ivs[k].inf != index + 1,
    ensures
        ({
            let new_ivs = ivs.update(k - 1, FreeInterval { inf: ivs[k - 1].inf, sup_excluded: (index + 1) as usize });
            intervals_wf(new_ivs, length) && free_set(new_ivs) == free_set(ivs).insert(index)
        }),
{
    let new_ivs = ivs.update(k - 1, FreeInterval { inf: ivs[k - 1].inf, sup_excluded: (index + 1) as usize });
    assert forall|a: int, b: int| 0 <= a < b < new_ivs.len() implies #[trigger] new_ivs[a].sup_excluded < #[trigger] new_ivs[b].inf by {
        assert(ivs[a].sup_excluded < ivs[b].inf);
        if a == k - 1 && b > k {
            assert(ivs[k].sup_excluded < ivs[b].inf);
        }
    }
    assert forall|j: int| #[trigger] free_set(new_ivs).contains(j) == free_set(ivs).insert(index).contains(j) by {
        if free_set(new_ivs).contains(j) {
            let c = choose|c: int| 0 <= c < new_ivs.len() && #[trigger] new_ivs[c].inf <= j < new_ivs[c].sup_excluded;
            if c != k - 1 || j < index {
                assert(ivs[c].inf <= j < ivs[c].sup_excluded);
            }
        }
        if free_set(ivs).contains(j) {
            let c = choose|c: int| 0 <= c < ivs.len() && #[trigger] ivs[c].inf <= j < ivs[c].sup_excluded;
            assert(new_ivs[c].inf <= j < new_ivs[c].sup_excluded);
        }
        if j == index {
            assert(new_ivs[k - 1].inf <= j < new_ivs[k - 1].sup_excluded);
        }
    }
    assert(free_set(new_ivs) =~= free_set(ivs).insert(index));
}

proof fn lemma_free_extend_after(ivs: Seq<FreeInterval>, length: int, index: int, k: int)
    requires
        lands_before(ivs, length, index, k),
        k < ivs.len(),
        ivs[k].inf == index + 1,
        k > 0 ==> ivs[k - 1].sup_excluded != index,
    ensures
        ({
            let new_ivs = ivs.update(k, FreeInterval { inf: index as usize, sup_excluded: ivs[k].sup_excluded });
            intervals_wf(new_ivs, length) && free_set(new_ivs) == free_set(ivs).insert(index)
        }),
{
    let new_ivs = ivs.update(k, FreeInterval { inf: index as usize, sup_excluded: ivs[k].sup_excluded });
    assert forall|a: int, b: int| 0 <= a < b < new_ivs.len() implies #[trigger] new_ivs[a].sup_excluded < #[trigger] new_ivs[b].inf by {
        assert(ivs[a].sup_excluded < ivs[b].inf);
        if b == k && a < k - 1 {
            assert(ivs[a].sup_excluded < ivs[k - 1].inf);
        }
    }
    assert forall|j: int| #[trigger] free_set(new_ivs).contains(j) == free_set(ivs).insert(index).contains(j) by {
        if free_set(new_ivs).contains(j) {
            let c = choose|c: int| 0 <= c < new_ivs.len() && #[trigger] new_ivs[c].inf <= j < new_ivs[c].sup_excluded;
            if c != k || j > index {
                assert(ivs[c].inf <= j < ivs[c].sup_excluded);
            }
        }
        if free_set(ivs).contains(j) {
            let c = choose|c: int| 0 <= c < ivs.len() && #[trigger] ivs[c].inf <= j < ivs[c].sup_excluded;
            assert(new_ivs[c].inf <= j < new_ivs[c].sup_excluded);
        }
        if j == index {
            assert(new_ivs[k].inf <= j < new_ivs[k].sup_excluded);
        }
    }
    assert(free_set(new_ivs) =~= free_set(ivs).insert(index));
}

proof fn lemma_free_isolated(ivs: Seq<FreeInterval>, length: int, index: int, k: int)
    requires
        lands_before(ivs, length, index, k),
        k < ivs.len() ==> ivs[k].inf != index + 1,
        k > 0 ==> ivs[k - 1].sup_excluded != index,
    ensures
        ({
            let new_ivs = ivs.insert(k, FreeInterval { inf: index as usize, sup_excluded: (index + 1) as usize });
            intervals_wf(new_ivs, length) && free_set(new_ivs) == free_set(ivs).insert(index)
        }),
{
    let fresh = FreeInterval { inf: index as usize, sup_excluded: (index + 1) as usize };
    let new_ivs = ivs.insert(k, fresh);
    assert(new_ivs.len() == ivs.len() + 1);
    assert forall|j: int| 0 <= j < new_ivs.len() implies #[trigger] new_ivs[j] == (if j < k {
        ivs[j]
    } else if j == k {
        fresh
    } else {
        ivs[j - 1]
    }) by {}
    assert forall|a: int, b: int| 0 <= a < b < new_ivs.len() implies #[trigger] new_ivs[a].sup_excluded < #[trigger] new_ivs[b].inf by {
        if a < k && b < k {
            assert(ivs[a].sup_excluded < ivs[b].inf);
        } else if a < k && b == k {
            if a < k - 1 {
                assert(ivs[a].sup_excluded < ivs[k - 1].inf);
            }
        } else if a < k && b > k {
            assert(ivs[a].sup_excluded < ivs[b - 1].inf);
        } else if a == k {
            if b > k + 1 {
                assert(ivs[k].sup_excluded < ivs[b - 1].inf);
            }
        } else {
            assert(a - 1 < b - 1);
            assert(ivs[a - 1].sup_excluded < ivs[b - 1].inf);
        }
    }
    assert forall|a: int| 0 <= a < new_ivs.len() implies #[trigger] new_ivs[a].inf < new_ivs[a].sup_excluded by {
        if a > k {
            assert(ivs[a - 1].inf < ivs[a - 1].sup_excluded);
        }
    }
    assert forall|a: int| 0 <= a < new_ivs.len() implies #[trigger] new_ivs[a].sup_excluded <= length by {
        if a > k {
            assert(ivs[a - 1].sup_excluded <= length);
        }
    }
    assert forall|j: int| #[trigger] free_set(new_ivs).contains(j) == free_set(ivs).insert(index).contains(j) by {
        if free_set(new_ivs).contains(j) {
            let c = choose|c: int| 0 <= c < new_ivs.len() && #[trigger] new_ivs[c].inf <= j < new_ivs[c].sup_excluded;
            if c < k {
                assert(ivs[c].inf <= j < ivs[c].sup_excluded);
            } else if c > k {
                assert(ivs[c - 1].inf <= j < ivs[c - 1].sup_excluded);
            }
        }
        if free_set(ivs).contains(j) {
            let c = choose|c: int| 0 <= c < ivs.len() && #[trigger] ivs[c].inf <= j < ivs[c].sup_excluded;
            if c < k {
                assert(new_ivs[c].inf <= j < new_ivs[c].sup_excluded);
            } else {
                assert(new_ivs[c + 1].inf <= j < new_ivs[c + 1].sup_excluded);
            }
        }
        if j == index {
            assert(new_ivs[k].inf <= j < new_ivs[k].sup_excluded);
        }
    }
    assert(free_set(new_ivs) =~= free_set(ivs).insert(index));
}

impl TableAllocator {
    /// Frees the given index, which must be allocated. An interval that the index touches is
    /// extended, two intervals that it joins are merged, else it forms an interval of its own.
    pub fn free_one(&mut self, index: usize)
        requires
            index < old(self).len(),
            !old(self).free().contains(index as int),
        ensures
            final(self).len() == old(self).len(),
            final(self).free() == old(self).free().insert(index as int),
            within_table(final(self).free(), final(self).len()),
    {
        proof {
            use_type_invariant(&*self);
        }
        let ghost old_ivs = self.free_intervals@;
        match self.where_index_lands(index) {
            WhereIndexLands::InInterval(k) => {
                proof {
                    assert(free_set(old_ivs).contains(index as int));
                }
            },
            WhereIndexLands::BeforeInterval(k) => {
                let n = self.free_intervals.len();
                let extends_before = k >= 1 && self.free_intervals[k - 1].sup_excluded == index;
                let extends_after = k < n && self.free_intervals[k].inf == index + 1;
                let mut free_intervals: Vec<FreeInterval> = Vec::new();
                std::mem::swap(&mut free_intervals, &mut self.free_intervals);
                if extends_before && extends_after {
                    // The freed index joins the intervals around it.
                    proof {
                        lemma_free_merge(old_ivs, self.length as int, index as int, k as int);
                    }
                    let merged = FreeInterval {
                        inf: free_intervals[k - 1].inf,
                        sup_excluded: free_intervals[k].sup_excluded,
                    };
                    free_intervals.set(k - 1, merged);
                    free_intervals.remove(k);
                } else if extends_before {
                    // The freed index extends the interval before.
                    proof {
                        lemma_free_extend_before(old_ivs, self.length as int, index as int, k as int);
                    }
                    let before = free_intervals[k - 1];
                    free_intervals.set(k - 1, FreeInterval { inf: before.inf, sup_excluded: index + 1 });
                } else if extends_after {
                    // The freed index extends the interval after.
                    proof {
                        lemma_free_extend_after(old_ivs, self.length as int, index as int, k as int);
                    }
                    let after = free_intervals[k];
                    free_intervals.set(k, FreeInterval { inf: index, sup_excluded: after.sup_excluded });
                } else {
                    // The freed index forms an interval of its own.
                    proof {
                        lemma_free_isolated(old_ivs, self.length as int, index as int, k as int);
                    }
                    free_intervals.insert(k, FreeInterval { inf: index, sup_excluded: index + 1 });
                }
                self.free_intervals = free_intervals;
            },
        }
        self.free_within_table();
    }
}

/// Freeing the index that an allocation picked gives back the free entries that there were
/// before the allocation.
pub proof fn law_free_undoes_allocate(
    before: TableAllocator,
    after_allocation: TableAllocator,
    after_freeing: TableAllocator,
    index: int,
)
    requires
        before.free().contains(index),
        after_allocation.free() == before.free().remove(index),
        after_freeing.free() == after_allocation.free().insert(index),
    ensures
        after_freeing.free() == before.free(),
{
    assert(after_freeing.free() =~= before.free());
}

} // verus!
