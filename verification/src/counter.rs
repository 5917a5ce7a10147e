use vstd::prelude::*;

verus! {

broadcast use vstd::seq_lib::group_to_multiset_ensures;

/// An `i32` that threads update by adding to it.
///
/// The value is changed only through `&mut self`, that is while its holder
/// has it to itself; to share one between threads, put it behind a lock
/// (`Mutex<ThreadSafeInt>`), whose guard hands out that `&mut`.
pub struct ThreadSafeInt {
    value: i32,
}

impl View for ThreadSafeInt {
    type V = int;

    closed spec fn view(&self) -> int {
        self.value as int
    }
}

impl ThreadSafeInt {
    /// A counter holding `val`.
    pub fn new(val: i32) -> (t: Self)
        ensures
            t@ == val,
    {
        ThreadSafeInt { value: val }
    }

    /// Adds `delta`; the sum must be an `i32` (else the addition overflows).
    pub fn add(&mut self, delta: i32)
        requires
            i32::MIN <= old(self)@ + delta <= i32::MAX,
        ensures
            final(self)@ == old(self)@ + delta,
    {
        self.value = self.value + delta;
    }

    /// Reads the value, then adds `delta`, and returns the value before and
    /// after the addition.
    pub fn add_with_extras(&mut self, delta: i32) -> (seen: (i32, i32))
        requires
            i32::MIN <= old(self)@ + delta <= i32::MAX,
        ensures
            seen.0 == old(self)@,
            seen.1 == old(self)@ + delta,
            final(self)@ == seen.1,
    {
        let before = self.value;
        self.value = self.value + delta;
        let after = self.value;
        (before, after)
    }

    /// The current value.
    pub fn value(&self) -> (v: i32)
        ensures
            v == self@,
    {
        self.value
    }
}

/// The sum of a sequence of deltas.
pub open spec fn delta_total(deltas: Seq<i32>) -> int
    decreases deltas.len(),
{
    if deltas.len() == 0 {
        0
    } else {
        delta_total(deltas.drop_last()) + deltas.last()
    }
}

/// The value of a counter that started at `start` and received the adds
/// `deltas`, in this order.
pub open spec fn after_adds(start: int, deltas: Seq<i32>) -> int
    decreases deltas.len(),
{
    if deltas.len() == 0 {
        start
    } else {
        after_adds(start, deltas.drop_last()) + deltas.last()
    }
}

/// Applying adds one after the other moves the counter by their sum.
pub proof fn lemma_after_adds_is_sum(start: int, deltas: Seq<i32>)
    ensures
        after_adds(start, deltas) == start + delta_total(deltas),
    decreases deltas.len(),
{
    if deltas.len() > 0 {
        lemma_after_adds_is_sum(start, deltas.drop_last());
    }
}

/// Taking one delta out of the sequence takes it out of the sum.
proof fn lemma_delta_total_remove(deltas: Seq<i32>, i: int)
    requires
        0 <= i < deltas.len(),
    ensures
        delta_total(deltas) == delta_total(deltas.remove(i)) + deltas[i],
    decreases deltas.len(),
{
    if i == deltas.len() - 1 {
        assert(deltas.remove(i) =~= deltas.drop_last());
    } else {
        lemma_delta_total_remove(deltas.drop_last(), i);
        assert(deltas.drop_last().remove(i) =~= deltas.remove(i).drop_last());
    }
}

/// The order of the adds does not matter: a counter that receives the same
/// adds in any order (the same deltas, each as often) ends at the same value.
/// This is what makes a lock-protected counter give the same total however
/// the threads that update it are scheduled.
pub proof fn lemma_order_of_adds_irrelevant(start: int, deltas: Seq<i32>, reordered: Seq<i32>)
    requires
        deltas.to_multiset() =~= reordered.to_multiset(),
    ensures
        after_adds(start, deltas) == after_adds(start, reordered),
{
    lemma_after_adds_is_sum(start, deltas);
    lemma_after_adds_is_sum(start, reordered);
    lemma_delta_total_permutation(deltas, reordered);
}

/// The sum of a sequence depends only on how often each delta occurs in it.
proof fn lemma_delta_total_permutation(s: Seq<i32>, t: Seq<i32>)
    requires
        s.to_multiset() =~= t.to_multiset(),
    ensures
        delta_total(s) == delta_total(t),
    decreases s.len(),
{
    if s.len() == 0 {
        assert(t.to_multiset().len() == 0);
    } else {
        let n = s.len() - 1;
        let x = s[n];
        assert(s.to_multiset().count(x) > 0) by {
            assert(s.contains(x));
        }
        assert(t.contains(x));
        let j = choose|j: int| 0 <= j < t.len() && t[j] == x;
        assert(s.remove(n) =~= s.drop_last());
        assert(s.remove(n).to_multiset() =~= t.remove(j).to_multiset());
        lemma_delta_total_permutation(s.drop_last(), t.remove(j));
        lemma_delta_total_remove(t, j);
    }
}

/// A counter that receives `k` adds of 1 has counted exactly `k`.
pub proof fn lemma_increments_count(start: int, k: nat)
    ensures
        after_adds(start, Seq::new(k, |i: int| 1i32)) == start + k,
    decreases k,
{
    if k > 0 {
        lemma_increments_count(start, (k - 1) as nat);
        assert(Seq::new(k, |i: int| 1i32).drop_last() =~= Seq::new((k - 1) as nat, |i: int| 1i32));
    }
}

/// A record with a count that a closure bumps.
pub struct AppData {
    pub count: u32,
}

impl AppData {
    /// Adds one to the count; the count must be below `u32::MAX`.
    pub fn bump_count(&mut self)
        requires
            old(self).count < u32::MAX,
        ensures
            final(self).count == old(self).count + 1,
    {
        self.count = self.count + 1;
    }
}

} // verus!
