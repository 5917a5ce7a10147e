use vstd::prelude::*;

verus! {

/// The first id a fresh [`TensorIdSource`] hands out.
pub const FIRST_TENSOR_ID: usize = 100;

/// Unique identifier for tensors.
#[derive(Clone, Copy, Debug, PartialEq, Eq, Hash, Structural)]
pub struct TensorId(usize);

impl View for TensorId {
    type V = nat;

    closed spec fn view(&self) -> nat {
        self.0 as nat
    }
}

/// The counter that tensor ids are drawn from: each id is the counter's
/// value, and drawing one moves the counter on by one, wrapping around at
/// the end of `usize`.
pub struct TensorIdSource {
    next: usize,
}

impl View for TensorIdSource {
    /// The id that will be handed out next.
    type V = nat;

    closed spec fn view(&self) -> nat {
        self.next as nat
    }
}

/// The number of distinct values of `usize`.
pub open spec fn id_space() -> nat {
    (usize::MAX + 1) as nat
}

/// The counter value after `n`, wrapping around at the end of `usize`.
pub open spec fn following_id(n: nat) -> nat {
    if n == usize::MAX {
        0
    } else {
        n + 1
    }
}

/// The `k`-th id (from 0) that a source whose counter starts at `start` hands out.
pub open spec fn issued_id(start: nat, k: nat) -> nat {
    (start + k) % id_space()
}

impl TensorIdSource {
    /// A source whose first id is [`FIRST_TENSOR_ID`].
    pub fn new() -> (source: Self)
        ensures
            source@ == FIRST_TENSOR_ID,
    {
        TensorIdSource { next: FIRST_TENSOR_ID }
    }
}

impl TensorId {
    /// Draws the next id from `source`.
    pub fn new(source: &mut TensorIdSource) -> (id: Self)
        ensures
            id@ == old(source)@,
            final(source)@ == following_id(old(source)@),
    {
        let id = source.next;
        source.next = source.next.wrapping_add(1);
        TensorId(id)
    }
}

/// Drawing an id from a source whose counter is at the `k`-th id issued from
/// `start` gives that id and leaves the counter at the `(k + 1)`-th.
pub proof fn lemma_draw_advances(start: nat, k: nat)
    requires
        start < id_space(),
    ensures
        following_id(issued_id(start, k)) == issued_id(start, k + 1),
{
    let m = id_space() as int;
    let x = (start + k) as int;
    vstd::arithmetic::div_mod::lemma_fundamental_div_mod(x, m);
    vstd::arithmetic::div_mod::lemma_fundamental_div_mod(x + 1, m);
    vstd::arithmetic::div_mod::lemma_mod_bound(x, m);
    vstd::arithmetic::div_mod::lemma_mod_bound(x + 1, m);
    let q = x / m;
    let r = x % m;
    if r == m - 1 {
        assert(x + 1 == (q + 1) * m + 0) by (nonlinear_arith)
            requires
                x == m * q + r,
                r == m - 1,
        ;
        vstd::arithmetic::div_mod::lemma_fundamental_div_mod_converse(x + 1, m, q + 1, 0);
    } else {
        assert(x + 1 == q * m + (r + 1)) by (nonlinear_arith)
            requires
                x == m * q + r,
        ;
        vstd::arithmetic::div_mod::lemma_fundamental_div_mod_converse(x + 1, m, q, r + 1);
    }
}

/// Ids are unique: the ids that one source hands out are pairwise distinct
/// until the counter has gone all the way round `usize`.
pub proof fn lemma_issued_ids_distinct(start: nat, i: nat, j: nat)
    requires
        i < j < id_space(),
    ensures
        issued_id(start, i) != issued_id(start, j),
{
    let m = id_space() as int;
    let x = (start + j) as int;
    let y = (start + i) as int;
    vstd::arithmetic::div_mod::lemma_mod_equivalence(x, y, m);
    vstd::arithmetic::div_mod::lemma_small_mod((j - i) as nat, m as nat);
}

} // verus!
