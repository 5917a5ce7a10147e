use core::ops::ControlFlow;
use rayon::iter::IntoParallelRefIterator;
use rayon::iter::ParallelIterator;
use vstd::prelude::*;

verus! {

/// Whether an integer is a value of `i32`.
pub open spec fn fits_i32(v: int) -> bool {
    i32::MIN <= v <= i32::MAX
}

// ---------------------------------------------------------------------------
// Sum of squares, sequential and parallel
// ---------------------------------------------------------------------------

/// The sum of the squares of a sequence of numbers.
pub open spec fn square_sum(s: Seq<u128>) -> nat
    decreases s.len(),
{
    if s.len() == 0 {
        0
    } else {
        square_sum(s.drop_last()) + (s.last() as nat) * (s.last() as nat)
    }
}

/// The sum of squares of a prefix never exceeds that of the whole sequence.
pub proof fn lemma_square_sum_prefix_le(s: Seq<u128>, i: int)
    requires
        0 <= i <= s.len(),
    ensures
        square_sum(s.take(i)) <= square_sum(s),
    decreases s.len(),
{
    if i == s.len() {
        assert(s.take(i) =~= s);
    } else {
        lemma_square_sum_prefix_le(s.drop_last(), i);
        assert(s.drop_last().take(i) =~= s.take(i));
    }
}

/// Sums of squares add up over concatenation: splitting the numbers into two
/// parts and summing each part gives the same total, which is what lets the
/// parallel sum agree with the sequential one.
pub proof fn lemma_square_sum_split(a: Seq<u128>, b: Seq<u128>)
    ensures
        square_sum(a + b) == square_sum(a) + square_sum(b),
    decreases b.len(),
{
    if b.len() == 0 {
        assert(a + b =~= a);
    } else {
        lemma_square_sum_split(a, b.drop_last());
        assert((a + b).drop_last() =~= a + b.drop_last());
    }
}

/// The square of one number.
fn square(x: u128) -> (r: u128)
    requires
        x * x <= u128::MAX,
    ensures
        r == x * x,
{
    x * x
}

/// Sums the squares of `numbers`, one after the other.
pub fn sum_of_squares(numbers: &[u128]) -> (total: u128)
    requires
        square_sum(numbers@) <= u128::MAX,
    ensures
        total == square_sum(numbers@),
{
    let mut total: u128 = 0;
    let mut i: usize = 0;
    while i < numbers.len()
        invariant
            i <= numbers.len(),
            total == square_sum(numbers@.take(i as int)),
            square_sum(numbers@) <= u128::MAX,
        decreases numbers.len() - i,
    {
        let x = numbers[i];
        proof {
            lemma_square_sum_prefix_le(numbers@, i + 1);
            assert(numbers@.take(i + 1).drop_last() =~= numbers@.take(i as int));
        }
        total = total + square(x);
        i = i + 1;
    }
    assert(numbers@.take(numbers.len() as int) =~= numbers@);
    total
}

/// `rayon`'s parallel `sum` of the squares of `numbers`. Its documentation
/// says that the items are reduced in an unspecified order, which changes the
/// result only where `+` is not associative; on integers it is, so the result
/// is the sum of the squares. Each partial sum is at most the total, so no
/// addition overflows when the total fits.
#[verifier::external_body]
fn rayon_sum_of_squares(numbers: &[u128]) -> (total: u128)
    requires
        square_sum(numbers@) <= u128::MAX,
    ensures
        total == square_sum(numbers@),
{
    numbers.par_iter().map(|x| square(*x)).sum()
}

/// Sums the squares of `numbers` on `rayon`'s thread pool.
pub fn parallel_sum_of_squares(numbers: &[u128]) -> (total: u128)
    requires
        square_sum(numbers@) <= u128::MAX,
    ensures
        total == square_sum(numbers@),
{
    rayon_sum_of_squares(numbers)
}

// ---------------------------------------------------------------------------
// Folds over a range of integers
// ---------------------------------------------------------------------------

/// `lo + (lo + 1) + ... + (hi - 1)`, and 0 when the range is empty.
pub open spec fn range_total(lo: int, hi: int) -> int
    decreases hi - lo,
{
    if hi <= lo {
        0
    } else {
        range_total(lo, hi - 1) + (hi - 1)
    }
}

/// Gauss: `1 + 2 + ... + n == n * (n + 1) / 2`.
pub proof fn lemma_range_total_closed_form(n: nat)
    ensures
        2 * range_total(1, n + 1 as int) == n * (n + 1),
    decreases n,
{
    if n > 0 {
        let m = (n - 1) as nat;
        lemma_range_total_closed_form(m);
        assert(range_total(1, n + 1 as int) == range_total(1, m + 1 as int) + n);
        assert(n * (n + 1) == m * (m + 1) + 2 * n) by (nonlinear_arith)
            requires
                m + 1 == n,
        ;
    } else {
        assert(n * (n + 1) == 0) by (nonlinear_arith)
            requires
                n == 0,
        ;
    }
}

/// Whether every running total of the fold over `lo..hi` is an `i32`.
pub open spec fn range_totals_fit(lo: int, hi: int) -> bool {
    forall|k: int| lo <= k <= hi ==> fits_i32(#[trigger] range_total(lo, k))
}

/// Folds `lo..hi` with `+`, starting from 0.
pub fn range_sum(lo: i32, hi: i32) -> (total: i32)
    requires
        range_totals_fit(lo as int, hi as int),
    ensures
        total == range_total(lo as int, hi as int),
{
    if hi <= lo {
        return 0;
    }
    let mut total: i32 = 0;
    let mut b: i32 = lo;
    while b < hi
        invariant
            lo <= b <= hi,
            total == range_total(lo as int, b as int),
            range_totals_fit(lo as int, hi as int),
        decreases hi - b,
    {
        assert(fits_i32(range_total(lo as int, b + 1)));
        total = total + b;
        b = b + 1;
    }
    total
}

/// The steps of the fold over `lo..hi` with `+` from 0: for each item `b`,
/// the running total `a` before it, `b`, and `a + b`.
pub fn fold_steps(lo: i32, hi: i32) -> (steps: Vec<(i32, i32, i32)>)
    requires
        range_totals_fit(lo as int, hi as int),
    ensures
        steps.len() == (if lo < hi { hi - lo } else { 0 }),
        forall|k: int|
            0 <= k < steps.len() ==> #[trigger] steps@[k] == (
                range_total(lo as int, lo + k) as i32,
                (lo + k) as i32,
                range_total(lo as int, lo + k + 1) as i32,
            ),
{
    let mut steps: Vec<(i32, i32, i32)> = Vec::new();
    if hi <= lo {
        return steps;
    }
    let mut total: i32 = 0;
    let mut b: i32 = lo;
    while b < hi
        invariant
            lo <= b <= hi,
            total == range_total(lo as int, b as int),
            steps.len() == b - lo,
            forall|k: int|
                0 <= k < steps.len() ==> #[trigger] steps@[k] == (
                    range_total(lo as int, lo + k) as i32,
                    (lo + k) as i32,
                    range_total(lo as int, lo + k + 1) as i32,
                ),
            range_totals_fit(lo as int, hi as int),
        decreases hi - b,
    {
        assert(fits_i32(range_total(lo as int, b + 1)));
        let next = total + b;
        steps.push((total, b, next));
        total = next;
        b = b + 1;
    }
    steps
}

// ---------------------------------------------------------------------------
// Sum of items shifted by an offset
// ---------------------------------------------------------------------------

/// The sum of `x + offset` over the items `x` of `s`.
pub open spec fn offset_total(s: Seq<i32>, offset: i32) -> int
    decreases s.len(),
{
    if s.len() == 0 {
        0
    } else {
        offset_total(s.drop_last(), offset) + (s.last() + offset)
    }
}

/// Sums `x + offset` over `values`, in order.
pub fn offset_sum(values: &[i32], offset: i32) -> (total: i32)
    requires
        forall|i: int| 0 <= i < values.len() ==> fits_i32(values[i] + offset),
        forall|k: int|
            0 <= k <= values.len() ==> fits_i32(#[trigger] offset_total(values@.take(k), offset)),
    ensures
        total == offset_total(values@, offset),
{
    let mut total: i32 = 0;
    let mut i: usize = 0;
    while i < values.len()
        invariant
            i <= values.len(),
            total == offset_total(values@.take(i as int), offset),
            forall|i: int| 0 <= i < values.len() ==> fits_i32(values[i] + offset),
            forall|k: int|
                0 <= k <= values.len() ==> fits_i32(
                    #[trigger] offset_total(values@.take(k), offset),
                ),
        decreases values.len() - i,
    {
        assert(values@.take(i + 1).drop_last() =~= values@.take(i as int));
        assert(fits_i32(offset_total(values@.take(i + 1), offset)));
        let shifted = values[i] + offset;
        total = total + shifted;
        i = i + 1;
    }
    assert(values@.take(values.len() as int) =~= values@);
    total
}

// ---------------------------------------------------------------------------
// Checked sum of doubled items
// ---------------------------------------------------------------------------

/// Whether `x + x` is an `i32`.
pub open spec fn double_fits(x: i32) -> bool {
    fits_i32(x + x)
}

/// Whether every item of `s` can be doubled.
pub open spec fn all_doubles_fit(s: Seq<i32>) -> bool {
    forall|j: int| 0 <= j < s.len() ==> double_fits(#[trigger] s[j])
}

/// The sum of `x + x` over the items `x` of `s`.
pub open spec fn double_total(s: Seq<i32>) -> int
    decreases s.len(),
{
    if s.len() == 0 {
        0
    } else {
        double_total(s.drop_last()) + (s.last() + s.last())
    }
}

/// Whether the running total stays an `i32` over every prefix whose items
/// can all be doubled: those are the prefixes that get summed before the
/// first item that cannot.
pub open spec fn double_totals_fit(s: Seq<i32>) -> bool {
    forall|k: int|
        0 <= k <= s.len() && all_doubles_fit(s.take(k)) ==> fits_i32(
            #[trigger] double_total(s.take(k)),
        )
}

/// The plain sum of the items of `s`.
pub open spec fn item_total(s: Seq<i32>) -> int
    decreases s.len(),
{
    if s.len() == 0 {
        0
    } else {
        item_total(s.drop_last()) + s.last()
    }
}

/// An item can be doubled exactly when `x + x` lies within `i32`, whatever
/// its sign.
pub proof fn lemma_double_fits_exactly(x: i32)
    ensures
        double_fits(x) <==> (i32::MIN <= x + x && x + x <= i32::MAX),
{
}

/// The sum of the doubles is twice the sum of the items.
pub proof fn lemma_double_total_is_twice_sum(s: Seq<i32>)
    ensures
        double_total(s) == 2 * item_total(s),
    decreases s.len(),
{
    if s.len() > 0 {
        lemma_double_total_is_twice_sum(s.drop_last());
    }
}

/// Doubles every item with `checked_add` and sums the doubles; the first item
/// whose double overflows makes the result `Err("overflow")`.
pub fn sum_of_doubles(nums: &[i32]) -> (res: Result<i32, &'static str>)
    requires
        double_totals_fit(nums@),
    ensures
        match res {
            Ok(total) => all_doubles_fit(nums@) && total == double_total(nums@),
            Err(msg) => !all_doubles_fit(nums@) && msg@ == "overflow"@,
        },
        res is Err <==> exists|j: int|
            0 <= j < nums.len() && !(i32::MIN <= #[trigger] nums[j] + nums[j] <= i32::MAX),
        res matches Ok(total) ==> total == 2 * item_total(nums@),
{
    let mut total: i32 = 0;
    let mut i: usize = 0;
    while i < nums.len()
        invariant
            i <= nums.len(),
            all_doubles_fit(nums@.take(i as int)),
            total == double_total(nums@.take(i as int)),
            double_totals_fit(nums@),
        decreases nums.len() - i,
    {
        let x = nums[i];
        match x.checked_add(x) {
            None => {
                assert(!double_fits(nums@[i as int]));
                assert(!(i32::MIN <= nums[i as int] + nums[i as int] <= i32::MAX));
                return Err("overflow");
            },
            Some(d) => {
                assert(nums@.take(i + 1).drop_last() =~= nums@.take(i as int));
                assert(all_doubles_fit(nums@.take(i + 1))) by {
                    assert forall|j: int| 0 <= j < i + 1 implies double_fits(
                        #[trigger] nums@.take(i + 1)[j],
                    ) by {
                        if j < i {
                            assert(nums@.take(i + 1)[j] == nums@.take(i as int)[j]);
                        }
                    }
                }
                assert(fits_i32(double_total(nums@.take(i + 1))));
                total = total + d;
            },
        }
        i = i + 1;
    }
    assert(nums@.take(nums.len() as int) =~= nums@);
    proof {
        lemma_double_total_is_twice_sum(nums@);
        assert forall|j: int| 0 <= j < nums.len() implies (i32::MIN <= #[trigger] nums[j]
            + nums[j] <= i32::MAX) by {
            assert(double_fits(nums@[j]));
        }
    }
    Ok(total)
}

// ---------------------------------------------------------------------------
// Squares of the first even items
// ---------------------------------------------------------------------------

/// How many even items [`even_sum_squares`] takes.
pub const EVEN_SQUARES_TAKEN: usize = 5;

/// The sum of the squares of the first `remaining` even items of `s`.
pub open spec fn even_squares_total(s: Seq<u64>, remaining: nat) -> nat
    decreases s.len(),
{
    if s.len() == 0 || remaining == 0 {
        0
    } else if s[0] % 2 == 0 {
        (s[0] as nat) * (s[0] as nat) + even_squares_total(s.drop_first(), (remaining - 1) as nat)
    } else {
        even_squares_total(s.drop_first(), remaining)
    }
}

/// The predicate "is even".
pub open spec fn even_pred() -> spec_fn(u64) -> bool {
    |x: u64| x % 2 == 0
}

/// The even items of `s`, in order.
pub open spec fn evens(s: Seq<u64>) -> Seq<u64> {
    s.filter(even_pred())
}

/// The sum of the squares of all the items of `t`.
pub open spec fn squares_total(t: Seq<u64>) -> nat
    decreases t.len(),
{
    if t.len() == 0 {
        0
    } else {
        (t[0] as nat) * (t[0] as nat) + squares_total(t.drop_first())
    }
}

/// The smaller of two naturals.
pub open spec fn min_nat(a: nat, b: nat) -> nat {
    if a <= b {
        a
    } else {
        b
    }
}

/// Squaring the items of `x` followed by `t` adds the square of `x`.
proof fn lemma_squares_total_prepend(x: u64, t: Seq<u64>)
    ensures
        squares_total(seq![x] + t) == (x as nat) * (x as nat) + squares_total(t),
{
    assert((seq![x] + t).drop_first() =~= t);
}

/// Odd items never count toward the quota: summing the squares of the first
/// `r` even items is summing the squares of the first `min(r, #evens)` items
/// of the sequence with its odd items filtered out.
pub proof fn lemma_even_squares_are_filtered_prefix(s: Seq<u64>, r: nat)
    ensures
        even_squares_total(s, r) == squares_total(
            evens(s).take(min_nat(r, evens(s).len()) as int),
        ),
    decreases s.len(),
{
    let p = even_pred();
    if s.len() == 0 {
        reveal(Seq::filter);
        assert(evens(s).take(0) =~= Seq::<u64>::empty());
    } else {
        let x = s[0];
        let t = s.drop_first();
        assert(s =~= seq![x] + t);
        t.lemma_filter_prepend(x, p);
        lemma_even_squares_are_filtered_prefix(t, r);
        if r == 0 {
            assert(evens(s).take(0) =~= Seq::<u64>::empty());
        } else if x % 2 == 0 {
            lemma_even_squares_are_filtered_prefix(t, (r - 1) as nat);
            assert(evens(s) =~= seq![x] + evens(t));
            let k = min_nat((r - 1) as nat, evens(t).len());
            assert(min_nat(r, evens(s).len()) == k + 1);
            assert(evens(s).take(k + 1 as int) =~= seq![x] + evens(t).take(k as int));
            lemma_squares_total_prepend(x, evens(t).take(k as int));
        } else {
            assert(evens(s) =~= evens(t));
        }
    }
}

/// Putting an odd item in front of the values leaves the sum of the squares
/// of the first `r` even items unchanged.
pub proof fn lemma_odd_item_in_front_ignored(s: Seq<u64>, odd: u64, r: nat)
    requires
        odd % 2 == 1,
    ensures
        even_squares_total(seq![odd] + s, r) == even_squares_total(s, r),
{
    s.lemma_filter_prepend(odd, even_pred());
    assert(evens(seq![odd] + s) =~= evens(s));
    lemma_even_squares_are_filtered_prefix(seq![odd] + s, r);
    lemma_even_squares_are_filtered_prefix(s, r);
}

/// Walks `values` in order, skips the odd ones, and sums the squares of the
/// even ones until [`EVEN_SQUARES_TAKEN`] of them have been summed.
pub fn even_sum_squares(values: &[u64]) -> (total: u64)
    requires
        even_squares_total(values@, EVEN_SQUARES_TAKEN as nat) <= u64::MAX,
    ensures
        total == even_squares_total(values@, EVEN_SQUARES_TAKEN as nat),
        total == squares_total(
            evens(values@).take(min_nat(EVEN_SQUARES_TAKEN as nat, evens(values@).len()) as int),
        ),
{
    let mut total: u64 = 0;
    let mut count: usize = 0;
    let mut i: usize = 0;
    assert(values@.skip(0) =~= values@);
    while i < values.len() && count < EVEN_SQUARES_TAKEN
        invariant
            i <= values.len(),
            count <= EVEN_SQUARES_TAKEN,
            total + even_squares_total(values@.skip(i as int), (EVEN_SQUARES_TAKEN - count) as nat)
                == even_squares_total(values@, EVEN_SQUARES_TAKEN as nat),
            even_squares_total(values@, EVEN_SQUARES_TAKEN as nat) <= u64::MAX,
        decreases values.len() - i,
    {
        let v = values[i];
        assert(values@.skip(i as int).drop_first() =~= values@.skip(i + 1));
        assert(values@.skip(i as int)[0] == v);
        if v % 2 == 0 {
            total = total + v * v;
            count = count + 1;
        }
        i = i + 1;
    }
    proof {
        lemma_even_squares_are_filtered_prefix(values@, EVEN_SQUARES_TAKEN as nat);
    }
    total
}

// ---------------------------------------------------------------------------
// First divisor in a range
// ---------------------------------------------------------------------------

/// Whether `d` divides `n`.
pub open spec fn divides(d: u32, n: u32) -> bool {
    n % d == 0
}

/// `k` times `d`.
pub open spec fn times(d: u32, k: int) -> int {
    d * k
}

/// A positive `d` divides `n` exactly when `n` is a multiple of `d`.
pub proof fn lemma_divides_iff_multiple(d: u32, n: u32)
    requires
        d > 0,
    ensures
        divides(d, n) <==> exists|k: int| 0 <= k && n == #[trigger] times(d, k),
{
    vstd::arithmetic::div_mod::lemma_fundamental_div_mod(n as int, d as int);
    if divides(d, n) {
        let k = n as int / d as int;
        assert(n == times(d, k));
        assert(0 <= k);
    }
    if exists|k: int| 0 <= k && n == #[trigger] times(d, k) {
        let k = choose|k: int| 0 <= k && n == #[trigger] times(d, k);
        vstd::arithmetic::div_mod::lemma_mod_multiples_basic(k, d as int);
        assert(k * d == d * k) by (nonlinear_arith);
    }
}

/// Every positive number divides itself, and 1 divides every number.
pub proof fn lemma_self_and_one_divide(n: u32)
    ensures
        n > 0 ==> divides(n, n),
        divides(1, n),
{
}

/// Tries `lo, lo + 1, ..., hi - 1` in turn and breaks with the first one that
/// divides `n`; continues through the whole range when none does.
pub fn first_divisor(n: u32, lo: u32, hi: u32) -> (res: ControlFlow<u32, ()>)
    requires
        lo < hi ==> lo > 0,
    ensures
        match res {
            ControlFlow::Break(d) => lo <= d < hi && divides(d, n) && forall|y: u32|
                lo <= y < d ==> !#[trigger] divides(y, n),
            ControlFlow::Continue(_) => forall|y: u32| lo <= y < hi ==> !#[trigger] divides(y, n),
        },
        match res {
            ControlFlow::Break(d) => n % d == 0 && forall|y: u32|
                lo <= y < d ==> #[trigger] divides(y, n) == false && n % y != 0,
            ControlFlow::Continue(_) => forall|y: u32|
                lo <= y < hi ==> #[trigger] divides(y, n) == false && n % y != 0,
        },
{
    let mut x: u32 = lo;
    while x < hi
        invariant
            lo <= x,
            lo < hi ==> lo > 0,
            forall|y: u32| lo <= y < x ==> !#[trigger] divides(y, n),
        decreases hi - x,
    {
        if n % x == 0 {
            return ControlFlow::Break(x);
        }
        x = x + 1;
    }
    ControlFlow::Continue(())
}

} // verus!
