//! Shared fixed-point domain and arithmetic helpers.
//!
//! Every indicator in this crate works on integer fixed-point numbers:
//! prices and volumes are caller-scaled integers in `[0, PRICE_MAX]`, and
//! percent-style indicator values (DI, DX, ADX, MFI, Williams %R, thresholds,
//! acceleration factors) carry `SCALE` fixed-point units per whole unit, so
//! that the value one hundred is `HUNDRED`. All divisions are taken on
//! non-negative operands, where Rust's truncating division and Euclidean
//! division agree, and every contract states the exact quotient.

use vstd::prelude::*;

verus! {

/// Largest accepted price or volume, in the caller's integer scale.
pub const PRICE_MAX: i64 = 1_000_000_000_000;

/// Largest accepted smoothing-window length.
pub const PERIOD_MAX: usize = 1_000_000;

/// Fixed-point scale of indicator values: one whole unit is `SCALE`.
pub const SCALE: i64 = 1_000_000;

/// The value one hundred in indicator fixed point.
pub const HUNDRED: i64 = 100 * SCALE;

/// A price or volume the validators accept.
pub open spec fn valid_price(p: i64) -> bool {
    0 <= p <= PRICE_MAX
}

/// A window length the validators accept.
pub open spec fn valid_period(p: usize) -> bool {
    1 <= p <= PERIOD_MAX
}

/// An `Option<i64>` lifted to mathematical integers.
pub open spec fn opt_int(o: Option<i64>) -> Option<int> {
    match o {
        Some(v) => Some(v as int),
        None => None,
    }
}

/// Wilder's recursive smoothing on mathematical integers:
/// `(prev * (period - 1) + cur) / period`, rounded toward minus infinity.
pub open spec fn spec_wilder(prev: int, cur: int, period: int) -> int {
    (prev * (period - 1) + cur) / period
}

/// A quotient of non-negative numbers is non-negative and monotone in the
/// numerator, and a numerator no larger than `bound * den` caps it at `bound`.
pub proof fn lemma_div_nonneg_bound(num: int, den: int, bound: int)
    requires
        0 <= num,
        0 < den,
        0 <= bound,
        num <= bound * den,
    ensures
        0 <= num / den <= bound,
{
    vstd::arithmetic::div_mod::lemma_div_pos_is_pos(num, den);
    vstd::arithmetic::div_mod::lemma_div_is_ordered(num, bound * den, den);
    vstd::arithmetic::div_mod::lemma_div_by_multiple(bound, den);
}

/// Wilder smoothing of two values stays between zero and their maximum.
pub proof fn lemma_wilder_bounds(prev: int, cur: int, period: int)
    requires
        0 <= prev,
        0 <= cur,
        1 <= period,
    ensures
        0 <= spec_wilder(prev, cur, period) <= vstd::math::max(prev, cur),
{
    let m = vstd::math::max(prev, cur);
    assert(prev * (period - 1) + cur <= m * period) by (nonlinear_arith)
        requires
            0 <= prev <= m,
            0 <= cur <= m,
            1 <= period,
    ;
    lemma_div_nonneg_bound(prev * (period - 1) + cur, period, m);
}

/// Wilder smoothing is monotone in both smoothed arguments.
pub proof fn lemma_wilder_monotone(prev_a: int, cur_a: int, prev_b: int, cur_b: int, period: int)
    requires
        prev_a <= prev_b,
        cur_a <= cur_b,
        1 <= period,
    ensures
        spec_wilder(prev_a, cur_a, period) <= spec_wilder(prev_b, cur_b, period),
{
    assert(prev_a * (period - 1) <= prev_b * (period - 1)) by (nonlinear_arith)
        requires
            prev_a <= prev_b,
            1 <= period,
    ;
    vstd::arithmetic::div_mod::lemma_div_is_ordered(
        prev_a * (period - 1) + cur_a,
        prev_b * (period - 1) + cur_b,
        period,
    );
}

/// Exact exec counterpart of `spec_wilder` on non-negative operands.
pub(crate) fn wilder_smooth(prev: i64, cur: i64, period: usize) -> (r: i64)
    requires
        0 <= prev,
        0 <= cur,
        valid_period(period),
    ensures
        r == spec_wilder(prev as int, cur as int, period as int),
        0 <= r <= vstd::math::max(prev as int, cur as int),
{
    proof {
        lemma_wilder_bounds(prev as int, cur as int, period as int);
    }
    let pu: u128 = period as u128;
    let pv: u128 = prev as u128;
    let cv: u128 = cur as u128;
    proof {
        vstd::arithmetic::mul::lemma_mul_upper_bound(
            pv as int,
            0x8000000000000000,
            pu as int - 1,
            0x100000000,
        );
    }
    let num: u128 = pv * (pu - 1) + cv;
    let q: u128 = num / pu;
    q as i64
}

/// Exact exec counterpart of `num * HUNDRED / den` for `0 <= num <= den`.
/// This is the shape of every DI/DX/MFI/Williams-%R style ratio.
pub(crate) fn scaled_ratio(num: i64, den: i64) -> (r: i64)
    requires
        0 <= num <= den,
        0 < den,
    ensures
        r == HUNDRED * num / (den as int),
        0 <= r <= HUNDRED,
{
    proof {
        assert(HUNDRED * num <= HUNDRED * den) by (nonlinear_arith)
            requires
                num <= den,
                0 < HUNDRED,
        ;
        vstd::arithmetic::mul::lemma_mul_nonnegative(HUNDRED as int, num as int);
        lemma_div_nonneg_bound(HUNDRED * num, den as int, HUNDRED as int);
    }
    proof {
        vstd::arithmetic::mul::lemma_mul_upper_bound(
            HUNDRED as int,
            0x100000000,
            num as int,
            0x8000000000000000,
        );
    }
    let numerator: u128 = (HUNDRED as u128) * (num as u128);
    let q: u128 = numerator / (den as u128);
    q as i64
}

/// Exact exec counterpart of `af * diff / SCALE`, the acceleration step of a
/// parabolic stop: a fraction `af / SCALE <= 1` of a non-negative distance.
pub(crate) fn af_fraction(af: i64, diff: i64) -> (r: i64)
    requires
        0 <= af <= SCALE,
        0 <= diff <= PRICE_MAX,
    ensures
        r == af * diff / (SCALE as int),
        0 <= r <= diff,
{
    proof {
        vstd::arithmetic::mul::lemma_mul_nonnegative(af as int, diff as int);
        assert(af * diff <= SCALE * diff) by (nonlinear_arith)
            requires
                0 <= af <= SCALE,
                0 <= diff,
        ;
        assert(diff * SCALE == SCALE * diff) by (nonlinear_arith);
        lemma_div_nonneg_bound(af * diff, SCALE as int, diff as int);
        vstd::arithmetic::mul::lemma_mul_upper_bound(
            af as int,
            SCALE as int,
            diff as int,
            PRICE_MAX as int,
        );
    }
    (((af as u64) * (diff as u64)) / (SCALE as u64)) as i64
}

/// Truncating division of non-negative `i64` values.
pub(crate) fn div_nonneg(num: i64, den: i64) -> (r: i64)
    requires
        0 <= num,
        0 < den,
    ensures
        r == num as int / den as int,
        0 <= r <= num,
{
    proof {
        vstd::arithmetic::div_mod::lemma_div_pos_is_pos(num as int, den as int);
        vstd::arithmetic::div_mod::lemma_div_nonincreasing(num as int, den as int);
    }
    ((num as u64) / (den as u64)) as i64
}

/// Sum of a sequence of integers.
pub open spec fn seq_sum(s: Seq<int>) -> int
    decreases s.len(),
{
    if s.len() == 0 {
        0
    } else {
        seq_sum(s.drop_last()) + s.last()
    }
}

/// Extending a prefix sum by one element.
pub proof fn lemma_seq_sum_extend(s: Seq<int>, j: int)
    requires
        0 <= j < s.len(),
    ensures
        seq_sum(s.subrange(0, j + 1)) == seq_sum(s.subrange(0, j)) + s[j],
{
    let a = s.subrange(0, j + 1);
    assert(a.drop_last() =~= s.subrange(0, j));
    assert(a.last() == s[j]);
}

/// A sequence of values in `[0, bound]` sums to at most `len * bound`.
pub proof fn lemma_seq_sum_bounds(s: Seq<int>, bound: int)
    requires
        forall|j: int| 0 <= j < s.len() ==> 0 <= #[trigger] s[j] <= bound,
    ensures
        0 <= seq_sum(s) <= s.len() * bound,
    decreases s.len(),
{
    if s.len() == 0 {
    } else {
        let d = s.drop_last();
        assert(forall|j: int| 0 <= j < d.len() ==> 0 <= #[trigger] d[j] <= bound);
        lemma_seq_sum_bounds(d, bound);
        assert(seq_sum(s) == seq_sum(d) + s.last());
        assert(d.len() * bound + bound == s.len() * bound) by (nonlinear_arith)
            requires
                d.len() + 1 == s.len(),
        ;
    }
}


/// Largest element of a non-empty sequence of integers.
pub open spec fn seq_max(s: Seq<int>) -> int
    recommends
        s.len() > 0,
    decreases s.len(),
{
    if s.len() <= 1 {
        s[0]
    } else {
        vstd::math::max(seq_max(s.drop_last()), s.last())
    }
}

/// Smallest element of a non-empty sequence of integers.
pub open spec fn seq_min(s: Seq<int>) -> int
    recommends
        s.len() > 0,
    decreases s.len(),
{
    if s.len() <= 1 {
        s[0]
    } else {
        vstd::math::min(seq_min(s.drop_last()), s.last())
    }
}

/// Extending a prefix maximum by one element.
pub proof fn lemma_seq_max_extend(s: Seq<int>, j: int)
    requires
        1 <= j < s.len(),
    ensures
        seq_max(s.subrange(0, j + 1)) == vstd::math::max(seq_max(s.subrange(0, j)), s[j]),
{
    let a = s.subrange(0, j + 1);
    assert(a.drop_last() =~= s.subrange(0, j));
    assert(a.last() == s[j]);
}

/// Extending a prefix minimum by one element.
pub proof fn lemma_seq_min_extend(s: Seq<int>, j: int)
    requires
        1 <= j < s.len(),
    ensures
        seq_min(s.subrange(0, j + 1)) == vstd::math::min(seq_min(s.subrange(0, j)), s[j]),
{
    let a = s.subrange(0, j + 1);
    assert(a.drop_last() =~= s.subrange(0, j));
    assert(a.last() == s[j]);
}

/// The maximum bounds every element and is one of them; the minimum likewise.
pub proof fn lemma_seq_max_min_bounds(s: Seq<int>)
    requires
        s.len() > 0,
    ensures
        forall|j: int| 0 <= j < s.len() ==> #[trigger] s[j] <= seq_max(s),
        forall|j: int| 0 <= j < s.len() ==> #[trigger] s[j] >= seq_min(s),
        exists|j: int| 0 <= j < s.len() && s[j] == seq_max(s),
        exists|j: int| 0 <= j < s.len() && s[j] == seq_min(s),
    decreases s.len(),
{
    if s.len() == 1 {
        assert(s[0] == seq_max(s));
        assert(s[0] == seq_min(s));
    } else {
        let d = s.drop_last();
        lemma_seq_max_min_bounds(d);
        assert(forall|j: int| 0 <= j < d.len() ==> #[trigger] s[j] == d[j]);
        if seq_max(s) == s.last() {
            assert(s[s.len() - 1] == seq_max(s));
        } else {
            let w = choose|j: int| 0 <= j < d.len() && d[j] == seq_max(d);
            assert(s[w] == seq_max(s));
        }
        if seq_min(s) == s.last() {
            assert(s[s.len() - 1] == seq_min(s));
        } else {
            let w = choose|j: int| 0 <= j < d.len() && d[j] == seq_min(d);
            assert(s[w] == seq_min(s));
        }
    }
}


/// Removing the head of a sequence removes its value from the sum.
pub proof fn lemma_seq_sum_pop_front(s: Seq<int>)
    requires
        s.len() > 0,
    ensures
        seq_sum(s.subrange(1, s.len() as int)) == seq_sum(s) - s[0],
    decreases s.len(),
{
    if s.len() == 1 {
        assert(s.subrange(1, 1) =~= Seq::<int>::empty());
        assert(s.drop_last() =~= Seq::<int>::empty());
    } else {
        let t = s.subrange(1, s.len() as int);
        let d = s.drop_last();
        lemma_seq_sum_pop_front(d);
        assert(t.drop_last() =~= d.subrange(1, d.len() as int));
        assert(t.last() == s.last());
        assert(d[0] == s[0]);
    }
}

/// Sum of absolute deviations of a sequence from a centre value.
pub open spec fn seq_dev_sum(s: Seq<int>, c: int) -> int
    decreases s.len(),
{
    if s.len() == 0 {
        0
    } else {
        seq_dev_sum(s.drop_last(), c) + vstd::math::abs(s.last() - c)
    }
}

/// Extending a prefix deviation sum by one element.
pub proof fn lemma_seq_dev_sum_extend(s: Seq<int>, c: int, j: int)
    requires
        0 <= j < s.len(),
    ensures
        seq_dev_sum(s.subrange(0, j + 1), c) == seq_dev_sum(s.subrange(0, j), c) + vstd::math::abs(
            s[j] - c,
        ),
{
    let a = s.subrange(0, j + 1);
    assert(a.drop_last() =~= s.subrange(0, j));
    assert(a.last() == s[j]);
}

/// Deviations of values in `[0, hi]` from a centre in `[0, hi]` sum to at
/// most `len * hi`.
pub proof fn lemma_seq_dev_sum_bounds(s: Seq<int>, c: int, hi: int)
    requires
        0 <= c <= hi,
        forall|j: int| 0 <= j < s.len() ==> 0 <= #[trigger] s[j] <= hi,
    ensures
        0 <= seq_dev_sum(s, c) <= s.len() * hi,
    decreases s.len(),
{
    if s.len() == 0 {
    } else {
        let d = s.drop_last();
        assert(forall|j: int| 0 <= j < d.len() ==> 0 <= #[trigger] d[j] <= hi);
        lemma_seq_dev_sum_bounds(d, c, hi);
        assert(vstd::math::abs(s.last() - c) <= hi);
        assert(d.len() * hi + hi == s.len() * hi) by (nonlinear_arith)
            requires
                d.len() + 1 == s.len(),
        ;
    }
}


/// Largest money-flow sum the MFI ratio helper accepts: a full window of
/// maximal price-volume products.
pub const FLOW_SUM_MAX: i128 = 1_000_000_000_000_000_000_000_000_000_000;

/// Exact exec counterpart of `num * HUNDRED / den` on 128-bit money-flow
/// sums, for `0 <= num <= den`.
pub(crate) fn scaled_ratio_i128(num: i128, den: i128) -> (r: i64)
    requires
        0 <= num <= den,
        0 < den,
        den <= 2 * FLOW_SUM_MAX,
    ensures
        r == HUNDRED * num / (den as int),
        0 <= r <= HUNDRED,
{
    proof {
        assert(HUNDRED * num <= HUNDRED * den) by (nonlinear_arith)
            requires
                num <= den,
                0 < HUNDRED,
        ;
        vstd::arithmetic::mul::lemma_mul_nonnegative(HUNDRED as int, num as int);
        lemma_div_nonneg_bound(HUNDRED * num, den as int, HUNDRED as int);
        vstd::arithmetic::mul::lemma_mul_upper_bound(
            HUNDRED as int,
            HUNDRED as int,
            num as int,
            2 * FLOW_SUM_MAX as int,
        );
    }
    let numerator: u128 = (HUNDRED as u128) * (num as u128);
    let q: u128 = numerator / (den as u128);
    q as i64
}


/// The integer square root: the largest `r` with `r * r <= v`.
pub open spec fn spec_isqrt(v: int) -> int
    decreases v,
{
    if v <= 0 {
        0
    } else {
        let r = spec_isqrt(v - 1);
        if (r + 1) * (r + 1) <= v {
            r + 1
        } else {
            r
        }
    }
}

/// The integer square root brackets its argument between consecutive squares.
pub proof fn lemma_isqrt_bounds(v: int)
    requires
        0 <= v,
    ensures
        0 <= spec_isqrt(v),
        spec_isqrt(v) * spec_isqrt(v) <= v,
        (spec_isqrt(v) + 1) * (spec_isqrt(v) + 1) > v,
    decreases v,
{
    if v == 0 {
    } else {
        lemma_isqrt_bounds(v - 1);
        let r = spec_isqrt(v - 1);
        if (r + 1) * (r + 1) <= v {
            assert((r + 2) * (r + 2) > v) by (nonlinear_arith)
                requires
                    (r + 1) * (r + 1) > v - 1,
                    0 <= r,
            ;
        }
    }
}

/// Any value bracketed between consecutive squares is the integer square
/// root.
pub proof fn lemma_isqrt_unique(v: int, r: int)
    requires
        0 <= v,
        0 <= r,
        r * r <= v,
        (r + 1) * (r + 1) > v,
    ensures
        r == spec_isqrt(v),
{
    lemma_isqrt_bounds(v);
    let s = spec_isqrt(v);
    if r < s {
        assert((r + 1) * (r + 1) <= s * s) by (nonlinear_arith)
            requires
                0 <= r + 1 <= s,
        ;
    }
    if s < r {
        assert((s + 1) * (s + 1) <= r * r) by (nonlinear_arith)
            requires
                0 <= s + 1 <= r,
        ;
    }
}

/// Exact exec integer square root by bisection, for the variance range.
pub(crate) fn isqrt_i128(v: i128) -> (r: i64)
    requires
        0 <= v <= 100_000_000_000_000_000_000_000_000,
    ensures
        r == spec_isqrt(v as int),
        0 <= r,
        r * r <= v,
        (r + 1) * (r + 1) > v,
{
    let vu: u128 = v as u128;
    let mut lo: u128 = 0;
    let mut hi: u128 = 10_000_000_000_000;
    proof {
        assert((hi + 1) * (hi + 1) > vu) by (nonlinear_arith)
            requires
                hi == 10_000_000_000_000u128,
                vu <= 100_000_000_000_000_000_000_000_000u128,
        ;
    }
    while lo < hi
        invariant
            0 <= lo <= hi <= 10_000_000_000_000,
            vu == v,
            lo * lo <= vu,
            (hi + 1) * (hi + 1) > vu,
        decreases hi - lo,
    {
        let mid: u128 = lo + (hi - lo + 1) / 2;
        proof {
            assert(lo < mid <= hi) by (nonlinear_arith)
                requires
                    lo < hi,
                    mid == lo + (hi - lo + 1) / 2,
                    (hi - lo + 1) / 2 >= 0,
                    hi - lo + 1 >= 2,
                    (hi - lo + 1) / 2 <= hi - lo,
                    (hi - lo + 1) / 2 >= 1,
            ;
            assert(mid * mid <= 100_000_000_000_000_000_000_000_000u128) by (nonlinear_arith)
                requires
                    0 <= mid <= 10_000_000_000_000u128,
            ;
        }
        if mid * mid <= vu {
            lo = mid;
        } else {
            hi = mid - 1;
        }
    }
    proof {
        lemma_isqrt_unique(v as int, lo as int);
    }
    lo as i64
}

/// Sum of squared deviations of a sequence from a centre value.
pub open spec fn seq_sq_dev_sum(s: Seq<int>, c: int) -> int
    decreases s.len(),
{
    if s.len() == 0 {
        0
    } else {
        seq_sq_dev_sum(s.drop_last(), c) + (s.last() - c) * (s.last() - c)
    }
}

/// Extending a prefix squared-deviation sum by one element.
pub proof fn lemma_seq_sq_dev_sum_extend(s: Seq<int>, c: int, j: int)
    requires
        0 <= j < s.len(),
    ensures
        seq_sq_dev_sum(s.subrange(0, j + 1), c) == seq_sq_dev_sum(s.subrange(0, j), c) + (s[j] - c)
            * (s[j] - c),
{
    let a = s.subrange(0, j + 1);
    assert(a.drop_last() =~= s.subrange(0, j));
    assert(a.last() == s[j]);
}

/// Squared deviations of values in `[0, hi]` from a centre in `[0, hi]` sum
/// to at most `len * hi * hi`.
pub proof fn lemma_seq_sq_dev_sum_bounds(s: Seq<int>, c: int, hi: int)
    requires
        0 <= c <= hi,
        forall|j: int| 0 <= j < s.len() ==> 0 <= #[trigger] s[j] <= hi,
    ensures
        0 <= seq_sq_dev_sum(s, c) <= s.len() * (hi * hi),
    decreases s.len(),
{
    if s.len() == 0 {
    } else {
        let d = s.drop_last();
        assert(forall|j: int| 0 <= j < d.len() ==> 0 <= #[trigger] d[j] <= hi);
        lemma_seq_sq_dev_sum_bounds(d, c, hi);
        assert(0 <= (s.last() - c) * (s.last() - c) <= hi * hi) by (nonlinear_arith)
            requires
                0 <= s.last() <= hi,
                0 <= c <= hi,
        ;
        assert(d.len() * (hi * hi) + hi * hi == s.len() * (hi * hi)) by (nonlinear_arith)
            requires
                d.len() + 1 == s.len(),
        ;
    }
}

/// The squares of a sequence, element for element.
pub open spec fn spec_squares(s: Seq<int>) -> Seq<int> {
    s.map_values(|x: int| x * x)
}

} // verus!
