//! Fixed-point arithmetic behind the rating algorithm.
//!
//! Expected scores are held as integers scaled by [`SCALE`] (2^32): the value
//! `SCALE` stands for an expected score of 1, `SCALE / 2` for one half.  The
//! logistic term `10^(d/800)` is approximated by an integer Taylor expansion
//! of `exp(d * ln(10) / 800)`; the spec functions below define that expansion
//! exactly, and the executable code is proved to compute it.  Everything after
//! that point — observed score, K-factor weighting, truncation toward zero —
//! is exact rational arithmetic.

use vstd::prelude::*;
use vstd::arithmetic::div_mod::{
    lemma_basic_div, lemma_div_is_ordered, lemma_div_is_ordered_by_denominator,
    lemma_div_multiples_vanish, lemma_div_plus_one, lemma_div_pos_is_pos,
};
use vstd::arithmetic::mul::lemma_mul_inequality;
use vstd::arithmetic::power::{lemma_pow_increases, pow};

verus! {

/// One whole unit of expected score in fixed-point form (2^32).
pub const SCALE: u64 = 4294967296;

/// `ln(10) * SCALE`, rounded to the nearest integer.
pub const LN10_FIXED: u64 = 9889527671;

/// Number of Taylor terms summed for the exponential (beyond the constant
/// term); term 24 of `exp(ln 10)` is already far below one `SCALE` unit.
pub const EXP_TERMS: u64 = 24;

/// Rating-difference denominator of the logistic formula.
pub const ELO_DIVISOR: u64 = 800;

/// `SCALE * SCALE`, the numerator of the fixed-point logistic quotient.
pub const SCALE_SQUARED: u128 = 18446744073709551616;

/// K-factor applied to both sides when neither is placing.
pub const K_STANDARD: u64 = 100;

/// K-factor applied to a placing side.
pub const K_PLACING: u64 = 200;

/// K-factor applied to an established side whose opponent is placing.
pub const K_OPPOSING_PLACING: u64 = 50;

/// Term `k` of the fixed-point Taylor expansion of `exp(y / SCALE)`:
/// term 0 is `SCALE`, and each further term multiplies by `y / (k * SCALE)`,
/// rounding down at every step.
pub closed spec fn exp_term(y: int, k: nat) -> int
    decreases k,
{
    if k == 0 {
        SCALE as int
    } else {
        exp_term(y, (k - 1) as nat) * y / (k * (SCALE as int))
    }
}

/// Sum of the Taylor terms `0 ..= k` of `exp(y / SCALE)` in fixed point.
pub closed spec fn exp_sum(y: int, k: nat) -> int
    decreases k,
{
    if k == 0 {
        SCALE as int
    } else {
        exp_sum(y, (k - 1) as nat) + exp_term(y, k)
    }
}

/// `10^(n/800) * SCALE` for a fractional exponent `0 <= n < 800`, defined as
/// the fixed-point exponential of `n * ln(10) / 800`.
pub closed spec fn pow10_frac(n: int) -> int {
    exp_sum(n * (LN10_FIXED as int) / (ELO_DIVISOR as int), EXP_TERMS as nat)
}

/// `10^(d/800) * SCALE` for `d >= 0`: the integer power of ten times the
/// fractional part handled by the Taylor expansion.
pub closed spec fn pow10_scaled(d: int) -> int {
    pow10_frac(d % (ELO_DIVISOR as int)) * pow(10, (d / (ELO_DIVISOR as int)) as nat)
}

/// Expected score, times `SCALE`, of the side whose rating is `d` points
/// below its opponent's, for `d >= 0`: `SCALE^2 / (SCALE + SCALE * 10^(d/800))`.
pub closed spec fn underdog_expected(d: int) -> int {
    SCALE_SQUARED as int / ((SCALE as int) + pow10_scaled(d))
}

/// Expected score, times `SCALE`, of a side rated `self_elo` against a side
/// rated `other_elo`.  The two orientations of one duel are exact
/// complements: see [`lemma_expected_complement`].
pub open spec fn expected_of(self_elo: int, other_elo: int) -> int {
    let d = other_elo - self_elo;
    if d >= 0 {
        underdog_expected(d)
    } else {
        SCALE as int - underdog_expected(-d)
    }
}

/// Whether a competitor with the given pre-batch counters is still in its
/// placement period.
pub open spec fn placing_of(total_duels: int, total_days: int) -> bool {
    total_duels < 10 || total_days < 2
}

/// K-factor pair selected from the placement statuses of the two sides.
pub open spec fn k_factors_of(self_placing: bool, other_placing: bool) -> (int, int) {
    if self_placing && other_placing {
        (K_PLACING as int, K_PLACING as int)
    } else if self_placing && !other_placing {
        (K_PLACING as int, K_OPPOSING_PLACING as int)
    } else if !self_placing && other_placing {
        (K_OPPOSING_PLACING as int, K_PLACING as int)
    } else {
        (K_STANDARD as int, K_STANDARD as int)
    }
}

/// Magnitude of an integer.
pub open spec fn abs_of(x: int) -> int {
    if x < 0 {
        -x
    } else {
        x
    }
}

/// Quotient of `n / d` rounded toward zero, the rounding the rating algorithm
/// applies to every fractional delta.
pub open spec fn trunc_div(n: int, d: int) -> int {
    let q = abs_of(n) / abs_of(d);
    if (n < 0) != (d < 0) {
        -q
    } else {
        q
    }
}

/// Clamp of a mathematical integer into the `i32` range.
pub open spec fn clip_i32(x: int) -> int {
    if x > i32::MAX as int {
        i32::MAX as int
    } else if x < i32::MIN as int {
        i32::MIN as int
    } else {
        x
    }
}

/// Raw (untruncated numerator/denominator) rating delta of one side: the
/// K-factor times the difference between observed score `ps / (ps + po)` and
/// expected score `e / SCALE`, truncated toward zero.
pub open spec fn raw_delta_of(k: int, ps: int, po: int, e: int) -> int {
    trunc_div(k * (ps * (SCALE as int) - e * (ps + po)), (ps + po) * (SCALE as int))
}

/// Every Taylor term of the exponential stays within `[0, 3 * SCALE]` when the
/// argument is at most `ln(10)` in fixed point; the first term equals the
/// argument itself.
proof fn lemma_exp_term_bounds(y: int, k: nat)
    requires
        0 <= y <= LN10_FIXED as int,
    ensures
        0 <= exp_term(y, k) <= 3 * (SCALE as int),
        k == 1 ==> exp_term(y, k) == y,
    decreases k,
{
    let s = SCALE as int;
    let l = LN10_FIXED as int;
    if k == 0 {
    } else {
        lemma_exp_term_bounds(y, (k - 1) as nat);
        let prev = exp_term(y, (k - 1) as nat);
        let num = prev * y;
        let den = k * s;
        assert(num >= 0) by (nonlinear_arith)
            requires
                prev >= 0,
                y >= 0,
                num == prev * y,
        ;
        assert(den >= s) by (nonlinear_arith)
            requires
                k >= 1,
                s > 0,
                den == k * s,
        ;
        lemma_div_pos_is_pos(num, den);
        if k == 1 {
            assert(prev == s);
            lemma_div_multiples_vanish(y, s);
            assert(exp_term(y, 1) == s * y / (1 * s));
            assert(s * y / s == y);
        } else if k == 2 {
            assert(prev == y);
            assert(num <= l * l) by (nonlinear_arith)
                requires
                    0 <= y <= l,
                    num == y * y,
            ;
            lemma_div_is_ordered(num, l * l, den);
            assert(l * l / (2 * s) <= 3 * s);
        } else {
            assert(num <= 3 * s * l) by (nonlinear_arith)
                requires
                    0 <= prev <= 3 * s,
                    0 <= y <= l,
                    num == prev * y,
            ;
            lemma_div_is_ordered(num, 3 * s * l, den);
            assert(den >= 3 * s) by (nonlinear_arith)
                requires
                    k >= 3,
                    s > 0,
                    den == k * s,
            ;
            lemma_div_is_ordered_by_denominator(3 * s * l, 3 * s, den);
            lemma_div_multiples_vanish(l, 3 * s);
            assert(3 * s * l / (3 * s) == l);
        }
    }
}

/// The partial Taylor sums grow from `SCALE` by at most `3 * SCALE` per term.
proof fn lemma_exp_sum_bounds(y: int, k: nat)
    requires
        0 <= y <= LN10_FIXED as int,
    ensures
        SCALE as int <= exp_sum(y, k) <= (SCALE as int) * (1 + 3 * k),
    decreases k,
{
    if k == 0 {
    } else {
        lemma_exp_sum_bounds(y, (k - 1) as nat);
        lemma_exp_term_bounds(y, k);
    }
}

/// Fixed-point exponential: sums the first `EXP_TERMS` Taylor terms of
/// `exp(y / SCALE)`, exactly as [`exp_sum`] defines them.
fn exp_fixed(y: u64) -> (r: u64)
    requires
        y <= LN10_FIXED,
    ensures
        r as int == exp_sum(y as int, EXP_TERMS as nat),
        SCALE <= r <= 73 * SCALE,
{
    let mut term: u64 = SCALE;
    let mut sum: u64 = SCALE;
    let mut k: u64 = 1;
    while k <= EXP_TERMS
        invariant
            1 <= k <= EXP_TERMS + 1,
            y <= LN10_FIXED,
            term as int == exp_term(y as int, (k - 1) as nat),
            sum as int == exp_sum(y as int, (k - 1) as nat),
        decreases EXP_TERMS as int + 1 - k as int,
    {
        proof {
            lemma_exp_term_bounds(y as int, (k - 1) as nat);
            lemma_exp_term_bounds(y as int, k as nat);
            lemma_exp_sum_bounds(y as int, (k - 1) as nat);
            lemma_exp_sum_bounds(y as int, k as nat);
        }
        proof {
            assert((term as int) * (y as int) <= 3 * (SCALE as int) * (LN10_FIXED as int))
                by (nonlinear_arith)
                requires
                    0 <= term as int <= 3 * (SCALE as int),
                    0 <= y as int <= LN10_FIXED as int,
            ;
        }
        let prod: u128 = (term as u128) * (y as u128);
        let term2: u128 = prod / ((k as u128) * (SCALE as u128));
        term = term2 as u64;
        sum = sum + term;
        k = k + 1;
    }
    proof {
        lemma_exp_sum_bounds(y as int, EXP_TERMS as nat);
    }
    sum
}

/// `10^q` for exponents small enough to fit comfortably in a `u64`.
fn pow10_small(q: u64) -> (r: u64)
    requires
        q <= 14,
    ensures
        r as int == pow(10, q as nat),
        1 <= r <= 100000000000000,
{
    proof {
        reveal_with_fuel(pow, 16);
    }
    let mut r: u64 = 1;
    let mut i: u64 = 0;
    while i < q
        invariant
            i <= q <= 14,
            r as int == pow(10, i as nat),
            1 <= r <= 100000000000000,
        decreases q - i,
    {
        proof {
            reveal_with_fuel(pow, 16);
            lemma_pow_increases(10, (i + 1) as nat, 14);
        }
        r = r * 10;
        i = i + 1;
    }
    proof {
        reveal_with_fuel(pow, 16);
        lemma_pow_increases(10, q as nat, 14);
    }
    r
}

/// The fractional factor is at least `SCALE` (an exponent of zero) and stays
/// under the coarse bound of `73 * SCALE`.
proof fn lemma_pow10_frac_bounds(n: int)
    requires
        0 <= n < 800,
    ensures
        SCALE as int <= pow10_frac(n) <= 73 * (SCALE as int),
{
    let l = LN10_FIXED as int;
    let y = n * l / 800;
    lemma_div_pos_is_pos(n * l, 800);
    lemma_mul_inequality(n, 799, l);
    lemma_div_is_ordered(n * l, 799 * l, 800);
    assert(799 * l / 800 <= l);
    lemma_exp_sum_bounds(y, EXP_TERMS as nat);
}

/// `SCALE * 10^(d/800)` is at least `SCALE`, and exceeds `SCALE^2` once the
/// integer part of the exponent reaches fifteen.
proof fn lemma_pow10_scaled_bounds(d: int)
    requires
        d >= 0,
    ensures
        pow10_scaled(d) >= SCALE as int,
        d / (ELO_DIVISOR as int) >= 15 ==> pow10_scaled(d) > SCALE_SQUARED as int,
{
    let s = SCALE as int;
    let q = (d / (ELO_DIVISOR as int)) as nat;
    let frac = pow10_frac(d % (ELO_DIVISOR as int));
    lemma_pow10_frac_bounds(d % (ELO_DIVISOR as int));
    lemma_pow_increases(10, 0, q);
    reveal_with_fuel(pow, 16);
    assert(pow(10, 0) == 1);
    assert(frac * pow(10, q) >= s) by (nonlinear_arith)
        requires
            pow(10, q) >= 1,
            frac >= s,
            s > 0,
    ;
    if d / (ELO_DIVISOR as int) >= 15 {
        lemma_pow_increases(10, 15, q);
        assert(pow(10, 15) == 1000000000000000);
        assert(frac * pow(10, q) > SCALE_SQUARED as int) by (nonlinear_arith)
            requires
                pow(10, q) >= 1000000000000000,
                frac >= s,
                s == 4294967296,
                SCALE_SQUARED == 18446744073709551616,
        ;
    }
}

/// Expected score of the lower-rated side of a duel whose rating deficit is
/// `d >= 0`, computed exactly as [`underdog_expected`] defines it.
fn underdog_expected_fixed(d: u64) -> (r: u64)
    requires
        d <= 0x2_0000_0000,
    ensures
        r as int == underdog_expected(d as int),
        r <= 2147483648,
{
    let s = SCALE;
    let q: u64 = d / ELO_DIVISOR;
    let n: u64 = d % ELO_DIVISOR;
    proof {
        lemma_pow10_scaled_bounds(d as int);
    }
    if q >= 15 {
        proof {
            lemma_basic_div(
                SCALE_SQUARED as int,
                (s as int) + pow10_scaled(d as int),
            );
        }
        0
    } else {
        let y: u64 = n * LN10_FIXED / ELO_DIVISOR;
        proof {
            let l = LN10_FIXED as int;
            lemma_div_pos_is_pos(n as int * l, 800);
            lemma_mul_inequality(n as int, 799, l);
            lemma_div_is_ordered(n as int * l, 799 * l, 800);
            assert(799 * l / 800 <= l);
        }
        let p: u64 = exp_fixed(y);
        let t: u64 = pow10_small(q);
        proof {
            assert((p as int) * (t as int) <= 73 * (SCALE as int) * 100000000000000)
                by (nonlinear_arith)
                requires
                    0 <= p as int <= 73 * (SCALE as int),
                    0 <= t as int <= 100000000000000,
            ;
        }
        let x: u128 = (p as u128) * (t as u128);
        let denom: u128 = (s as u128) + x;
        let num: u128 = SCALE_SQUARED;
        proof {
            assert(x as int == pow10_scaled(d as int));
            lemma_div_pos_is_pos(num as int, denom as int);
            lemma_div_is_ordered_by_denominator(num as int, 8589934592, denom as int);
            assert(18446744073709551616int / 8589934592int == 2147483648int);
        }
        let r128: u128 = num / denom;
        r128 as u64
    }
}

/// K-factor pair for the two sides of a duel, from their placement statuses.
pub fn k_factors(self_placing: bool, other_placing: bool) -> (ks: (u64, u64))
    ensures
        ks.0 as int == k_factors_of(self_placing, other_placing).0,
        ks.1 as int == k_factors_of(self_placing, other_placing).1,
{
    match (self_placing, other_placing) {
        (true, true) => (K_PLACING, K_PLACING),
        (true, false) => (K_PLACING, K_OPPOSING_PLACING),
        (false, true) => (K_OPPOSING_PLACING, K_PLACING),
        (false, false) => (K_STANDARD, K_STANDARD),
    }
}

/// Rating delta awarded to one side: K-factor times observed minus expected
/// score, truncated toward zero and clamped into the `i32` range.
pub fn side_delta(k: u64, points_self: i32, points_other: i32, e: u64) -> (d: i32)
    requires
        points_self as int + points_other as int != 0,
        k <= 200,
        e <= SCALE,
    ensures
        d as int == clip_i32(
            raw_delta_of(k as int, points_self as int, points_other as int, e as int),
        ),
{
    let ps: i128 = points_self as i128;
    let po: i128 = points_other as i128;
    let sum: i128 = ps + po;
    proof {
        assert(-9223372036854775808 <= (ps as int) * (SCALE as int) <= 9223372036854775808)
            by (nonlinear_arith)
            requires
                -2147483648 <= ps as int <= 2147483647,
                SCALE == 4294967296,
        ;
    }
    let lhs: i128 = ps * (SCALE as i128);
    proof {
        assert((e as int) * (sum as int) <= 18446744073709551616
            && (e as int) * (sum as int) >= -18446744073709551616) by (nonlinear_arith)
            requires
                0 <= e as int <= 4294967296,
                -4294967296 <= sum as int <= 4294967296,
        ;
    }
    let rhs: i128 = (e as i128) * sum;
    let body: i128 = lhs - rhs;
    proof {
        assert((k as int) * (body as int) <= 200 * 27670116110564327424
            && (k as int) * (body as int) >= 200 * -27670116110564327424)
            by (nonlinear_arith)
            requires
                0 <= k as int <= 200,
                -27670116110564327424 <= body as int <= 27670116110564327424,
        ;
    }
    let num: i128 = (k as i128) * body;
    proof {
        assert(-18446744073709551616 <= (sum as int) * (SCALE as int) <= 18446744073709551616
            && ((sum as int) != 0 ==> (sum as int) * (SCALE as int) != 0))
            by (nonlinear_arith)
            requires
                -4294967296 <= sum as int <= 4294967296,
                SCALE == 4294967296,
        ;
    }
    let den: i128 = sum * (SCALE as i128);
    let neg: bool = (num < 0) != (den < 0);
    let mn: u128 = if num < 0 {
        (-num) as u128
    } else {
        num as u128
    };
    let md: u128 = if den < 0 {
        (-den) as u128
    } else {
        den as u128
    };
    let q: u128 = mn / md;
    let dq: i128 = if neg {
        -(q as i128)
    } else {
        q as i128
    };
    proof {
        lemma_div_pos_is_pos(mn as int, md as int);
        lemma_div_is_ordered_by_denominator(mn as int, 1, md as int);
        assert(dq as int == raw_delta_of(
            k as int,
            points_self as int,
            points_other as int,
            e as int,
        ));
    }
    if dq > (i32::MAX as i128) {
        i32::MAX
    } else if dq < (i32::MIN as i128) {
        i32::MIN
    } else {
        dq as i32
    }
}

/// Expected score, times `SCALE`, of the side rated `self_elo` against the
/// side rated `other_elo`.
pub fn expected_score(self_elo: i32, other_elo: i32) -> (r: u64)
    ensures
        r as int == expected_of(self_elo as int, other_elo as int),
        r <= SCALE,
{
    let a = self_elo as i64;
    let b = other_elo as i64;
    let d = b - a;
    if d >= 0 {
        underdog_expected_fixed(d as u64)
    } else {
        let g = underdog_expected_fixed((-d) as u64);
        SCALE - g
    }
}

/// With a zero argument every Taylor term beyond the constant one vanishes.
proof fn lemma_exp_term_zero(k: nat)
    ensures
        exp_term(0, k) == if k == 0 {
            SCALE as int
        } else {
            0
        },
    decreases k,
{
    if k == 0 {
    } else {
        lemma_exp_term_zero((k - 1) as nat);
        let den = k * (SCALE as int);
        assert(den >= SCALE as int) by (nonlinear_arith)
            requires
                k >= 1,
                den == k * (SCALE as int),
        ;
        lemma_basic_div(0, den);
    }
}

/// The fixed-point exponential of zero is exactly one `SCALE` unit.
proof fn lemma_exp_sum_zero(k: nat)
    ensures
        exp_sum(0, k) == SCALE as int,
    decreases k,
{
    if k == 0 {
    } else {
        lemma_exp_sum_zero((k - 1) as nat);
        lemma_exp_term_zero(k);
    }
}

/// The expected score of the lower-rated side is a genuine probability in
/// fixed point: never negative and never above one half of `SCALE`.
proof fn lemma_underdog_bounds(d: int)
    requires
        d >= 0,
    ensures
        0 <= underdog_expected(d) <= 2147483648,
{
    lemma_pow10_scaled_bounds(d);
    let denom = (SCALE as int) + pow10_scaled(d);
    lemma_div_pos_is_pos(SCALE_SQUARED as int, denom);
    lemma_div_is_ordered_by_denominator(SCALE_SQUARED as int, 8589934592, denom);
    assert(18446744073709551616int / 8589934592int == 2147483648int);
}

/// Law: two sides with equal ratings each expect exactly one half — in fixed
/// point, `SCALE / 2`.
pub proof fn lemma_expected_equal_ratings(r: int)
    ensures
        expected_of(r, r) == 2147483648,
        2 * expected_of(r, r) == SCALE as int,
{
    lemma_exp_sum_zero(EXP_TERMS as nat);
    reveal_with_fuel(pow, 2);
    assert(pow(10, 0) == 1);
    assert(pow10_frac(0) == SCALE as int);
    assert(pow10_scaled(0) == SCALE as int);
    assert((SCALE as int) + pow10_scaled(0) == 8589934592);
    assert(18446744073709551616int / 8589934592int == 2147483648int);
}

/// Law: the two orientations of one rating gap are exact complements — the
/// expected scores of the two sides of any duel always sum to one, that is,
/// to `SCALE` in fixed point.
pub proof fn lemma_expected_complement(a: int, b: int)
    ensures
        expected_of(a, b) + expected_of(b, a) == SCALE as int,
{
    if a == b {
        lemma_expected_equal_ratings(a);
    }
}

/// Law: an expected score always lies between zero and one (`SCALE`).
pub proof fn lemma_expected_bounds(a: int, b: int)
    ensures
        0 <= expected_of(a, b) <= SCALE as int,
{
    if b - a >= 0 {
        lemma_underdog_bounds(b - a);
    } else {
        lemma_underdog_bounds(a - b);
    }
}

/// Law: the K-factor table is exhaustive over the four placement-status
/// combinations and holds exactly the documented values: 200/200 when both
/// sides are placing, 200/50 and 50/200 for the mixed cases, 100/100 when
/// neither is placing.
pub proof fn lemma_k_factor_table()
    ensures
        k_factors_of(true, true) == ((200int, 200int)),
        k_factors_of(true, false) == ((200int, 50int)),
        k_factors_of(false, true) == ((50int, 200int)),
        k_factors_of(false, false) == ((100int, 100int)),
{
}

/// Law: a duel between equally rated sides with equal scores moves nothing:
/// each side expects one half, observes one half, and the raw delta truncates
/// to zero for any K-factor.
pub proof fn lemma_balanced_duel(r: int, kf: int, p: int)
    requires
        p != 0,
        kf >= 0,
    ensures
        expected_of(r, r) == 2147483648,
        raw_delta_of(kf, p, p, expected_of(r, r)) == 0,
{
    lemma_expected_equal_ratings(r);
    let body = p * (SCALE as int) - 2147483648 * (p + p);
    assert(body == 0) by (nonlinear_arith)
        requires
            body == p * (SCALE as int) - 2147483648 * (p + p),
            SCALE == 4294967296,
    ;
    let num = kf * body;
    assert(num == 0) by (nonlinear_arith)
        requires
            body == 0,
            num == kf * body,
    ;
    let den = (p + p) * (SCALE as int);
    assert(den != 0) by (nonlinear_arith)
        requires
            p != 0,
            SCALE == 4294967296,
            den == (p + p) * (SCALE as int),
    ;
    lemma_basic_div(0, abs_of(den));
}

/// Law: fractional deltas are truncated toward zero, not toward negative
/// infinity.  Any quotient smaller than one in magnitude is stored as zero,
/// and a negative quotient keeps the magnitude of its truncation.
pub proof fn lemma_truncation_toward_zero(n: int, d: int)
    requires
        d > 0,
    ensures
        -d < n < d ==> trunc_div(n, d) == 0,
        n >= 0 ==> trunc_div(n, d) == n / d,
        n < 0 ==> trunc_div(n, d) == -((-n) / d),
{
    if -d < n && n < d {
        lemma_basic_div(abs_of(n), d);
    }
}

/// Law, on concrete values: a raw delta of `-0.9` is stored as `0` and one of
/// `-1.1` as `-1`; with K-factor 100 and one half expected, point pairs
/// 491:509 and 489:511 produce exactly those raw deltas.
pub proof fn lemma_truncation_examples()
    ensures
        trunc_div(-9, 10) == 0,
        trunc_div(-11, 10) == -1,
        raw_delta_of(100, 491, 509, 2147483648) == 0,
        raw_delta_of(100, 489, 511, 2147483648) == -1,
{
    lemma_basic_div(9, 10);
    lemma_basic_div(1, 10);
    lemma_div_plus_one(1, 10);
    let s = SCALE as int;
    let num1 = 100 * (491 * s - 2147483648 * (491 + 509));
    let den1 = (491 + 509) * s;
    assert(num1 == -3865470566400 && den1 == 4294967296000) by (nonlinear_arith)
        requires
            SCALE == 4294967296,
            s == SCALE as int,
            num1 == 100 * (491 * s - 2147483648 * (491 + 509)),
            den1 == (491 + 509) * s,
    ;
    lemma_basic_div(3865470566400, 4294967296000);
    assert(trunc_div(num1, den1) == 0);
    let num2 = 100 * (489 * s - 2147483648 * (489 + 511));
    let den2 = (489 + 511) * s;
    assert(num2 == -4724464025600 && den2 == 4294967296000) by (nonlinear_arith)
        requires
            SCALE == 4294967296,
            s == SCALE as int,
            num2 == 100 * (489 * s - 2147483648 * (489 + 511)),
            den2 == (489 + 511) * s,
    ;
    lemma_basic_div(429496729600, 4294967296000);
    lemma_div_plus_one(429496729600, 4294967296000);
    assert(429496729600 + 4294967296000 == 4724464025600);
    assert(trunc_div(num2, den2) == -1);
}

} // verus!
