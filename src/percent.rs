use vstd::prelude::*;

use crate::decimal::{lemma_pow10_17, lemma_pow10_18, lemma_pow10_grows, pow10, pow10_u64, Decimal};
use crate::error::UsageError;

verus! {

/// An exact fraction `num / den`; percentages are kept this way so that no
/// rounding creeps in.
#[derive(Clone, Copy, Debug, PartialEq, Eq, Structural)]
pub struct Ratio {
    pub num: i128,
    pub den: i128,
}

impl Ratio {
    pub open spec fn wf(self) -> bool {
        self.den > 0
    }

    /// `num / den` lies in `[0, 100]`.
    pub open spec fn is_percent(self) -> bool {
        self.den > 0 && 0 <= self.num <= 100 * self.den
    }
}

/// The fraction `n / d` as a `Ratio`; both must fit in 128 bits.
pub open spec fn ratio(n: int, d: int) -> Ratio {
    Ratio { num: n as i128, den: d as i128 }
}

/// Clamps a fraction into `[0, 100]`: below 0 it becomes `0/1`, above 100
/// it becomes `100/1`, otherwise it is kept as it is.
pub open spec fn clamp_percent(r: Ratio) -> Ratio {
    if r.num < 0 {
        Ratio { num: 0, den: 1 }
    } else if r.num > 100 * r.den {
        Ratio { num: 100, den: 1 }
    } else {
        r
    }
}

/// A used percentage read with the fraction heuristic: a value at most 1
/// that has a fractional part is a share of 1 and is scaled by 100.
pub open spec fn used_percent_scaled(d: Decimal) -> bool {
    let p = pow10(d.scale as nat);
    (d.mantissa as int) <= p && (d.mantissa as int) % p != 0
}

/// `100 - used`, where `used` is an explicit used percentage (before
/// clamping).
pub open spec fn left_from_used_percent(d: Decimal) -> Ratio {
    let p = pow10(d.scale as nat);
    let used = if used_percent_scaled(d) {
        (d.mantissa as int) * 100
    } else {
        d.mantissa as int
    };
    ratio(100 * p - used, p)
}

/// `remaining / limit * 100` (before clamping).
pub open spec fn left_from_remaining(remaining: Decimal, limit: Decimal) -> Ratio {
    ratio(
        (remaining.mantissa as int) * pow10(limit.scale as nat) * 100,
        (limit.mantissa as int) * pow10(remaining.scale as nat),
    )
}

/// `100 - used / limit * 100` (before clamping).
pub open spec fn left_from_used(used: Decimal, limit: Decimal) -> Ratio {
    let d = (limit.mantissa as int) * pow10(used.scale as nat);
    ratio(100 * d - (used.mantissa as int) * pow10(limit.scale as nat) * 100, d)
}

/// The value of a decimal is within `[0, 100]`.
pub open spec fn within_percent(d: Decimal) -> bool {
    0 <= (d.mantissa as int) <= 100 * pow10(d.scale as nat)
}

/// `100 - used` for a used percentage on the 0 to 100 scale.
pub open spec fn left_from_strict_percent(d: Decimal) -> Ratio {
    let p = pow10(d.scale as nat);
    ratio(100 * p - (d.mantissa as int), p)
}

proof fn lemma_scale_bound(d: Decimal)
    requires
        d.wf(),
    ensures
        1 <= pow10(d.scale as nat) <= 100000000000000000,
        -1000000000000000000 < d.mantissa < 1000000000000000000,
{
    lemma_pow10_grows(d.scale as nat, 17);
    lemma_pow10_17();
    lemma_pow10_18();
}

pub fn clamp_ratio(r: Ratio) -> (out: Ratio)
    requires
        r.wf(),
        r.den <= 1_000_000_000_000_000_000_000_000_000_000_000_000,
    ensures
        out == clamp_percent(r),
        out.is_percent(),
{
    if r.num < 0 {
        Ratio { num: 0, den: 1 }
    } else if r.num > 100 * r.den {
        Ratio { num: 100, den: 1 }
    } else {
        r
    }
}

/// `100 - used` (clamped to `[0, 100]`) for an explicit used percentage,
/// applying the fraction heuristic.
pub fn percent_left_from_used_percent(d: Decimal) -> (r: Ratio)
    requires
        d.wf(),
    ensures
        r == clamp_percent(left_from_used_percent(d)),
        r.is_percent(),
{
    let p = pow10_u64(d.scale) as i128;
    proof {
        lemma_scale_bound(d);
    }
    let m = d.mantissa as i128;
    let used: i128 = if m <= p && m % p != 0 {
        m * 100
    } else {
        m
    };
    clamp_ratio(Ratio { num: 100 * p - used, den: p })
}

/// `remaining / limit * 100`, clamped to `[0, 100]`.
pub fn percent_left_from_remaining(remaining: Decimal, limit: Decimal) -> (r: Ratio)
    requires
        remaining.wf(),
        limit.wf(),
        limit.mantissa > 0,
    ensures
        r == clamp_percent(left_from_remaining(remaining, limit)),
        r.is_percent(),
{
    proof {
        lemma_scale_bound(remaining);
        lemma_scale_bound(limit);
    }
    let pl = pow10_u64(limit.scale) as i128;
    let pr = pow10_u64(remaining.scale) as i128;
    let rm = remaining.mantissa as i128;
    let lm = limit.mantissa as i128;
    proof {
        lemma_mul3_bound(rm as int, pl as int);
        lemma_mul_pos_bound(lm as int, pr as int);
    }
    clamp_ratio(Ratio { num: rm * pl * 100, den: lm * pr })
}

/// `100 - used / limit * 100`, clamped to `[0, 100]`.
pub fn percent_left_from_used(used: Decimal, limit: Decimal) -> (r: Ratio)
    requires
        used.wf(),
        limit.wf(),
        limit.mantissa > 0,
    ensures
        r == clamp_percent(left_from_used(used, limit)),
        r.is_percent(),
{
    proof {
        lemma_scale_bound(used);
        lemma_scale_bound(limit);
    }
    let pl = pow10_u64(limit.scale) as i128;
    let pu = pow10_u64(used.scale) as i128;
    let um = used.mantissa as i128;
    let lm = limit.mantissa as i128;
    proof {
        lemma_mul3_bound(um as int, pl as int);
        lemma_mul_pos_bound(lm as int, pu as int);
    }
    let d = lm * pu;
    clamp_ratio(Ratio { num: 100 * d - um * pl * 100, den: d })
}

proof fn lemma_mul_abs_bound(m: int, p: int, a: int, b: int)
    requires
        -a < m < a,
        0 < p <= b,
    ensures
        -(a * b) < m * p < a * b,
{
    if m >= 0 {
        assert(m * p <= m * b) by (nonlinear_arith)
            requires
                m >= 0,
                p <= b,
        ;
        assert(m * b < a * b) by (nonlinear_arith)
            requires
                m < a,
                0 < b,
        ;
        assert(m * p >= 0 && a * b > 0) by (nonlinear_arith)
            requires
                m >= 0,
                p > 0,
                a > m,
                b > 0,
        ;
    } else {
        assert(m * p >= m * b) by (nonlinear_arith)
            requires
                m < 0,
                p <= b,
        ;
        assert(m * b > -(a * b)) by (nonlinear_arith)
            requires
                -a < m,
                0 < b,
        ;
        assert(m * p < 0 && a * b > 0) by (nonlinear_arith)
            requires
                m < 0,
                p > 0,
                a > 0,
                b > 0,
        ;
    }
}

proof fn lemma_mul3_bound(m: int, p: int)
    requires
        -1_000_000_000_000_000_000 < m < 1_000_000_000_000_000_000,
        1 <= p <= 100_000_000_000_000_000,
    ensures
        -10_000_000_000_000_000_000_000_000_000_000_000_000 < m * p * 100
            < 10_000_000_000_000_000_000_000_000_000_000_000_000,
        -100_000_000_000_000_000_000_000_000_000_000_000 < m * p < 100_000_000_000_000_000_000_000_000_000_000_000,
{
    lemma_mul_abs_bound(m, p, 1_000_000_000_000_000_000, 100_000_000_000_000_000);
    let x = m * p;
    assert(-10_000_000_000_000_000_000_000_000_000_000_000_000 < x * 100 < 10_000_000_000_000_000_000_000_000_000_000_000_000);
}

proof fn lemma_mul_pos_bound(m: int, p: int)
    requires
        0 < m < 1_000_000_000_000_000_000,
        1 <= p <= 100_000_000_000_000_000,
    ensures
        0 < m * p < 100_000_000_000_000_000_000_000_000_000_000_000,
{
    lemma_mul_abs_bound(m, p, 1_000_000_000_000_000_000, 100_000_000_000_000_000);
    assert(0 < m * p) by (nonlinear_arith)
        requires
            0 < m,
            0 < p,
    ;
}

/// Checks that a used percentage lies in `[0, 100]`, without clamping.
pub fn validate_used_percent(value: Decimal) -> (r: Result<Decimal, UsageError>)
    requires
        value.wf(),
    ensures
        within_percent(value) ==> r == Ok::<Decimal, UsageError>(value),
        !within_percent(value) ==> r == Err::<Decimal, UsageError>(UsageError::InvalidPercent),
{
    let p = pow10_u64(value.scale) as i128;
    proof {
        lemma_scale_bound(value);
    }
    let m = value.mantissa as i128;
    if m < 0 || m > 100 * p {
        return Err(UsageError::InvalidPercent);
    }
    Ok(value)
}

/// `100 - used` for a used percentage already checked to lie in `[0, 100]`.
pub fn percent_left_from_strict(value: Decimal) -> (r: Ratio)
    requires
        value.wf(),
        within_percent(value),
    ensures
        r == left_from_strict_percent(value),
        r.is_percent(),
{
    let p = pow10_u64(value.scale) as i128;
    proof {
        lemma_scale_bound(value);
    }
    Ratio { num: 100 * p - value.mantissa as i128, den: p }
}

} // verus!
