use vstd::prelude::*;

use crate::decimal::{decimal_of, integer_of, parse_decimal, pow10, pow10_u64, Decimal};
use crate::json::Json;

verus! {

/// The number that a value stands for: a JSON number, or a string that spells
/// one.
pub open spec fn number_of(j: Json) -> Option<Decimal> {
    match j {
        Json::Number(t) => decimal_of(t@),
        Json::Str(t) => decimal_of(t@),
        _ => None,
    }
}

/// `m / 10^scale` rounded to the nearest integer, halves away from zero.
pub open spec fn round_half_away(m: int, scale: nat) -> int {
    let p = pow10(scale);
    if scale == 0 {
        m
    } else if m >= 0 {
        (m + p / 2) / p
    } else {
        -((-m + p / 2) / p)
    }
}

/// The integer that a value stands for: a JSON number (rounded where it has
/// a fraction), or a string that spells an integer.
pub open spec fn integer_value_of(j: Json) -> Option<int> {
    match j {
        Json::Number(t) => match decimal_of(t@) {
            Some(d) => Some(round_half_away(d.mantissa as int, d.scale as nat)),
            None => None,
        },
        Json::Str(t) => integer_of(t@),
        _ => None,
    }
}

/// Reads a number, or a string that spells one.
pub fn json_to_decimal(value: &Json) -> (r: Option<Decimal>)
    ensures
        r == number_of(*value),
        r matches Some(d) ==> d.wf(),
{
    match value {
        Json::Number(t) => parse_decimal(t.as_str()),
        Json::Str(t) => parse_decimal(t.as_str()),
        _ => None,
    }
}

/// Reads an integer: a number (rounded, halves away from zero), or a string
/// that spells an integer.
pub fn json_to_i64(value: &Json) -> (r: Option<i64>)
    ensures
        match r {
            Some(v) => integer_value_of(*value) == Some(v as int),
            None => integer_value_of(*value) is None,
        },
{
    match value {
        Json::Number(t) => match parse_decimal(t.as_str()) {
            Some(d) => {
                if d.scale == 0 {
                    return Some(d.mantissa);
                }
                let p = pow10_u64(d.scale) as i64;
                let half = p / 2;
                proof {
                    crate::decimal::lemma_pow10_grows(d.scale as nat, 17);
                    crate::decimal::lemma_pow10_grows(1, d.scale as nat);
                    crate::decimal::lemma_pow10_17();
                    assert(pow10(1) == 10) by {
                        reveal_with_fuel(pow10, 2);
                    }
                }
                if d.mantissa >= 0 {
                    Some((d.mantissa + half) / p)
                } else {
                    Some(-((-d.mantissa + half) / p))
                }
            },
            None => None,
        },
        Json::Str(t) => match parse_decimal(t.as_str()) {
            Some(d) => if d.scale == 0 {
                Some(d.mantissa)
            } else {
                None
            },
            None => None,
        },
        _ => None,
    }
}

} // verus!
