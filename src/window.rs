use vstd::prelude::*;

use crate::coerce::{integer_value_of, json_to_decimal, json_to_i64, number_of};
use crate::decimal::Decimal;
use crate::error::UsageError;
use crate::json::Json;
use crate::normalize::{normalize_unix_timestamp_ms, normalized_timestamp};
use crate::percent::{
    clamp_percent, left_from_remaining, left_from_used, left_from_used_percent,
    percent_left_from_remaining, percent_left_from_used, percent_left_from_used_percent, Ratio,
};

verus! {

/// One quota window as read from a tolerant rate-limit entry.
#[derive(Clone, Copy, Debug, PartialEq, Eq, Structural)]
pub struct ParsedLimit {
    pub percent_left: Ratio,
    pub reset_time_ms: i64,
    pub window_minutes: Option<u32>,
}

/// The two quota windows that an entry can be classified as.
#[derive(Clone, Copy, Debug, PartialEq, Eq, Structural)]
pub enum LimitKind {
    FiveHour,
    Weekly,
}

pub open spec fn or_else<T>(a: Option<T>, b: Option<T>) -> Option<T> {
    if a is Some {
        a
    } else {
        b
    }
}

/// The number in member `k`, a number or a numeric string.
pub open spec fn number_field(j: Json, k: Seq<char>) -> Option<Decimal> {
    match j.field(k) {
        Some(v) => number_of(v),
        None => None,
    }
}

/// The integer in member `k`.
pub open spec fn int_field(j: Json, k: Seq<char>) -> Option<int> {
    match j.field(k) {
        Some(v) => integer_value_of(v),
        None => None,
    }
}

/// The number in the first present of members `a` and `b`.
pub open spec fn first_number(j: Json, a: Seq<char>, b: Seq<char>) -> Option<Decimal> {
    match j.field(a) {
        Some(v) => number_of(v),
        None => number_field(j, b),
    }
}

/// The explicit used percentage: `used_percent`, else `usedPercent`.
pub open spec fn used_percent_value(j: Json) -> Option<Decimal> {
    first_number(j, "used_percent"@, "usedPercent"@)
}

/// The limit: the first present of `limit`, `total` and `capacity`.
pub open spec fn limit_value(j: Json) -> Option<Decimal> {
    match j.field("limit"@) {
        Some(v) => number_of(v),
        None => first_number(j, "total"@, "capacity"@),
    }
}

/// The percentage left that an entry states, clamped to `[0, 100]`.
pub open spec fn percent_left_of(j: Json) -> Result<Ratio, UsageError> {
    match used_percent_value(j) {
        Some(u) => Ok(clamp_percent(left_from_used_percent(u))),
        None => match (number_field(j, "remaining"@), limit_value(j)) {
            (Some(r), Some(l)) => if l.mantissa <= 0 {
                Err(UsageError::InvalidLimit)
            } else {
                Ok(clamp_percent(left_from_remaining(r, l)))
            },
            _ => match (number_field(j, "used"@), limit_value(j)) {
                (Some(u), Some(l)) => if l.mantissa <= 0 {
                    Err(UsageError::InvalidLimit)
                } else {
                    Ok(clamp_percent(left_from_used(u, l)))
                },
                _ => Err(UsageError::MissingUsageFields),
            },
        },
    }
}

/// `x` saturated into the range of `i64`.
pub open spec fn sat_i64(x: int) -> int {
    if x > i64::MAX {
        i64::MAX as int
    } else if x < i64::MIN {
        i64::MIN as int
    } else {
        x
    }
}

/// `now + seconds * 1000`, each step saturating.
pub open spec fn after_seconds(now_ms: int, secs: Option<int>) -> Option<int> {
    match secs {
        Some(s) => Some(sat_i64(now_ms + sat_i64(s * 1000))),
        None => None,
    }
}

/// The raw reset time of an entry: the first absolute field that holds an
/// integer, else the first relative field, counted from `now_ms`.
pub open spec fn reset_raw(j: Json, now_ms: int) -> Option<int> {
    or_else(
        int_field(j, "reset_at_ms"@),
        or_else(
            int_field(j, "resets_at_ms"@),
            or_else(
                int_field(j, "reset_time_ms"@),
                or_else(
                    int_field(j, "reset_at"@),
                    or_else(
                        int_field(j, "resets_at"@),
                        or_else(
                            int_field(j, "reset"@),
                            or_else(
                                after_seconds(now_ms, int_field(j, "reset_in_seconds"@)),
                                or_else(
                                    after_seconds(now_ms, int_field(j, "reset_after_seconds"@)),
                                    after_seconds(now_ms, int_field(j, "reset_in"@)),
                                ),
                            ),
                        ),
                    ),
                ),
            ),
        ),
    )
}

/// Keeps a value that fits in `u32`.
pub open spec fn fits_u32(v: Option<int>) -> Option<int> {
    match v {
        Some(x) => if 0 <= x <= u32::MAX {
            Some(x)
        } else {
            None
        },
        None => None,
    }
}

/// Whole minutes in a number of seconds, truncated toward zero.
pub open spec fn minutes_of_seconds(v: Option<int>) -> Option<int> {
    match v {
        Some(x) => Some(
            if x >= 0 {
                x / 60
            } else {
                -((-x) / 60)
            },
        ),
        None => None,
    }
}

/// The window length in minutes: `window_minutes`, else `window_seconds`
/// or `limit_window_seconds` divided by 60.
pub open spec fn window_minutes_of(j: Json) -> Option<u32> {
    match or_else(
        fits_u32(int_field(j, "window_minutes"@)),
        or_else(
            fits_u32(minutes_of_seconds(int_field(j, "window_seconds"@))),
            fits_u32(minutes_of_seconds(int_field(j, "limit_window_seconds"@))),
        ),
    ) {
        Some(x) => Some(x as u32),
        None => None,
    }
}

/// What a tolerant rate-limit entry yields.
pub open spec fn parsed_entry(j: Json, now_ms: int) -> Result<ParsedLimit, UsageError> {
    match percent_left_of(j) {
        Err(e) => Err(e),
        Ok(p) => match reset_raw(j, now_ms) {
            None => Err(UsageError::MissingResetTimestamp),
            Some(raw) => match normalized_timestamp(raw) {
                Err(e) => Err(e),
                Ok(ms) => Ok(
                    ParsedLimit {
                        percent_left: p,
                        reset_time_ms: ms as i64,
                        window_minutes: window_minutes_of(j),
                    },
                ),
            },
        },
    }
}

/// The number in member `key`.
fn decimal_field(value: &Json, key: &str) -> (r: Option<Decimal>)
    ensures
        r == number_field(*value, key@),
        r matches Some(d) ==> d.wf(),
{
    match value.get(key) {
        Some(v) => json_to_decimal(v),
        None => None,
    }
}

/// The integer in member `key`.
fn integer_field(value: &Json, key: &str) -> (r: Option<i64>)
    ensures
        match r {
            Some(v) => int_field(*value, key@) == Some(v as int),
            None => int_field(*value, key@) is None,
        },
{
    match value.get(key) {
        Some(v) => json_to_i64(v),
        None => None,
    }
}

/// The number in the first present of members `a` and `b`.
fn first_decimal(value: &Json, a: &str, b: &str) -> (r: Option<Decimal>)
    ensures
        r == first_number(*value, a@, b@),
        r matches Some(d) ==> d.wf(),
{
    match value.get(a) {
        Some(v) => json_to_decimal(v),
        None => decimal_field(value, b),
    }
}

/// The percentage left that an entry states, clamped to `[0, 100]`.
pub fn entry_percent_left(value: &Json) -> (r: Result<Ratio, UsageError>)
    ensures
        r == percent_left_of(*value),
        r matches Ok(p) ==> p.is_percent(),
{
    let used_percent = first_decimal(value, "used_percent", "usedPercent");
    if let Some(u) = used_percent {
        return Ok(percent_left_from_used_percent(u));
    }
    let limit = match value.get("limit") {
        Some(v) => json_to_decimal(v),
        None => first_decimal(value, "total", "capacity"),
    };
    let remaining = decimal_field(value, "remaining");
    if let (Some(r), Some(l)) = (remaining, limit) {
        if l.mantissa <= 0 {
            return Err(UsageError::InvalidLimit);
        }
        return Ok(percent_left_from_remaining(r, l));
    }
    let used = decimal_field(value, "used");
    if let (Some(u), Some(l)) = (used, limit) {
        if l.mantissa <= 0 {
            return Err(UsageError::InvalidLimit);
        }
        return Ok(percent_left_from_used(u, l));
    }
    Err(UsageError::MissingUsageFields)
}

/// `x` saturated into the range of `i64`.
fn saturate(x: i128) -> (r: i64)
    ensures
        r == sat_i64(x as int),
{
    if x > i64::MAX as i128 {
        i64::MAX
    } else if x < i64::MIN as i128 {
        i64::MIN
    } else {
        x as i64
    }
}

/// `now + seconds * 1000`, each step saturating.
fn add_seconds(now_ms: i64, secs: i64) -> (r: i64)
    ensures
        r == sat_i64(now_ms + sat_i64(secs * 1000)),
{
    let step = saturate(secs as i128 * 1000);
    saturate(now_ms as i128 + step as i128)
}

/// The raw reset time of an entry, relative fields counted from `now_ms`.
pub fn extract_reset_time_ms(value: &Json, now_ms: i64) -> (r: Option<i64>)
    ensures
        match r {
            Some(v) => reset_raw(*value, now_ms as int) == Some(v as int),
            None => reset_raw(*value, now_ms as int) is None,
        },
{
    if let Some(v) = integer_field(value, "reset_at_ms") {
        return Some(v);
    }
    if let Some(v) = integer_field(value, "resets_at_ms") {
        return Some(v);
    }
    if let Some(v) = integer_field(value, "reset_time_ms") {
        return Some(v);
    }
    if let Some(v) = integer_field(value, "reset_at") {
        return Some(v);
    }
    if let Some(v) = integer_field(value, "resets_at") {
        return Some(v);
    }
    if let Some(v) = integer_field(value, "reset") {
        return Some(v);
    }
    if let Some(s) = integer_field(value, "reset_in_seconds") {
        return Some(add_seconds(now_ms, s));
    }
    if let Some(s) = integer_field(value, "reset_after_seconds") {
        return Some(add_seconds(now_ms, s));
    }
    if let Some(s) = integer_field(value, "reset_in") {
        return Some(add_seconds(now_ms, s));
    }
    None
}

/// Keeps a value that fits in `u32`.
fn to_u32(v: Option<i64>) -> (r: Option<u32>)
    ensures
        match r {
            Some(x) => v matches Some(y) && y == x,
            None => v is None || v->0 < 0 || v->0 > u32::MAX,
        },
{
    match v {
        Some(x) => if 0 <= x && x <= u32::MAX as i64 {
            Some(x as u32)
        } else {
            None
        },
        None => None,
    }
}

/// Whole minutes in a number of seconds, truncated toward zero.
fn seconds_to_minutes(v: Option<i64>) -> (r: Option<i64>)
    ensures
        match r {
            Some(x) => minutes_of_seconds(
                match v {
                    Some(y) => Some(y as int),
                    None => None,
                },
            ) == Some(x as int),
            None => v is None,
        },
{
    match v {
        Some(x) => if x >= 0 {
            Some(x / 60)
        } else {
            Some(-((-(x as i128)) / 60) as i64)
        },
        None => None,
    }
}

/// The window length of an entry in minutes.
pub fn entry_window_minutes(value: &Json) -> (r: Option<u32>)
    ensures
        r == window_minutes_of(*value),
{
    if let Some(m) = to_u32(integer_field(value, "window_minutes")) {
        return Some(m);
    }
    if let Some(m) = to_u32(seconds_to_minutes(integer_field(value, "window_seconds"))) {
        return Some(m);
    }
    to_u32(seconds_to_minutes(integer_field(value, "limit_window_seconds")))
}

/// Parses one tolerant rate-limit entry: the percentage left (clamped), the
/// normalized reset time, and the window length where one is given.
/// Relative reset fields count from `now_ms`.
pub fn parse_rate_limit_entry(value: &Json, now_ms: i64) -> (r: Result<ParsedLimit, UsageError>)
    ensures
        r == parsed_entry(*value, now_ms as int),
        r matches Ok(p) ==> p.percent_left.is_percent(),
{
    let percent_left = match entry_percent_left(value) {
        Ok(p) => p,
        Err(e) => return Err(e),
    };
    let raw = match extract_reset_time_ms(value, now_ms) {
        Some(raw) => raw,
        None => return Err(UsageError::MissingResetTimestamp),
    };
    let reset_time_ms = match normalize_unix_timestamp_ms(raw) {
        Ok(ms) => ms,
        Err(e) => return Err(e),
    };
    let window_minutes = entry_window_minutes(value);
    Ok(ParsedLimit { percent_left, reset_time_ms, window_minutes })
}

} // verus!
