use vstd::prelude::*;

use crate::decimal::{decimal_of, parse_decimal, Decimal};
use crate::error::UsageError;
use crate::json::Json;
use crate::normalize::{normalize_unix_timestamp_ms, normalized_timestamp};
use crate::percent::{
    left_from_strict_percent, percent_left_from_strict, validate_used_percent, within_percent,
    Ratio,
};
use crate::text::str_eq;

verus! {

/// One window of the fixed-shape event: `used_percent` on the 0 to 100
/// scale, `window_minutes`, and `resets_at` in seconds or milliseconds.
#[derive(Clone, Copy, Debug, PartialEq, Eq, Structural)]
pub struct LegacyWindow {
    pub used_percent: Decimal,
    pub window_minutes: u32,
    pub resets_at: i64,
}

/// Any JSON number.
pub open spec fn json_number(j: Json) -> Option<Decimal> {
    match j {
        Json::Number(t) => decimal_of(t@),
        _ => None,
    }
}

/// A JSON number without a fraction.
pub open spec fn json_integer(j: Json) -> Option<int> {
    match json_number(j) {
        Some(d) => if d.scale == 0 {
            Some(d.mantissa as int)
        } else {
            None
        },
        None => None,
    }
}

/// The fixed-shape window that an object holds: all three members present,
/// `window_minutes` an integer in `u32`, `resets_at` an integer.
pub open spec fn legacy_window_of(j: Json) -> Option<LegacyWindow> {
    if !(j is Object) {
        None
    } else {
        match (j.field("used_percent"@), j.field("window_minutes"@), j.field("resets_at"@)) {
            (Some(u), Some(w), Some(r)) => match (json_number(u), json_integer(w), json_integer(r)) {
                (Some(ud), Some(wm), Some(ra)) => if 0 <= wm <= u32::MAX {
                    Some(LegacyWindow { used_percent: ud, window_minutes: wm as u32, resets_at: ra as i64 })
                } else {
                    None
                },
                _ => None,
            },
            _ => None,
        }
    }
}

/// A window slot of the fixed shape: absent or `null` is empty
/// (`Some(None)`); anything else must be a window, else the slot does not
/// decode (`None`).
pub open spec fn legacy_slot(f: Option<Json>) -> Option<Option<LegacyWindow>> {
    match f {
        None => Some(None),
        Some(Json::Null) => Some(None),
        Some(j) => match legacy_window_of(j) {
            Some(w) => Some(Some(w)),
            None => None,
        },
    }
}

/// The event types that carry a fixed-shape rate-limit reading.
pub open spec fn is_rate_limit_event(t: Seq<char>) -> bool {
    t == "event_msg"@ || t == "token_count"@
}

/// The complete (primary, secondary) reading of a log line, if it is a
/// rate-limit event whose `payload.rate_limits` holds both windows.
pub open spec fn legacy_pair_of(line: Json) -> Option<(LegacyWindow, LegacyWindow)> {
    match line.str_field("type"@) {
        Some(t) => if !is_rate_limit_event(t) {
            None
        } else {
            match line.field("payload"@) {
                Some(payload) => if payload is Null {
                    None
                } else {
                    match payload.field("rate_limits"@) {
                        Some(rl) => if !(rl is Object) {
                            None
                        } else {
                            match (legacy_slot(rl.field("primary"@)), legacy_slot(rl.field("secondary"@))) {
                                (Some(Some(p)), Some(Some(s))) => Some((p, s)),
                                _ => None,
                            }
                        },
                        None => None,
                    }
                },
                None => None,
            }
        },
        None => None,
    }
}

/// The reading of a line of a log; blank or undecodable lines are `None`.
pub open spec fn line_pair(line: Option<Json>) -> Option<(LegacyWindow, LegacyWindow)> {
    match line {
        Some(j) => legacy_pair_of(j),
        None => None,
    }
}

/// The last complete reading in a log, in file order.
pub open spec fn last_pair(lines: Seq<Option<Json>>) -> Option<(LegacyWindow, LegacyWindow)>
    decreases lines.len(),
{
    if lines.len() == 0 {
        None
    } else {
        match line_pair(lines.last()) {
            Some(p) => Some(p),
            None => last_pair(lines.drop_last()),
        }
    }
}

/// The usage that a reading gives: `100 - used` for each window, used
/// percentages checked to lie in `[0, 100]`, reset times normalized.
pub open spec fn pair_usage(pair: (LegacyWindow, LegacyWindow)) -> Result<(Ratio, i64, Ratio, i64), UsageError> {
    let (p, s) = pair;
    if !within_percent(p.used_percent) || !within_percent(s.used_percent) {
        Err(UsageError::InvalidPercent)
    } else {
        match normalized_timestamp(p.resets_at as int) {
            Err(e) => Err(e),
            Ok(five_ms) => match normalized_timestamp(s.resets_at as int) {
                Err(e) => Err(e),
                Ok(weekly_ms) => Ok(
                    (
                        left_from_strict_percent(p.used_percent),
                        five_ms as i64,
                        left_from_strict_percent(s.used_percent),
                        weekly_ms as i64,
                    ),
                ),
            },
        }
    }
}

/// A reading fails only on a percentage or a timestamp.
pub proof fn lemma_pair_usage_errors(pair: (LegacyWindow, LegacyWindow))
    ensures
        pair_usage(pair) matches Err(e) ==> e == UsageError::InvalidPercent || e
            == UsageError::InvalidTimestamp || e == UsageError::TimestampOutOfRange,
{
}

/// Any JSON number.
fn number_value(j: &Json) -> (r: Option<Decimal>)
    ensures
        r == json_number(*j),
        r matches Some(d) ==> d.wf(),
{
    match j {
        Json::Number(t) => parse_decimal(t.as_str()),
        _ => None,
    }
}

/// A JSON number without a fraction.
fn integer_value(j: &Json) -> (r: Option<i64>)
    ensures
        match r {
            Some(v) => json_integer(*j) == Some(v as int),
            None => json_integer(*j) is None,
        },
{
    match number_value(j) {
        Some(d) => if d.scale == 0 {
            Some(d.mantissa)
        } else {
            None
        },
        None => None,
    }
}

/// Decodes one fixed-shape window.
pub fn parse_legacy_window(j: &Json) -> (r: Option<LegacyWindow>)
    ensures
        r == legacy_window_of(*j),
        r matches Some(w) ==> w.used_percent.wf(),
{
    if !matches!(j, Json::Object(_)) {
        return None;
    }
    match (j.get("used_percent"), j.get("window_minutes"), j.get("resets_at")) {
        (Some(u), Some(w), Some(r)) => match (number_value(u), integer_value(w), integer_value(r)) {
            (Some(ud), Some(wm), Some(ra)) => if 0 <= wm && wm <= u32::MAX as i64 {
                Some(LegacyWindow { used_percent: ud, window_minutes: wm as u32, resets_at: ra })
            } else {
                None
            },
            _ => None,
        },
        _ => None,
    }
}

fn parse_legacy_slot(f: Option<&Json>) -> (r: Option<Option<LegacyWindow>>)
    ensures
        r == legacy_slot(
            match f {
                Some(j) => Some(*j),
                None => None,
            },
        ),
        r matches Some(Some(w)) ==> w.used_percent.wf(),
{
    match f {
        None => Some(None),
        Some(Json::Null) => Some(None),
        Some(j) => match parse_legacy_window(j) {
            Some(w) => Some(Some(w)),
            None => None,
        },
    }
}

/// Decodes the fixed-shape rate-limit event of one log line, where the line
/// is one and holds both windows.
pub fn parse_legacy_line(line: &Json) -> (r: Option<(LegacyWindow, LegacyWindow)>)
    ensures
        r == legacy_pair_of(*line),
        r matches Some((p, s)) ==> p.used_percent.wf() && s.used_percent.wf(),
{
    let t = match line.get_str("type") {
        Some(t) => t,
        None => return None,
    };
    if !(str_eq(t.as_str(), "event_msg") || str_eq(t.as_str(), "token_count")) {
        return None;
    }
    let payload = match line.get("payload") {
        Some(p) => p,
        None => return None,
    };
    if matches!(payload, Json::Null) {
        return None;
    }
    let rl = match payload.get("rate_limits") {
        Some(rl) => rl,
        None => return None,
    };
    if !matches!(rl, Json::Object(_)) {
        return None;
    }
    match (parse_legacy_slot(rl.get("primary")), parse_legacy_slot(rl.get("secondary"))) {
        (Some(Some(p)), Some(Some(s))) => Some((p, s)),
        _ => None,
    }
}

pub open spec fn pair_wf(r: Option<(LegacyWindow, LegacyWindow)>) -> bool {
    r matches Some((p, s)) ==> p.used_percent.wf() && s.used_percent.wf()
}

/// Scans the lines of a log and keeps the last complete rate-limit reading.
pub fn latest_rate_limits(lines: &Vec<Option<Json>>) -> (r: Option<(LegacyWindow, LegacyWindow)>)
    ensures
        r == last_pair(lines@),
        pair_wf(r),
{
    let mut latest: Option<(LegacyWindow, LegacyWindow)> = None;
    let mut i: usize = 0;
    assert(lines@.take(0) =~= Seq::<Option<Json>>::empty());
    while i < lines.len()
        invariant
            i <= lines@.len(),
            latest == last_pair(lines@.take(i as int)),
            pair_wf(latest),
        decreases lines@.len() - i,
    {
        let ghost next = lines@.take(i + 1);
        assert(next.drop_last() =~= lines@.take(i as int));
        assert(next.last() == lines@[i as int]);
        if let Some(line) = &lines[i] {
            if let Some(pair) = parse_legacy_line(line) {
                latest = Some(pair);
            }
        }
        i = i + 1;
    }
    assert(lines@.take(lines@.len() as int) =~= lines@);
    latest
}

/// The usage that a complete reading gives.
pub fn usage_from_pair(pair: (LegacyWindow, LegacyWindow)) -> (r: Result<(Ratio, i64, Ratio, i64), UsageError>)
    requires
        pair.0.used_percent.wf(),
        pair.1.used_percent.wf(),
    ensures
        r == pair_usage(pair),
        r matches Ok((a, _, b, _)) ==> a.is_percent() && b.is_percent(),
{
    let (p, s) = pair;
    let pu = match validate_used_percent(p.used_percent) {
        Ok(v) => v,
        Err(e) => return Err(e),
    };
    let su = match validate_used_percent(s.used_percent) {
        Ok(v) => v,
        Err(e) => return Err(e),
    };
    let five_ms = match normalize_unix_timestamp_ms(p.resets_at) {
        Ok(v) => v,
        Err(e) => return Err(e),
    };
    let weekly_ms = match normalize_unix_timestamp_ms(s.resets_at) {
        Ok(v) => v,
        Err(e) => return Err(e),
    };
    Ok((percent_left_from_strict(pu), five_ms, percent_left_from_strict(su), weekly_ms))
}

} // verus!
