use vstd::prelude::*;

use crate::error::UsageError;
use crate::json::Json;
use crate::text::{contains_str, has_infix, lower_of, lowercase};
use crate::window::{parse_rate_limit_entry, parsed_entry, LimitKind, ParsedLimit};

verus! {

/// The name that an entry gives itself: `type`, else `name`, where a string.
pub open spec fn kind_name(j: Json) -> Option<Seq<char>> {
    match j.str_field("type"@) {
        Some(s) => Some(s),
        None => j.str_field("name"@),
    }
}

/// The kind that a lower-case name points to.
pub open spec fn kind_of_name(lower: Seq<char>) -> Option<LimitKind> {
    if has_infix(lower, "week"@) {
        Some(LimitKind::Weekly)
    } else if has_infix(lower, "five"@) || has_infix(lower, "5h"@) || has_infix(lower, "hour"@) {
        Some(LimitKind::FiveHour)
    } else {
        None
    }
}

/// The kind that a window length points to: at most 6 hours is the
/// five-hour window, at least a week the weekly one.
pub open spec fn kind_of_minutes(minutes: Option<u32>) -> Option<LimitKind> {
    match minutes {
        Some(m) => if m <= 360 {
            Some(LimitKind::FiveHour)
        } else if m >= 10080 {
            Some(LimitKind::Weekly)
        } else {
            None
        },
        None => None,
    }
}

/// How an entry is classified: by its name first, then by its length.
pub open spec fn kind_of(j: Json, minutes: Option<u32>) -> Option<LimitKind> {
    let by_name = match kind_name(j) {
        Some(n) => kind_of_name(lower_of(n)),
        None => None,
    };
    if by_name is Some {
        by_name
    } else {
        kind_of_minutes(minutes)
    }
}

/// The (five-hour, weekly) slots after a parsed entry of kind `k` is placed:
/// a classified entry overwrites its slot; an unclassified one fills the
/// five-hour slot if empty, else the weekly slot if empty, else is dropped.
pub open spec fn place(
    slots: (Option<ParsedLimit>, Option<ParsedLimit>),
    p: ParsedLimit,
    k: Option<LimitKind>,
) -> (Option<ParsedLimit>, Option<ParsedLimit>) {
    match k {
        Some(LimitKind::FiveHour) => (Some(p), slots.1),
        Some(LimitKind::Weekly) => (slots.0, Some(p)),
        None => if slots.0 is None {
            (Some(p), slots.1)
        } else if slots.1 is None {
            (slots.0, Some(p))
        } else {
            slots
        },
    }
}

/// The slots after all of `entries` are parsed and placed in order; the
/// first entry that fails to parse fails the whole list.
pub open spec fn fill_slots(entries: Seq<Json>, now_ms: int) -> Result<
    (Option<ParsedLimit>, Option<ParsedLimit>),
    UsageError,
>
    decreases entries.len(),
{
    if entries.len() == 0 {
        Ok((None, None))
    } else {
        match fill_slots(entries.drop_last(), now_ms) {
            Err(e) => Err(e),
            Ok(slots) => match parsed_entry(entries.last(), now_ms) {
                Err(e) => Err(e),
                Ok(p) => Ok(place(slots, p, kind_of(entries.last(), p.window_minutes))),
            },
        }
    }
}

/// The list of windows of a rate-limit value: its `limits` array, else the
/// value itself where it is an array.
pub open spec fn entries_of(j: Json) -> Option<Seq<Json>> {
    match j.field("limits"@) {
        Some(Json::Array(v)) => Some(v@),
        _ => match j {
            Json::Array(v) => Some(v@),
            _ => None,
        },
    }
}

pub open spec fn both<A, B, E>(a: Result<A, E>, b: Result<B, E>) -> Result<(A, B), E> {
    match a {
        Err(e) => Err(e),
        Ok(x) => match b {
            Err(e) => Err(e),
            Ok(y) => Ok((x, y)),
        },
    }
}

/// The (five-hour, weekly) pair that a rate-limit value yields: from a
/// `primary`/`secondary` pair, else a `primary_window`/`secondary_window`
/// pair, else from a list of windows.
pub open spec fn rate_limits_of(j: Json, now_ms: int) -> Result<(ParsedLimit, ParsedLimit), UsageError> {
    match (j.field("primary"@), j.field("secondary"@)) {
        (Some(p), Some(s)) => both(parsed_entry(p, now_ms), parsed_entry(s, now_ms)),
        _ => match (j.field("primary_window"@), j.field("secondary_window"@)) {
            (Some(p), Some(s)) => both(parsed_entry(p, now_ms), parsed_entry(s, now_ms)),
            _ => match entries_of(j) {
                None => Err(UsageError::MissingRateLimitEntries),
                Some(es) => match fill_slots(es, now_ms) {
                    Err(e) => Err(e),
                    Ok((Some(five), Some(weekly))) => Ok((five, weekly)),
                    Ok(_) => Err(UsageError::MissingRateLimitData),
                },
            },
        },
    }
}

pub open spec fn ok_of<T, E>(r: Result<T, E>) -> Option<T> {
    match r {
        Ok(v) => Some(v),
        Err(_) => None,
    }
}

/// The single window that an optional rate-limit value yields, if any.
pub open spec fn optional_limit_of(j: Json, now_ms: int) -> Option<ParsedLimit> {
    match j.field("primary"@) {
        Some(p) => ok_of(parsed_entry(p, now_ms)),
        None => match j.field("primary_window"@) {
            Some(p) => ok_of(parsed_entry(p, now_ms)),
            None => match j.field("limits"@) {
                Some(Json::Array(v)) => if v.len() > 0 {
                    ok_of(parsed_entry(v@[0], now_ms))
                } else {
                    None
                },
                _ => match j {
                    Json::Array(v) => if v.len() > 0 {
                        ok_of(parsed_entry(v@[0], now_ms))
                    } else {
                        None
                    },
                    _ => ok_of(parsed_entry(j, now_ms)),
                },
            },
        },
    }
}

/// The kind that an already lower-cased name points to: "week" means
/// weekly; "five", "5h" or "hour" mean five-hour.
pub fn kind_of_lower_name(lower: &str) -> (r: Option<LimitKind>)
    ensures
        r == kind_of_name(lower@),
{
    if contains_str(lower, "week") {
        return Some(LimitKind::Weekly);
    }
    if contains_str(lower, "five") || contains_str(lower, "5h") || contains_str(lower, "hour") {
        return Some(LimitKind::FiveHour);
    }
    None
}

/// Classifies an entry as the five-hour or the weekly window: by a `type`
/// or `name` that mentions "week" (weekly) or "five", "5h", "hour"
/// (five-hour), regardless of case; else by its length.
pub fn detect_limit_kind(value: &Json, window_minutes: Option<u32>) -> (r: Option<LimitKind>)
    ensures
        r == kind_of(*value, window_minutes),
{
    let name = match value.get_str("type") {
        Some(s) => Some(s),
        None => value.get_str("name"),
    };
    if let Some(kind) = name {
        let lower = lowercase(kind.as_str());
        let by_name = kind_of_lower_name(lower.as_str());
        if by_name.is_some() {
            return by_name;
        }
    }
    match window_minutes {
        Some(m) => if m <= 360 {
            Some(LimitKind::FiveHour)
        } else if m >= 10080 {
            Some(LimitKind::Weekly)
        } else {
            None
        },
        None => None,
    }
}

/// The list of windows of a rate-limit value.
fn limit_entries(value: &Json) -> (r: Option<&Vec<Json>>)
    ensures
        match r {
            Some(v) => entries_of(*value) == Some(v@),
            None => entries_of(*value) is None,
        },
{
    match value.get("limits") {
        Some(Json::Array(v)) => Some(v),
        _ => match value {
            Json::Array(v) => Some(v),
            _ => None,
        },
    }
}

/// Places every entry of a list, in order, into the (five-hour, weekly)
/// slots.
pub fn classify_entries(entries: &Vec<Json>, now_ms: i64) -> (r: Result<
    (Option<ParsedLimit>, Option<ParsedLimit>),
    UsageError,
>)
    ensures
        r == fill_slots(entries@, now_ms as int),
{
    let mut five: Option<ParsedLimit> = None;
    let mut weekly: Option<ParsedLimit> = None;
    let mut i: usize = 0;
    assert(entries@.take(0) =~= Seq::<Json>::empty());
    while i < entries.len()
        invariant
            i <= entries@.len(),
            fill_slots(entries@.take(i as int), now_ms as int) == Ok::<
                (Option<ParsedLimit>, Option<ParsedLimit>),
                UsageError,
            >((five, weekly)),
        decreases entries@.len() - i,
    {
        let entry = &entries[i];
        let ghost pre = entries@.take(i as int);
        let ghost next = entries@.take(i + 1);
        assert(next.drop_last() =~= pre);
        assert(next.last() == entries@[i as int]);
        let parsed = match parse_rate_limit_entry(entry, now_ms) {
            Ok(p) => p,
            Err(e) => {
                proof {
                    lemma_fill_slots_err_sticks(entries@, now_ms as int, i + 1);
                }
                return Err(e);
            },
        };
        match detect_limit_kind(entry, parsed.window_minutes) {
            Some(LimitKind::FiveHour) => {
                five = Some(parsed);
            },
            Some(LimitKind::Weekly) => {
                weekly = Some(parsed);
            },
            None => {
                if five.is_none() {
                    five = Some(parsed);
                } else if weekly.is_none() {
                    weekly = Some(parsed);
                }
            },
        }
        i = i + 1;
    }
    assert(entries@.take(entries@.len() as int) =~= entries@);
    Ok((five, weekly))
}

/// Once a prefix of the list fails, the whole list fails with the same
/// error.
proof fn lemma_fill_slots_err_sticks(entries: Seq<Json>, now_ms: int, n: int)
    requires
        0 <= n <= entries.len(),
        fill_slots(entries.take(n), now_ms) is Err,
    ensures
        fill_slots(entries, now_ms) == fill_slots(entries.take(n), now_ms),
    decreases entries.len() - n,
{
    if n < entries.len() {
        let next = entries.take(n + 1);
        assert(next.drop_last() =~= entries.take(n));
        lemma_fill_slots_err_sticks(entries, now_ms, n + 1);
    } else {
        assert(entries.take(n) =~= entries);
    }
}

/// Reads the (five-hour, weekly) pair from a rate-limit value: a
/// `primary`/`secondary` pair, a `primary_window`/`secondary_window` pair,
/// or a list of windows classified by name and length.
pub fn parse_rate_limits(value: &Json, now_ms: i64) -> (r: Result<(ParsedLimit, ParsedLimit), UsageError>)
    ensures
        r == rate_limits_of(*value, now_ms as int),
{
    if let (Some(primary), Some(secondary)) = (value.get("primary"), value.get("secondary")) {
        let five = match parse_rate_limit_entry(primary, now_ms) {
            Ok(p) => p,
            Err(e) => return Err(e),
        };
        let weekly = match parse_rate_limit_entry(secondary, now_ms) {
            Ok(p) => p,
            Err(e) => return Err(e),
        };
        return Ok((five, weekly));
    }
    if let (Some(primary), Some(secondary)) = (value.get("primary_window"), value.get("secondary_window")) {
        let five = match parse_rate_limit_entry(primary, now_ms) {
            Ok(p) => p,
            Err(e) => return Err(e),
        };
        let weekly = match parse_rate_limit_entry(secondary, now_ms) {
            Ok(p) => p,
            Err(e) => return Err(e),
        };
        return Ok((five, weekly));
    }
    let entries = match limit_entries(value) {
        Some(v) => v,
        None => return Err(UsageError::MissingRateLimitEntries),
    };
    match classify_entries(entries, now_ms) {
        Ok((Some(five), Some(weekly))) => Ok((five, weekly)),
        Ok(_) => Err(UsageError::MissingRateLimitData),
        Err(e) => Err(e),
    }
}

/// The first entry of a list, parsed, where there is one and it parses.
fn first_entry(entries: &Vec<Json>, now_ms: i64) -> (r: Option<ParsedLimit>)
    ensures
        r == (if entries@.len() > 0 {
            ok_of(parsed_entry(entries@[0], now_ms as int))
        } else {
            None
        }),
{
    if entries.len() == 0 {
        return None;
    }
    match parse_rate_limit_entry(&entries[0], now_ms) {
        Ok(p) => Some(p),
        Err(_) => None,
    }
}

/// Reads an optional single window (such as a code-review quota): the
/// `primary` or `primary_window` member, the first of a `limits` array or
/// of the value as an array, or the value itself; nothing where that fails.
pub fn parse_optional_rate_limit(value: &Json, now_ms: i64) -> (r: Option<ParsedLimit>)
    ensures
        r == optional_limit_of(*value, now_ms as int),
{
    if let Some(primary) = value.get("primary") {
        return match parse_rate_limit_entry(primary, now_ms) {
            Ok(p) => Some(p),
            Err(_) => None,
        };
    }
    if let Some(primary) = value.get("primary_window") {
        return match parse_rate_limit_entry(primary, now_ms) {
            Ok(p) => Some(p),
            Err(_) => None,
        };
    }
    if let Some(Json::Array(entries)) = value.get("limits") {
        return first_entry(entries, now_ms);
    }
    if let Json::Array(entries) = value {
        return first_entry(entries, now_ms);
    }
    match parse_rate_limit_entry(value, now_ms) {
        Ok(p) => Some(p),
        Err(_) => None,
    }
}

} // verus!
