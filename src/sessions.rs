use vstd::prelude::*;

use crate::error::UsageError;
use crate::json::{holds_text, json_contains_string, Json};
use crate::legacy::{last_pair, latest_rate_limits, pair_usage, usage_from_pair};
use crate::percent::Ratio;
use crate::text::str_eq;
use crate::usage::{last_updated_string, last_updated_text, UsageData};

verus! {

/// A session log as read from disk: its path, its modification time in
/// milliseconds since the epoch (where known), and its lines (`None` where
/// the file could not be opened; a blank or undecodable line is `None`).
pub struct SessionLog {
    pub path: String,
    pub modified_ms: Option<u128>,
    pub lines: Option<Vec<Option<Json>>>,
}

/// `u` is the snapshot of a reading's usage, stamped `last` and taken from
/// `source`, with no code-review window.
pub open spec fn is_snapshot(
    u: UsageData,
    usage: (Ratio, i64, Ratio, i64),
    last: Seq<char>,
    source: Seq<char>,
) -> bool {
    &&& u.five_hour_percent_left == usage.0
    &&& u.five_hour_reset_time_ms == usage.1
    &&& u.weekly_percent_left == usage.2
    &&& u.weekly_reset_time_ms == usage.3
    &&& u.code_review_percent_left is None
    &&& u.code_review_reset_time_ms is None
    &&& u.last_updated@ == last
    &&& u.source_file matches Some(s) && s@ == source
}

/// `r` is the snapshot of the last complete reading in `lines`: fails with
/// `NoRateLimitsFound` where there is none, and with the reading's own error
/// where it is out of range.
pub open spec fn is_file_snapshot(
    r: Result<UsageData, UsageError>,
    lines: Seq<Option<Json>>,
    last: Seq<char>,
    source: Seq<char>,
) -> bool {
    match last_pair(lines) {
        None => r == Err::<UsageData, UsageError>(UsageError::NoRateLimitsFound),
        Some(pair) => match pair_usage(pair) {
            Err(e) => r == Err::<UsageData, UsageError>(e),
            Ok(usage) => r matches Ok(u) && is_snapshot(u, usage, last, source),
        },
    }
}

fn snapshot(usage: (Ratio, i64, Ratio, i64), last_updated: String, source: &str) -> (u: UsageData)
    ensures
        is_snapshot(u, usage, last_updated@, source@),
{
    UsageData {
        five_hour_percent_left: usage.0,
        five_hour_reset_time_ms: usage.1,
        weekly_percent_left: usage.2,
        weekly_reset_time_ms: usage.3,
        code_review_percent_left: None,
        code_review_reset_time_ms: None,
        last_updated,
        source_file: Some(String::from_str(source)),
    }
}

/// The usage snapshot of one session log: its last complete rate-limit
/// reading ("last write wins"), stamped with the file's modification time
/// (else the current time) and its path.
pub fn parse_rate_limits_from_file(
    lines: &Vec<Option<Json>>,
    file_path: &str,
    modified_ms: Option<u128>,
    now_ms: Option<u128>,
) -> (r: Result<UsageData, UsageError>)
    ensures
        is_file_snapshot(r, lines@, last_updated_text(modified_ms, now_ms), file_path@),
{
    let pair = match latest_rate_limits(lines) {
        Some(p) => p,
        None => return Err(UsageError::NoRateLimitsFound),
    };
    let usage = match usage_from_pair(pair) {
        Ok(u) => u,
        Err(e) => return Err(e),
    };
    Ok(snapshot(usage, last_updated_string(modified_ms, now_ms), file_path))
}

/// A line that attributes its log to `email`: a `session_meta` or
/// `turn_context` event in which some string equals the (non-empty) email.
pub open spec fn mentions_account(line: Option<Json>, email: Seq<char>) -> bool {
    &&& email.len() > 0
    &&& line matches Some(j)
    &&& j.str_field("type"@) matches Some(t)
    &&& (t == "session_meta"@ || t == "turn_context"@)
    &&& holds_text(j, email)
}

/// A log that belongs to `email` and holds a complete reading.
pub open spec fn qualifies(log: SessionLog, email: Seq<char>) -> bool {
    &&& log.lines matches Some(ls)
    &&& exists|i: int| 0 <= i < ls@.len() && #[trigger] mentions_account(ls@[i], email)
    &&& last_pair(ls@) is Some
}

/// Whether a line attributes its log to `email`.
fn line_mentions_account(line: &Option<Json>, email: &str) -> (r: bool)
    ensures
        r == mentions_account(*line, email@),
{
    if email.unicode_len() == 0 {
        return false;
    }
    match line {
        Some(j) => match j.get_str("type") {
            Some(t) => (str_eq(t.as_str(), "session_meta") || str_eq(t.as_str(), "turn_context"))
                && json_contains_string(j, email),
            None => false,
        },
        None => false,
    }
}

/// Whether some line of a log attributes it to `email`.
fn log_mentions_account(lines: &Vec<Option<Json>>, email: &str) -> (r: bool)
    ensures
        r == exists|i: int| 0 <= i < lines@.len() && #[trigger] mentions_account(lines@[i], email@),
{
    let mut i: usize = 0;
    while i < lines.len()
        invariant
            i <= lines@.len(),
            forall|j: int| 0 <= j < i ==> !#[trigger] mentions_account(lines@[j], email@),
        decreases lines@.len() - i,
    {
        if line_mentions_account(&lines[i], email) {
            return true;
        }
        i = i + 1;
    }
    false
}

/// The usage of the account with `email`, from the first of `logs` (given
/// most recent first) that mentions the account in a `session_meta` or
/// `turn_context` event and holds a complete reading.
pub fn get_account_usage(account_email: &str, logs: &Vec<SessionLog>, now_ms: Option<u128>) -> (r: Result<UsageData, UsageError>)
    ensures
        match r {
            Err(UsageError::NoUsageForAccount) => forall|k: int|
                0 <= k < logs@.len() ==> !qualifies(#[trigger] logs@[k], account_email@),
            _ => exists|k: int|
                0 <= k < logs@.len() && qualifies(logs@[k], account_email@) && (forall|j: int|
                    0 <= j < k ==> !qualifies(#[trigger] logs@[j], account_email@)) && is_file_snapshot(
                    r,
                    logs@[k].lines->0@,
                    last_updated_text(logs@[k].modified_ms, now_ms),
                    logs@[k].path@,
                ),
        },
{
    let mut k: usize = 0;
    while k < logs.len()
        invariant
            k <= logs@.len(),
            forall|j: int| 0 <= j < k ==> !qualifies(#[trigger] logs@[j], account_email@),
        decreases logs@.len() - k,
    {
        let log = &logs[k];
        if let Some(lines) = &log.lines {
            if log_mentions_account(lines, account_email) {
                if let Some(pair) = latest_rate_limits(lines) {
                    assert(qualifies(logs@[k as int], account_email@));
                    let r = match usage_from_pair(pair) {
                        Ok(usage) => Ok(
                            snapshot(
                                usage,
                                last_updated_string(log.modified_ms, now_ms),
                                log.path.as_str(),
                            ),
                        ),
                        Err(e) => Err(e),
                    };
                    proof {
                        assert(pair_usage(pair) != Err::<(Ratio, i64, Ratio, i64), UsageError>(UsageError::NoUsageForAccount)) by {
                            crate::legacy::lemma_pair_usage_errors(pair);
                        }
                    }
                    return r;
                }
            }
        }
        k = k + 1;
    }
    Err(UsageError::NoUsageForAccount)
}

} // verus!
