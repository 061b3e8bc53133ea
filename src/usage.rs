use vstd::prelude::*;

use crate::percent::Ratio;

verus! {

/// The usage snapshot handed to a caller: the five-hour and weekly windows,
/// an optional code-review window, when it was read, and from which file.
#[derive(Clone, Debug)]
pub struct UsageData {
    pub five_hour_percent_left: Ratio,
    pub five_hour_reset_time_ms: i64,
    pub weekly_percent_left: Ratio,
    pub weekly_reset_time_ms: i64,
    pub code_review_percent_left: Option<Ratio>,
    pub code_review_reset_time_ms: Option<i64>,
    pub last_updated: String,
    pub source_file: Option<String>,
}

/// The decimal digits of `n`, most significant first, without leading
/// zeros.
pub open spec fn decimal_digits(n: nat) -> Seq<char>
    decreases n,
{
    if n < 10 {
        seq![('0' as u8 + n as u8) as char]
    } else {
        decimal_digits(n / 10).push(('0' as u8 + (n % 10) as u8) as char)
    }
}

/// Relies on `u128`'s `Display` (through `to_string`): the decimal digits of
/// the number, without sign or leading zeros.
#[verifier::external_body]
pub(crate) fn decimal_string(n: u128) -> (r: String)
    ensures
        r@ == decimal_digits(n as nat),
{
    n.to_string()
}

/// The text of an epoch-millisecond time; `"0"` when the clock was before
/// the epoch.
pub open spec fn epoch_ms_text(now_ms: Option<u128>) -> Seq<char> {
    match now_ms {
        Some(ms) => decimal_digits(ms as nat),
        None => seq!['0'],
    }
}

/// Formats the current time, given as milliseconds since the epoch (`None`
/// when the clock is before the epoch), as decimal text.
pub fn now_epoch_ms_string(now_ms: Option<u128>) -> (r: String)
    ensures
        r@ == epoch_ms_text(now_ms),
{
    match now_ms {
        Some(ms) => decimal_string(ms),
        None => {
            let r = String::from_str("0");
            proof {
                reveal_strlit("0");
            }
            r
        },
    }
}

/// The milliseconds elapsed since the epoch, where they fit in `i64`.
pub fn epoch_ms_from_system_time(elapsed_ms: Option<u128>) -> (r: Option<i64>)
    ensures
        r == (match elapsed_ms {
            Some(ms) => if ms <= i64::MAX {
                Some(ms as i64)
            } else {
                None
            },
            None => None,
        }),
{
    match elapsed_ms {
        Some(ms) => if ms <= i64::MAX as u128 {
            Some(ms as i64)
        } else {
            None
        },
        None => None,
    }
}

/// The `last_updated` text of a snapshot read from a file: the file's
/// modification time in epoch milliseconds, else the current time.
pub open spec fn last_updated_text(modified_ms: Option<u128>, now_ms: Option<u128>) -> Seq<char> {
    match modified_ms {
        Some(ms) => if ms <= i64::MAX {
            decimal_digits(ms as nat)
        } else {
            epoch_ms_text(now_ms)
        },
        None => epoch_ms_text(now_ms),
    }
}

/// The `last_updated` text for a file modified at `modified_ms` (since the
/// epoch), falling back to the current time.
pub fn last_updated_string(modified_ms: Option<u128>, now_ms: Option<u128>) -> (r: String)
    ensures
        r@ == last_updated_text(modified_ms, now_ms),
{
    match epoch_ms_from_system_time(modified_ms) {
        Some(ms) => decimal_string(ms as u128),
        None => now_epoch_ms_string(now_ms),
    }
}

} // verus!
