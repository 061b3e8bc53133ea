use vstd::prelude::*;

use crate::error::UsageError;

verus! {

/// 2000-01-01T00:00:00Z in epoch milliseconds.
pub const MIN_VALID_EPOCH_MS: i64 = 946684800000;

/// 2100-01-01T00:00:00Z in epoch milliseconds.
pub const MAX_VALID_EPOCH_MS: i64 = 4102444800000;

/// Raw values at or above this are taken to be milliseconds already.
pub const MS_THRESHOLD: i64 = 1000000000000;

/// A raw timestamp read as milliseconds (at or above the threshold) or as
/// seconds (below it).
pub open spec fn as_epoch_ms(raw: int) -> int {
    if raw >= MS_THRESHOLD {
        raw
    } else {
        raw * 1000
    }
}

/// What normalizing a raw timestamp gives.
pub open spec fn normalized_timestamp(raw: int) -> Result<int, UsageError> {
    if raw <= 0 {
        Err(UsageError::InvalidTimestamp)
    } else if as_epoch_ms(raw) < MIN_VALID_EPOCH_MS || as_epoch_ms(raw) > MAX_VALID_EPOCH_MS {
        Err(UsageError::TimestampOutOfRange)
    } else {
        Ok(as_epoch_ms(raw))
    }
}

/// Converts a reset timestamp given in seconds or milliseconds to epoch
/// milliseconds, rejecting non-positive values and values outside the years
/// 2000 to 2100.
pub fn normalize_unix_timestamp_ms(timestamp: i64) -> (r: Result<i64, UsageError>)
    ensures
        r matches Ok(v) ==> normalized_timestamp(timestamp as int) == Ok::<int, UsageError>(v as int),
        r matches Err(e) ==> normalized_timestamp(timestamp as int) == Err::<int, UsageError>(e),
{
    if timestamp <= 0 {
        return Err(UsageError::InvalidTimestamp);
    }
    let ms: i64 = if timestamp >= MS_THRESHOLD {
        timestamp
    } else {
        timestamp * 1000
    };
    if ms < MIN_VALID_EPOCH_MS || ms > MAX_VALID_EPOCH_MS {
        return Err(UsageError::TimestampOutOfRange);
    }
    Ok(ms)
}

} // verus!
