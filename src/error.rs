use vstd::prelude::*;

verus! {

/// Every way in which an operation of this library can fail.
#[derive(Clone, Copy, Debug, PartialEq, Eq, Structural)]
pub enum UsageError {
    /// A reset timestamp that is zero or negative.
    InvalidTimestamp,
    /// A reset timestamp outside the years 2000 to 2100.
    TimestampOutOfRange,
    /// A used percentage outside `[0, 100]`.
    InvalidPercent,
    /// A limit (or total, or capacity) that is zero or negative.
    InvalidLimit,
    /// A window with none of the recognised usage shapes.
    MissingUsageFields,
    /// A window without any reset field.
    MissingResetTimestamp,
    /// A rate-limit value with neither a window pair nor a list of windows.
    MissingRateLimitEntries,
    /// A list of windows that leaves the five-hour or the weekly slot empty.
    MissingRateLimitData,
    /// A log without any complete rate-limit reading.
    NoRateLimitsFound,
    /// The sessions root does not exist.
    NoSessionsDirectory,
    /// The sessions root holds no session log.
    NoSessionFiles,
    /// None of the inspected logs mentions the account and holds a reading.
    NoUsageForAccount,
    /// Another account already owns the session id or the file path.
    SessionAlreadyBoundElsewhere,
    /// The account has no bindings.
    NoBindingsForAccount,
    /// None of the account's bound files exists any more.
    NoValidBoundFiles,
    /// The credential document names no active account.
    NoCurrentAccount,
    /// A `session_meta` event without a payload.
    MissingSessionPayload,
    /// A `session_meta` payload without a string id.
    MissingSessionId,
    /// A log without a `session_meta` event.
    NoSessionMeta,
    /// A usage response whose body is not JSON.
    MalformedResponse,
}

} // verus!
