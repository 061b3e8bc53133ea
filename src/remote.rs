use vstd::prelude::*;

use crate::error::UsageError;
use crate::json::Json;
use crate::limits::{optional_limit_of, parse_optional_rate_limit, parse_rate_limits, rate_limits_of};
use crate::text::{chars_of, str_eq};
use crate::usage::{epoch_ms_from_system_time, epoch_ms_text, now_epoch_ms_string, UsageData};
use crate::attribution::optional_text_ok;

verus! {

/// How a remote usage query ended.
#[derive(Clone, Copy, Debug, PartialEq, Eq, Structural)]
pub enum UsageStatus {
    Success,
    MissingAccountId,
    MissingToken,
    Error,
    Expired,
    Forbidden,
    NoCodexAccess,
    NoUsage,
}

/// The answer to a remote usage query. `error` says why a `NoUsage` answer
/// has no usage, where the rate-limit value did not parse.
#[derive(Clone, Debug)]
pub struct UsageResult {
    pub status: UsageStatus,
    pub error: Option<UsageError>,
    pub plan_type: Option<String>,
    pub usage: Option<UsageData>,
}

/// An answer that carries only a status.
pub open spec fn is_bare(r: UsageResult, status: UsageStatus) -> bool {
    r.status == status && r.error is None && r.plan_type is None && r.usage is None
}

fn bare(status: UsageStatus) -> (r: UsageResult)
    ensures
        is_bare(r, status),
{
    UsageResult { status, error: None, plan_type: None, usage: None }
}

/// What a query needs from the account's credential document.
pub struct Credentials {
    pub access_token: String,
    pub account_id: String,
}

/// What the credential document allows.
pub enum AuthCheck {
    /// Both the bearer token and the account id are there.
    Ready(Credentials),
    /// The query stops with this status.
    Stop(UsageStatus),
    /// The document does not decode.
    Undecodable,
}

/// The credential document decodes: an object whose `tokens` is absent,
/// `null`, or an object whose token members are strings or `null`.
pub open spec fn auth_decodes(doc: Json) -> bool {
    doc is Object && match doc.field("tokens"@) {
        None => true,
        Some(Json::Null) => true,
        Some(t) => t is Object && optional_text_ok(t.field("access_token"@)) && optional_text_ok(
            t.field("account_id"@),
        ),
    }
}

/// The query stops before it is sent: without an account id.
pub fn missing_account_result(account_id: &str) -> (r: Option<UsageResult>)
    ensures
        account_id@.len() == 0 ==> (r matches Some(u) && is_bare(u, UsageStatus::MissingAccountId)),
        account_id@.len() > 0 ==> r is None,
{
    if account_id.unicode_len() == 0 {
        Some(bare(UsageStatus::MissingAccountId))
    } else {
        None
    }
}

/// Reads the bearer token and account id from a credential document:
/// `MissingToken` where the tokens or the access token are absent,
/// `MissingAccountId` where the account id is.
pub fn check_credentials(doc: &Json) -> (r: AuthCheck)
    ensures
        !auth_decodes(*doc) ==> r is Undecodable,
        auth_decodes(*doc) ==> ({
            let t = doc.field("tokens"@);
            if t is None || t == Some(Json::Null) {
                r == AuthCheck::Stop(UsageStatus::MissingToken)
            } else if t->0.str_field("access_token"@) is None {
                r == AuthCheck::Stop(UsageStatus::MissingToken)
            } else if t->0.str_field("account_id"@) is None {
                r == AuthCheck::Stop(UsageStatus::MissingAccountId)
            } else {
                r matches AuthCheck::Ready(c) && c.access_token@ == t->0.str_field("access_token"@)->0
                    && c.account_id@ == t->0.str_field("account_id"@)->0
            }
        }),
{
    if !matches!(doc, Json::Object(_)) {
        return AuthCheck::Undecodable;
    }
    let tokens = match doc.get("tokens") {
        None => return AuthCheck::Stop(UsageStatus::MissingToken),
        Some(Json::Null) => return AuthCheck::Stop(UsageStatus::MissingToken),
        Some(t) => t,
    };
    if !matches!(tokens, Json::Object(_)) {
        return AuthCheck::Undecodable;
    }
    let access = tokens.get("access_token");
    let account = tokens.get("account_id");
    let access_ok = match access {
        None => true,
        Some(Json::Null) => true,
        Some(Json::Str(_)) => true,
        Some(_) => false,
    };
    let account_ok = match account {
        None => true,
        Some(Json::Null) => true,
        Some(Json::Str(_)) => true,
        Some(_) => false,
    };
    if !access_ok || !account_ok {
        return AuthCheck::Undecodable;
    }
    let access_token = match tokens.get_str("access_token") {
        Some(s) => s.clone(),
        None => return AuthCheck::Stop(UsageStatus::MissingToken),
    };
    let account_id = match tokens.get_str("account_id") {
        Some(s) => s.clone(),
        None => return AuthCheck::Stop(UsageStatus::MissingAccountId),
    };
    AuthCheck::Ready(Credentials { access_token, account_id })
}

/// A white-space character in Unicode's sense (what `char::is_whitespace`
/// accepts).
pub open spec fn is_white(c: char) -> bool {
    ('\u{9}' <= c && c <= '\u{d}') || c == ' ' || c == '\u{85}' || c == '\u{a0}' || c == '\u{1680}'
        || ('\u{2000}' <= c && c <= '\u{200a}') || c == '\u{2028}' || c == '\u{2029}' || c
        == '\u{202f}' || c == '\u{205f}' || c == '\u{3000}'
}

/// Nothing but white space (what is empty once trimmed).
pub open spec fn blank(s: Seq<char>) -> bool {
    forall|i: int| 0 <= i < s.len() ==> is_white(#[trigger] s[i])
}

fn is_blank(s: &str) -> (r: bool)
    ensures
        r == blank(s@),
{
    let cs = chars_of(s);
    let mut i: usize = 0;
    while i < cs.len()
        invariant
            cs@ == s@,
            i <= cs@.len(),
            forall|j: int| 0 <= j < i ==> is_white(#[trigger] cs@[j]),
        decreases cs@.len() - i,
    {
        let c = cs[i];
        let white = ('\u{9}' <= c && c <= '\u{d}') || c == ' ' || c == '\u{85}' || c == '\u{a0}'
            || c == '\u{1680}' || ('\u{2000}' <= c && c <= '\u{200a}') || c == '\u{2028}' || c
            == '\u{2029}' || c == '\u{202f}' || c == '\u{205f}' || c == '\u{3000}';
        if !white {
            return false;
        }
        i = i + 1;
    }
    true
}

/// How the query reaches the endpoint.
#[derive(Debug)]
pub enum ProxyChoice {
    Direct,
    Via(String),
    /// The proxy is switched on without an address: the query stops with
    /// `Error`.
    MissingAddress,
}

/// Decides the proxy: none unless switched on; switched on, the address,
/// which must not be blank.
pub fn proxy_choice(proxy_enabled: Option<bool>, proxy_url: Option<String>) -> (r: ProxyChoice)
    ensures
        proxy_enabled != Some(true) ==> r is Direct,
        proxy_enabled == Some(true) ==> match proxy_url {
            Some(u) => if blank(u@) {
                r is MissingAddress
            } else {
                r matches ProxyChoice::Via(v) && v@ == u@
            },
            None => r is MissingAddress,
        },
{
    if proxy_enabled != Some(true) {
        return ProxyChoice::Direct;
    }
    match proxy_url {
        Some(u) => if is_blank(u.as_str()) {
            ProxyChoice::MissingAddress
        } else {
            ProxyChoice::Via(u)
        },
        None => {
            proof {
                assert(blank(Seq::<char>::empty()));
            }
            ProxyChoice::MissingAddress
        },
    }
}

/// The pause before another try after a transport failure: one retry,
/// after one second; after a second failure the query gives up.
pub fn retry_delay_ms(failures: u32) -> (r: Option<u64>)
    ensures
        failures == 1 ==> r == Some(1000u64),
        failures != 1 ==> r is None,
{
    if failures == 1 {
        Some(1000)
    } else {
        None
    }
}

/// The rate-limit value of a response body: `rate_limit`, else
/// `rate_limits`.
pub open spec fn rate_limit_value(body: Json) -> Option<Json> {
    match body.field("rate_limit"@) {
        Some(v) => Some(v),
        None => body.field("rate_limits"@),
    }
}

/// The millisecond clock that relative reset fields count from (0 where
/// unknown).
pub open spec fn clock_ms(now_ms: Option<u128>) -> int {
    match now_ms {
        Some(ms) => if ms <= i64::MAX {
            ms as int
        } else {
            0
        },
        None => 0,
    }
}

/// What a usage response means. `401` is `Expired`, `403` `Forbidden`, any
/// other status outside `200..=299` `Error`. A successful body that is not
/// JSON fails with `MalformedResponse`. A `free` plan is `NoCodexAccess`.
/// Without a rate-limit value, or with one that does not parse, it is
/// `NoUsage`; otherwise `Success`, with the five-hour and weekly windows and the
/// optional code-review window, stamped with the current time.
pub fn classify_usage_response(status: u16, body: Option<&Json>, now_ms: Option<u128>) -> (r: Result<UsageResult, UsageError>)
    ensures
        status == 401 ==> (r matches Ok(u) && is_bare(u, UsageStatus::Expired)),
        status == 403 ==> (r matches Ok(u) && is_bare(u, UsageStatus::Forbidden)),
        status != 401 && status != 403 && !(200 <= status <= 299) ==> (r matches Ok(u) && is_bare(
            u,
            UsageStatus::Error,
        )),
        200 <= status <= 299 && body is None ==> r == Err::<UsageResult, UsageError>(
            UsageError::MalformedResponse,
        ),
        200 <= status <= 299 && body is Some ==> ({
            let b = *body->0;
            let plan = b.str_field("plan_type"@);
            &&& r matches Ok(u)
            &&& (match u.plan_type {
                Some(p) => plan == Some(p@),
                None => plan is None,
            })
            &&& if plan == Some("free"@) {
                u.status == UsageStatus::NoCodexAccess && u.usage is None && u.error is None
            } else {
                match rate_limit_value(b) {
                    None => u.status == UsageStatus::NoUsage && u.usage is None && u.error is None,
                    Some(rl) => match rate_limits_of(rl, clock_ms(now_ms)) {
                        Err(e) => u.status == UsageStatus::NoUsage && u.usage is None && u.error
                            == Some(e),
                        Ok((five, weekly)) => {
                            let code_review = match b.field("code_review_rate_limit"@) {
                                Some(c) => optional_limit_of(c, clock_ms(now_ms)),
                                None => None,
                            };
                            &&& u.status == UsageStatus::Success
                            &&& u.error is None
                            &&& u.usage matches Some(d)
                            &&& d.five_hour_percent_left == five.percent_left
                            &&& d.five_hour_reset_time_ms == five.reset_time_ms
                            &&& d.weekly_percent_left == weekly.percent_left
                            &&& d.weekly_reset_time_ms == weekly.reset_time_ms
                            &&& d.code_review_percent_left == (match code_review {
                                Some(c) => Some(c.percent_left),
                                None => None,
                            })
                            &&& d.code_review_reset_time_ms == (match code_review {
                                Some(c) => Some(c.reset_time_ms),
                                None => None,
                            })
                            &&& d.last_updated@ == epoch_ms_text(now_ms)
                            &&& d.source_file is None
                        },
                    },
                }
            }
        }),
{
    if status == 401 {
        return Ok(bare(UsageStatus::Expired));
    }
    if status == 403 {
        return Ok(bare(UsageStatus::Forbidden));
    }
    if !(200 <= status && status <= 299) {
        return Ok(bare(UsageStatus::Error));
    }
    let b = match body {
        Some(b) => b,
        None => return Err(UsageError::MalformedResponse),
    };
    let plan_type: Option<String> = match b.get_str("plan_type") {
        Some(p) => Some(p.clone()),
        None => None,
    };
    let is_free = match &plan_type {
        Some(p) => str_eq(p.as_str(), "free"),
        None => false,
    };
    if is_free {
        return Ok(UsageResult { status: UsageStatus::NoCodexAccess, error: None, plan_type, usage: None });
    }
    let rl = match b.get("rate_limit") {
        Some(v) => v,
        None => match b.get("rate_limits") {
            Some(v) => v,
            None => return Ok(UsageResult { status: UsageStatus::NoUsage, error: None, plan_type, usage: None }),
        },
    };
    let clock: i64 = match epoch_ms_from_system_time(now_ms) {
        Some(v) => v,
        None => 0,
    };
    let (five, weekly) = match parse_rate_limits(rl, clock) {
        Ok(pair) => pair,
        Err(e) => return Ok(UsageResult { status: UsageStatus::NoUsage, error: Some(e), plan_type, usage: None }),
    };
    let code_review = match b.get("code_review_rate_limit") {
        Some(c) => parse_optional_rate_limit(c, clock),
        None => None,
    };
    let usage = UsageData {
        five_hour_percent_left: five.percent_left,
        five_hour_reset_time_ms: five.reset_time_ms,
        weekly_percent_left: weekly.percent_left,
        weekly_reset_time_ms: weekly.reset_time_ms,
        code_review_percent_left: match code_review {
            Some(c) => Some(c.percent_left),
            None => None,
        },
        code_review_reset_time_ms: match code_review {
            Some(c) => Some(c.reset_time_ms),
            None => None,
        },
        last_updated: now_epoch_ms_string(now_ms),
        source_file: None,
    };
    Ok(UsageResult { status: UsageStatus::Success, error: None, plan_type, usage: Some(usage) })
}

} // verus!
