use vstd::prelude::*;

use crate::bindings::{
    bound_elsewhere, store_after, update_usage_bindings, BindingView, SessionBinding,
    UsageBindingsStore,
};
use crate::error::UsageError;
use crate::json::Json;
use crate::text::str_eq;
use crate::usage::{decimal_digits, decimal_string, epoch_ms_text, now_epoch_ms_string};

verus! {

/// A `session_meta` event.
pub open spec fn is_meta_line(line: Option<Json>) -> bool {
    line matches Some(j) && j.str_field("type"@) == Some("session_meta"@)
}

/// The (session id, start time) of a `session_meta` event; a missing start
/// time is empty.
pub open spec fn meta_of(j: Json) -> Result<(Seq<char>, Seq<char>), UsageError> {
    match j.field("payload"@) {
        None => Err(UsageError::MissingSessionPayload),
        Some(p) => match p.str_field("id"@) {
            None => Err(UsageError::MissingSessionId),
            Some(id) => Ok(
                (
                    id,
                    match p.str_field("timestamp"@) {
                        Some(t) => t,
                        None => seq![],
                    },
                ),
            ),
        },
    }
}

/// What the first `session_meta` event of a log gives.
pub open spec fn session_meta_of(lines: Seq<Option<Json>>) -> Result<(Seq<char>, Seq<char>), UsageError>
    decreases lines.len(),
{
    if lines.len() == 0 {
        Err(UsageError::NoSessionMeta)
    } else if is_meta_line(lines[0]) {
        meta_of(lines[0]->0)
    } else {
        session_meta_of(lines.drop_first())
    }
}

fn meta_from(j: &Json) -> (r: Result<(String, String), UsageError>)
    ensures
        match r {
            Ok((a, b)) => meta_of(*j) == Ok::<(Seq<char>, Seq<char>), UsageError>((a@, b@)),
            Err(e) => meta_of(*j) == Err::<(Seq<char>, Seq<char>), UsageError>(e),
        },
{
    let payload = match j.get("payload") {
        Some(p) => p,
        None => return Err(UsageError::MissingSessionPayload),
    };
    let id = match payload.get_str("id") {
        Some(id) => id.clone(),
        None => return Err(UsageError::MissingSessionId),
    };
    let created_at = match payload.get_str("timestamp") {
        Some(t) => t.clone(),
        None => String::new(),
    };
    Ok((id, created_at))
}

/// Reads (session id, start time) from the first `session_meta` event of a
/// log.
pub fn parse_session_meta(lines: &Vec<Option<Json>>) -> (r: Result<(String, String), UsageError>)
    ensures
        match r {
            Ok((a, b)) => session_meta_of(lines@) == Ok::<(Seq<char>, Seq<char>), UsageError>(
                (a@, b@),
            ),
            Err(e) => session_meta_of(lines@) == Err::<(Seq<char>, Seq<char>), UsageError>(e),
        },
{
    let mut i: usize = 0;
    assert(lines@.skip(0) =~= lines@);
    while i < lines.len()
        invariant
            i <= lines@.len(),
            session_meta_of(lines@) == session_meta_of(lines@.skip(i as int)),
        decreases lines@.len() - i,
    {
        assert(lines@.skip(i as int)[0] == lines@[i as int]);
        if let Some(j) = &lines[i] {
            if let Some(t) = j.get_str("type") {
                if str_eq(t.as_str(), "session_meta") {
                    return meta_from(j);
                }
            }
        }
        assert(lines@.skip(i as int).drop_first() =~= lines@.skip(i + 1));
        i = i + 1;
    }
    Err(UsageError::NoSessionMeta)
}

/// A member that decodes as an optional string: absent, `null`, or a string.
pub open spec fn optional_text_ok(f: Option<Json>) -> bool {
    f is None || f == Some(Json::Null) || f matches Some(Json::Str(_))
}

/// The active account of a credential document: `tokens.account_id`, where
/// the document decodes (objects where objects are due, token members
/// strings or `null`).
pub open spec fn current_account_of(doc: Json) -> Option<Seq<char>> {
    if !(doc is Object) {
        None
    } else {
        match doc.field("tokens"@) {
            Some(t) => if t is Object && optional_text_ok(t.field("access_token"@)) && optional_text_ok(
                t.field("account_id"@),
            ) {
                t.str_field("account_id"@)
            } else {
                None
            },
            None => None,
        }
    }
}

fn optional_text_field_ok(j: &Json, key: &str) -> (r: bool)
    ensures
        r == optional_text_ok(j.field(key@)),
{
    match j.get(key) {
        None => true,
        Some(Json::Null) => true,
        Some(Json::Str(_)) => true,
        Some(_) => false,
    }
}

/// The active account's id from the credential document (`None` where the
/// document is absent or unreadable). Fails with `NoCurrentAccount` where it
/// names none.
pub fn get_current_auth_account_id(auth: Option<&Json>) -> (r: Result<String, UsageError>)
    ensures
        match r {
            Ok(id) => auth matches Some(doc) && current_account_of(*doc) == Some(id@),
            Err(e) => e == UsageError::NoCurrentAccount && (auth is None || current_account_of(
                *auth->0,
            ) is None),
        },
{
    let doc = match auth {
        Some(d) => d,
        None => return Err(UsageError::NoCurrentAccount),
    };
    if !matches!(doc, Json::Object(_)) {
        return Err(UsageError::NoCurrentAccount);
    }
    let tokens = match doc.get("tokens") {
        Some(t) => t,
        None => return Err(UsageError::NoCurrentAccount),
    };
    if !matches!(tokens, Json::Object(_)) || !optional_text_field_ok(tokens, "access_token")
        || !optional_text_field_ok(tokens, "account_id") {
        return Err(UsageError::NoCurrentAccount);
    }
    match tokens.get_str("account_id") {
        Some(id) => Ok(id.clone()),
        None => Err(UsageError::NoCurrentAccount),
    }
}

/// The start time recorded for a log without `session_meta`: its
/// modification time in whole seconds, else `"0"`.
pub open spec fn fallback_created(modified_ms: Option<u128>) -> Seq<char> {
    match modified_ms {
        Some(ms) => decimal_digits((ms / 1000) as nat),
        None => seq!['0'],
    }
}

/// The binding made for a session log: its `session_meta` (session id and
/// start time) where it has one, else its path and modification time;
/// stamped as bound at `now_ms`.
pub open spec fn binding_for(
    lines: Seq<Option<Json>>,
    path: Seq<char>,
    modified_ms: Option<u128>,
    now_ms: Option<u128>,
) -> BindingView {
    match session_meta_of(lines) {
        Ok((id, created)) => (id, created, path, epoch_ms_text(now_ms)),
        Err(_) => (path, fallback_created(modified_ms), path, epoch_ms_text(now_ms)),
    }
}

/// Builds the binding of a session log (see `binding_for`).
pub fn session_binding_for(
    lines: &Vec<Option<Json>>,
    file_path: &str,
    modified_ms: Option<u128>,
    now_ms: Option<u128>,
) -> (r: SessionBinding)
    ensures
        r@ == binding_for(lines@, file_path@, modified_ms, now_ms),
{
    let (session_id, created_at) = match parse_session_meta(lines) {
        Ok(meta) => meta,
        Err(_) => {
            let created = match modified_ms {
                Some(ms) => decimal_string(ms / 1000),
                None => {
                    let z = String::from_str("0");
                    proof {
                        reveal_strlit("0");
                    }
                    z
                },
            };
            (String::from_str(file_path), created)
        },
    };
    SessionBinding {
        session_id,
        created_at,
        file_path: String::from_str(file_path),
        bound_at: now_epoch_ms_string(now_ms),
    }
}

/// Binds a session log to `account_id` (see `update_usage_bindings`).
pub fn bind_session_file_to_account(
    store: &mut UsageBindingsStore,
    account_id: &str,
    file_path: &str,
    lines: &Vec<Option<Json>>,
    modified_ms: Option<u128>,
    now_ms: Option<u128>,
) -> (r: Result<(), UsageError>)
    requires
        old(store).wf(),
    ensures
        final(store).wf(),
        ({
            let b = binding_for(lines@, file_path@, modified_ms, now_ms);
            &&& bound_elsewhere(old(store)@, account_id@, b) ==> r == Err::<(), UsageError>(
                UsageError::SessionAlreadyBoundElsewhere,
            ) && final(store)@ == old(store)@
            &&& !bound_elsewhere(old(store)@, account_id@, b) ==> r is Ok && final(store)@
                == store_after(old(store)@, account_id@, b)
        }),
{
    let binding = session_binding_for(lines, file_path, modified_ms, now_ms);
    update_usage_bindings(store, account_id, binding)
}

/// Binds a session log to the account that the credential document names.
/// Fails with `NoCurrentAccount`, leaving the store as it was, where it
/// names none.
pub fn bind_session_file_to_current_auth(
    store: &mut UsageBindingsStore,
    auth: Option<&Json>,
    file_path: &str,
    lines: &Vec<Option<Json>>,
    modified_ms: Option<u128>,
    now_ms: Option<u128>,
) -> (r: Result<(), UsageError>)
    requires
        old(store).wf(),
    ensures
        final(store).wf(),
        (auth is None || current_account_of(*auth->0) is None) ==> r == Err::<(), UsageError>(
            UsageError::NoCurrentAccount,
        ) && final(store)@ == old(store)@,
        (auth matches Some(doc) && current_account_of(*doc) matches Some(acct)) ==> ({
            let b = binding_for(lines@, file_path@, modified_ms, now_ms);
            let acct = current_account_of(*auth->0)->0;
            &&& bound_elsewhere(old(store)@, acct, b) ==> r == Err::<(), UsageError>(
                UsageError::SessionAlreadyBoundElsewhere,
            ) && final(store)@ == old(store)@
            &&& !bound_elsewhere(old(store)@, acct, b) ==> r is Ok && final(store)@ == store_after(
                old(store)@,
                acct,
                b,
            )
        }),
{
    let account_id = match get_current_auth_account_id(auth) {
        Ok(id) => id,
        Err(e) => return Err(e),
    };
    bind_session_file_to_account(store, account_id.as_str(), file_path, lines, modified_ms, now_ms)
}

} // verus!
