use codex_manager::attribution::{
    bind_session_file_to_account, bind_session_file_to_current_auth, get_current_auth_account_id,
    parse_session_meta, session_binding_for,
};
use codex_manager::bindings::{
    get_latest_bound_session_path, record_binding, sort_session_bindings, update_usage_bindings,
    AccountBindings, SessionBinding, UsageBindingsStore,
};
use codex_manager::error::UsageError;
use codex_manager::json::Json;
use codex_manager::paths::get_account_auth_path;

fn to_json(v: serde_json::Value) -> Json {
    match v {
        serde_json::Value::Null => Json::Null,
        serde_json::Value::Bool(b) => Json::Bool(b),
        serde_json::Value::Number(n) => Json::Number(n.to_string()),
        serde_json::Value::String(s) => Json::Str(s),
        serde_json::Value::Array(a) => Json::Array(a.into_iter().map(to_json).collect()),
        serde_json::Value::Object(m) => {
            Json::Object(m.into_iter().map(|(k, v)| (k, to_json(v))).collect())
        }
    }
}

fn json(text: &str) -> Json {
    to_json(serde_json::from_str(text).unwrap())
}

fn lines(texts: &[&str]) -> Vec<Option<Json>> {
    texts.iter().map(|t| serde_json::from_str(t).ok().map(to_json)).collect()
}

fn binding(sid: &str, created: &str, path: &str, bound: &str) -> SessionBinding {
    SessionBinding {
        session_id: sid.to_string(),
        created_at: created.to_string(),
        file_path: path.to_string(),
        bound_at: bound.to_string(),
    }
}

fn empty_store() -> UsageBindingsStore {
    UsageBindingsStore::new()
}

fn entries_of<'a>(store: &'a UsageBindingsStore, account: &str) -> &'a Vec<SessionBinding> {
    &store.accounts.iter().find(|a| a.account_id == account).unwrap().entries
}

#[test]
fn rebinding_same_session_replaces() {
    let mut store = empty_store();
    update_usage_bindings(&mut store, "acct-a", binding("s1", "2024-01-01", "/l/1.jsonl", "1")).unwrap();
    update_usage_bindings(&mut store, "acct-a", binding("s2", "2024-01-02", "/l/2.jsonl", "2")).unwrap();
    assert_eq!(entries_of(&store, "acct-a").len(), 2);
    update_usage_bindings(&mut store, "acct-a", binding("s1", "2024-01-03", "/l/1b.jsonl", "3")).unwrap();
    let e = entries_of(&store, "acct-a");
    assert_eq!(e.len(), 2);
    assert_eq!(e[0].session_id, "s2");
    assert_eq!(e[1].session_id, "s1");
    assert_eq!(e[1].file_path, "/l/1b.jsonl");
}

#[test]
fn binding_to_another_account_conflicts() {
    let mut store = empty_store();
    update_usage_bindings(&mut store, "acct-a", binding("s1", "2024-01-01", "/l/1.jsonl", "1")).unwrap();
    let r = update_usage_bindings(&mut store, "acct-b", binding("s1", "2024-01-01", "/l/other.jsonl", "2"));
    assert_eq!(r, Err(UsageError::SessionAlreadyBoundElsewhere));
    let r = update_usage_bindings(&mut store, "acct-b", binding("s9", "2024-01-01", "/l/1.jsonl", "2"));
    assert_eq!(r, Err(UsageError::SessionAlreadyBoundElsewhere));
    assert_eq!(store.accounts.len(), 1);
    let e = entries_of(&store, "acct-a");
    assert_eq!(e.len(), 1);
    assert_eq!(e[0].file_path, "/l/1.jsonl");
    assert_eq!(e[0].bound_at, "1");
}

#[test]
fn retention_keeps_most_recent_two_hundred() {
    let mut entries = Vec::new();
    for i in 0..201 {
        entries.push(binding(&format!("s{i}"), &format!("2024-01-01T00:{:04}", i), &format!("/l/{i}.jsonl"), "1"));
    }
    let mut store = empty_store();
    store.accounts.push(AccountBindings { account_id: "acct".to_string(), entries });
    update_usage_bindings(&mut store, "acct", binding("new", "2025-01-01", "/l/new.jsonl", "9")).unwrap();
    let e = entries_of(&store, "acct");
    assert_eq!(e.len(), 200);
    assert_eq!(e[0].session_id, "s2");
    assert_eq!(e[199].session_id, "new");
    assert!(e.iter().all(|b| b.session_id != "s0" && b.session_id != "s1"));
}

#[test]
fn sort_is_stable_by_created_then_bound() {
    let sorted = sort_session_bindings(vec![
        binding("a", "2", "/a", "1"),
        binding("b", "1", "/b", "5"),
        binding("c", "2", "/c", "0"),
        binding("d", "1", "/d", "5"),
    ]);
    let ids: Vec<&str> = sorted.iter().map(|b| b.session_id.as_str()).collect();
    assert_eq!(ids, vec!["b", "d", "c", "a"]);
}

#[test]
fn record_appends_new_session() {
    let r = record_binding(vec![binding("a", "1", "/a", "1")], binding("b", "0", "/b", "1"));
    let ids: Vec<&str> = r.iter().map(|b| b.session_id.as_str()).collect();
    assert_eq!(ids, vec!["b", "a"]);
}

#[test]
fn latest_bound_file_prefers_newest_existing() {
    let mut store = empty_store();
    store.accounts.push(AccountBindings {
        account_id: "acct".to_string(),
        entries: vec![
            binding("a", "1", "/a", "1"),
            binding("b", "2", "/b", "2"),
            binding("c", "3", "/c", "3"),
        ],
    });
    let r = get_latest_bound_session_path(&store, "acct", &vec![Some(50), Some(70), None]);
    assert_eq!(r, Ok("/b".to_string()));
    let r = get_latest_bound_session_path(&store, "acct", &vec![Some(70), Some(70), Some(10)]);
    assert_eq!(r, Ok("/b".to_string()));
    let r = get_latest_bound_session_path(&store, "acct", &vec![None, None, None]);
    assert_eq!(r, Err(UsageError::NoValidBoundFiles));
    let r = get_latest_bound_session_path(&store, "other", &vec![]);
    assert_eq!(r, Err(UsageError::NoBindingsForAccount));
}

#[test]
fn session_meta_and_errors() {
    let ls = lines(&[
        "",
        r#"{"type":"event_msg"}"#,
        r#"{"type":"session_meta","payload":{"id":"abc","timestamp":"2024-05-01T10:00:00Z"}}"#,
    ]);
    assert_eq!(parse_session_meta(&ls), Ok(("abc".to_string(), "2024-05-01T10:00:00Z".to_string())));
    let ls = lines(&[r#"{"type":"session_meta","payload":{"id":"abc"}}"#]);
    assert_eq!(parse_session_meta(&ls), Ok(("abc".to_string(), String::new())));
    assert_eq!(parse_session_meta(&lines(&[r#"{"type":"session_meta"}"#])), Err(UsageError::MissingSessionPayload));
    assert_eq!(
        parse_session_meta(&lines(&[r#"{"type":"session_meta","payload":{"id":5}}"#])),
        Err(UsageError::MissingSessionId)
    );
    assert_eq!(parse_session_meta(&lines(&["{}"])), Err(UsageError::NoSessionMeta));
}

#[test]
fn binding_falls_back_to_path_and_mtime() {
    let b = session_binding_for(&lines(&["not json"]), "/s/x.jsonl", Some(1_700_000_123_456), Some(1_700_000_200_000));
    assert_eq!(b.session_id, "/s/x.jsonl");
    assert_eq!(b.created_at, "1700000123");
    assert_eq!(b.file_path, "/s/x.jsonl");
    assert_eq!(b.bound_at, "1700000200000");
    let b = session_binding_for(&Vec::new(), "/s/y.jsonl", None, None);
    assert_eq!(b.created_at, "0");
    assert_eq!(b.bound_at, "0");
}

#[test]
fn current_account_from_credentials() {
    let doc = json(r#"{"tokens":{"access_token":"t","account_id":"acct-1"}}"#);
    assert_eq!(get_current_auth_account_id(Some(&doc)), Ok("acct-1".to_string()));
    let doc = json(r#"{"tokens":{"access_token":"t"}}"#);
    assert_eq!(get_current_auth_account_id(Some(&doc)), Err(UsageError::NoCurrentAccount));
    assert_eq!(get_current_auth_account_id(None), Err(UsageError::NoCurrentAccount));
}

#[test]
fn bind_to_current_account() {
    let mut store = empty_store();
    let doc = json(r#"{"tokens":{"account_id":"acct-1"}}"#);
    let ls = lines(&[r#"{"type":"session_meta","payload":{"id":"sid","timestamp":"t0"}}"#]);
    bind_session_file_to_current_auth(&mut store, Some(&doc), "/s/a.jsonl", &ls, None, Some(5)).unwrap();
    let e = entries_of(&store, "acct-1");
    assert_eq!(e.len(), 1);
    assert_eq!(e[0].session_id, "sid");
    assert_eq!(e[0].created_at, "t0");
    assert_eq!(e[0].bound_at, "5");
    let r = bind_session_file_to_current_auth(&mut store, None, "/s/b.jsonl", &ls, None, Some(6));
    assert_eq!(r, Err(UsageError::NoCurrentAccount));
    let r = bind_session_file_to_account(&mut store, "acct-2", "/s/a.jsonl", &Vec::new(), None, Some(7));
    assert_eq!(r, Err(UsageError::SessionAlreadyBoundElsewhere));
}

#[test]
fn account_auth_path_joins() {
    assert_eq!(get_account_auth_path("/home/u/.codex_manager/auths", "acct"), "/home/u/.codex_manager/auths/acct.json");
    assert_eq!(get_account_auth_path("/dir/", "acct"), "/dir/acct.json");
    assert_eq!(get_account_auth_path("", "acct"), "acct.json");
    assert_eq!(get_account_auth_path("/dir", "/abs"), "/abs.json");
}

#[test]
fn new_store_is_empty_and_versioned() {
    let s = UsageBindingsStore::new();
    assert_eq!(s.version, "1.0.0");
    assert!(s.accounts.is_empty());
}
