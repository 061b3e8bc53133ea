use codex_manager::discovery::{find_latest_session_file, is_session_log_name, recent_session_files};
use codex_manager::error::UsageError;
use codex_manager::json::Json;
use codex_manager::legacy::latest_rate_limits;
use codex_manager::percent::Ratio;
use codex_manager::remote::{
    check_credentials, classify_usage_response, missing_account_result, proxy_choice,
    retry_delay_ms, AuthCheck, ProxyChoice, UsageStatus,
};
use codex_manager::sessions::{get_account_usage, parse_rate_limits_from_file, SessionLog};
use codex_manager::usage::{epoch_ms_from_system_time, last_updated_string, now_epoch_ms_string};

fn to_json(v: serde_json::Value) -> Json {
    match v {
        serde_json::Value::Null => Json::Null,
        serde_json::Value::Bool(b) => Json::Bool(b),
        serde_json::Value::Number(n) => Json::Number(n.to_string()),
        serde_json::Value::String(s) => Json::Str(s),
        serde_json::Value::Array(a) => Json::Array(a.into_iter().map(to_json).collect()),
        serde_json::Value::Object(m) => {
            Json::Object(m.into_iter().map(|(k, v)| (k, to_json(v))).collect())
        }
    }
}

fn json(text: &str) -> Json {
    to_json(serde_json::from_str(text).unwrap())
}

fn lines(texts: &[&str]) -> Vec<Option<Json>> {
    texts.iter().map(|t| serde_json::from_str(t).ok().map(to_json)).collect()
}

fn value(r: Ratio) -> f64 {
    r.num as f64 / r.den as f64
}

const LINE_10: &str = r#"{"type":"token_count","payload":{"rate_limits":{"primary":{"used_percent":10,"window_minutes":300,"resets_at":1700000000},"secondary":{"used_percent":50,"window_minutes":10080,"resets_at":1700500000}}}}"#;
const LINE_20: &str = r#"{"type":"token_count","payload":{"rate_limits":{"primary":{"used_percent":20,"window_minutes":300,"resets_at":1700000000},"secondary":{"used_percent":50,"window_minutes":10080,"resets_at":1700500000}}}}"#;

#[test]
fn last_reading_wins() {
    let ls = lines(&[LINE_10, "", "garbage", LINE_20]);
    let u = parse_rate_limits_from_file(&ls, "/s/a.jsonl", Some(1_700_000_999_000), None).unwrap();
    assert_eq!(value(u.five_hour_percent_left), 80.0);
    assert_eq!(value(u.weekly_percent_left), 50.0);
    assert_eq!(u.five_hour_reset_time_ms, 1_700_000_000_000);
    assert_eq!(u.weekly_reset_time_ms, 1_700_500_000_000);
    assert_eq!(u.last_updated, "1700000999000");
    assert_eq!(u.source_file, Some("/s/a.jsonl".to_string()));
    assert_eq!(u.code_review_percent_left, None);
}

#[test]
fn used_percent_complement_on_strict_path() {
    for used in [0, 10, 37, 100] {
        let line = LINE_10.replace("\"used_percent\":10", &format!("\"used_percent\":{used}"));
        let u = parse_rate_limits_from_file(&lines(&[&line]), "/s", None, Some(1)).unwrap();
        assert_eq!(value(u.five_hour_percent_left), 100.0 - used as f64);
        assert!(value(u.five_hour_percent_left) >= 0.0 && value(u.five_hour_percent_left) <= 100.0);
    }
}

#[test]
fn strict_path_rejects_out_of_range_percent() {
    let line = LINE_10.replace("\"used_percent\":10", "\"used_percent\":150");
    let r = parse_rate_limits_from_file(&lines(&[&line]), "/s", None, None);
    assert_eq!(r.unwrap_err(), UsageError::InvalidPercent);
}

#[test]
fn incomplete_readings_are_skipped() {
    let only_primary = r#"{"type":"event_msg","payload":{"rate_limits":{"primary":{"used_percent":5,"window_minutes":300,"resets_at":1700000000}}}}"#;
    let ls = lines(&[LINE_10, only_primary]);
    let pair = latest_rate_limits(&ls).unwrap();
    assert_eq!(pair.0.used_percent.mantissa, 10);
    let r = parse_rate_limits_from_file(&lines(&[only_primary, "{}"]), "/s", None, None);
    assert_eq!(r.unwrap_err(), UsageError::NoRateLimitsFound);
}

#[test]
fn last_updated_falls_back_to_now() {
    assert_eq!(last_updated_string(None, Some(42)), "42");
    assert_eq!(last_updated_string(Some(7), Some(42)), "7");
    assert_eq!(now_epoch_ms_string(Some(1234)), "1234");
    assert_eq!(now_epoch_ms_string(None), "0");
    assert_eq!(epoch_ms_from_system_time(Some(u128::MAX)), None);
    assert_eq!(epoch_ms_from_system_time(Some(9)), Some(9));
}

#[test]
fn latest_session_file_errors() {
    assert_eq!(find_latest_session_file(true, &vec![]), Err(UsageError::NoSessionFiles));
    assert_eq!(find_latest_session_file(false, &vec![]), Err(UsageError::NoSessionsDirectory));
    assert_eq!(find_latest_session_file(true, &vec![Some(5), None, Some(9), Some(9)]), Ok(2));
}

#[test]
fn recent_files_newest_first_stable() {
    let order = recent_session_files(&vec![Some(5), None, Some(9), Some(5), Some(9)], 4);
    assert_eq!(order, vec![2, 4, 0, 3]);
    assert_eq!(recent_session_files(&vec![Some(1)], 20), vec![0]);
}

#[test]
fn session_log_names() {
    assert!(is_session_log_name("rollout-1.jsonl"));
    assert!(!is_session_log_name(".jsonl"));
    assert!(!is_session_log_name("a.json"));
    assert!(!is_session_log_name("jsonl"));
}

fn log(path: &str, texts: &[&str]) -> SessionLog {
    SessionLog { path: path.to_string(), modified_ms: Some(100), lines: Some(lines(texts)) }
}

#[test]
fn account_scan_needs_context_event() {
    let email = "me@example.com";
    let unrelated = r#"{"type":"response_item","payload":{"text":"me@example.com"}}"#;
    let meta = r#"{"type":"session_meta","payload":{"user":{"email":"me@example.com"}}}"#;
    let logs = vec![log("/s/1.jsonl", &[unrelated, LINE_10])];
    assert_eq!(get_account_usage(email, &logs, None).unwrap_err(), UsageError::NoUsageForAccount);
    let logs = vec![log("/s/1.jsonl", &[unrelated, LINE_10]), log("/s/2.jsonl", &[meta, LINE_20])];
    let u = get_account_usage(email, &logs, None).unwrap();
    assert_eq!(u.source_file, Some("/s/2.jsonl".to_string()));
    assert_eq!(value(u.five_hour_percent_left), 80.0);
    let turn = r#"{"type":"turn_context","payload":{"account":"me@example.com"}}"#;
    let logs = vec![log("/s/3.jsonl", &[LINE_10, turn])];
    assert_eq!(value(get_account_usage(email, &logs, None).unwrap().five_hour_percent_left), 90.0);
    assert_eq!(get_account_usage("", &logs, None).unwrap_err(), UsageError::NoUsageForAccount);
}

#[test]
fn remote_status_classification() {
    let body = json("{}");
    assert_eq!(classify_usage_response(401, Some(&body), None).unwrap().status, UsageStatus::Expired);
    assert_eq!(classify_usage_response(403, None, None).unwrap().status, UsageStatus::Forbidden);
    assert_eq!(classify_usage_response(500, None, None).unwrap().status, UsageStatus::Error);
    assert_eq!(classify_usage_response(200, None, None).unwrap_err(), UsageError::MalformedResponse);
    let free = json(r#"{"plan_type":"free","rate_limit":{}}"#);
    let r = classify_usage_response(200, Some(&free), None).unwrap();
    assert_eq!(r.status, UsageStatus::NoCodexAccess);
    assert_eq!(r.plan_type, Some("free".to_string()));
    let r = classify_usage_response(200, Some(&json(r#"{"plan_type":"plus"}"#)), None).unwrap();
    assert_eq!(r.status, UsageStatus::NoUsage);
    assert_eq!(r.error, None);
    let r = classify_usage_response(200, Some(&json(r#"{"rate_limit":{"limits":[]}}"#)), None).unwrap();
    assert_eq!(r.status, UsageStatus::NoUsage);
    assert_eq!(r.error, Some(UsageError::MissingRateLimitData));
}

#[test]
fn remote_success_with_code_review() {
    let body = json(
        r#"{"plan_type":"plus","rate_limit":{"primary_window":{"used_percent":12,"limit_window_seconds":18000,"reset_at":1700000000},"secondary_window":{"used_percent":40,"limit_window_seconds":604800,"reset_at":1700500000}},"code_review_rate_limit":{"primary_window":{"used_percent":3,"reset_at":1700000000}}}"#,
    );
    let r = classify_usage_response(200, Some(&body), Some(1_700_000_000_000)).unwrap();
    assert_eq!(r.status, UsageStatus::Success);
    let u = r.usage.unwrap();
    assert_eq!(value(u.five_hour_percent_left), 88.0);
    assert_eq!(value(u.weekly_percent_left), 60.0);
    assert_eq!(u.code_review_percent_left.map(value), Some(97.0));
    assert_eq!(u.code_review_reset_time_ms, Some(1_700_000_000_000));
    assert_eq!(u.last_updated, "1700000000000");
    assert_eq!(u.source_file, None);
}

#[test]
fn remote_preconditions() {
    assert_eq!(missing_account_result("").unwrap().status, UsageStatus::MissingAccountId);
    assert!(missing_account_result("x").is_none());
    assert!(matches!(check_credentials(&json(r#"{}"#)), AuthCheck::Stop(UsageStatus::MissingToken)));
    assert!(matches!(
        check_credentials(&json(r#"{"tokens":{"access_token":"t"}}"#)),
        AuthCheck::Stop(UsageStatus::MissingAccountId)
    ));
    assert!(matches!(check_credentials(&json(r#"{"tokens":{"access_token":1}}"#)), AuthCheck::Undecodable));
    match check_credentials(&json(r#"{"tokens":{"access_token":"t","account_id":"a"}}"#)) {
        AuthCheck::Ready(c) => {
            assert_eq!(c.access_token, "t");
            assert_eq!(c.account_id, "a");
        }
        _ => panic!("credentials expected"),
    }
    assert!(matches!(proxy_choice(Some(true), Some("  \t".to_string())), ProxyChoice::MissingAddress));
    assert!(matches!(proxy_choice(None, Some("http://p".to_string())), ProxyChoice::Direct));
    assert!(matches!(proxy_choice(Some(true), Some("http://p".to_string())), ProxyChoice::Via(_)));
    assert_eq!(retry_delay_ms(1), Some(1000));
    assert_eq!(retry_delay_ms(2), None);
}
