use codex_manager::coerce::{json_to_decimal, json_to_i64};
use codex_manager::decimal::{parse_decimal, Decimal};
use codex_manager::error::UsageError;
use codex_manager::json::{json_contains_string, Json};
use codex_manager::limits::{
    detect_limit_kind, kind_of_lower_name, parse_optional_rate_limit, parse_rate_limits,
};
use codex_manager::normalize::normalize_unix_timestamp_ms;
use codex_manager::percent::{validate_used_percent, Ratio};
use codex_manager::window::{
    extract_reset_time_ms, parse_rate_limit_entry, LimitKind, ParsedLimit,
};

fn to_json(v: serde_json::Value) -> Json {
    match v {
        serde_json::Value::Null => Json::Null,
        serde_json::Value::Bool(b) => Json::Bool(b),
        serde_json::Value::Number(n) => Json::Number(n.to_string()),
        serde_json::Value::String(s) => Json::Str(s),
        serde_json::Value::Array(a) => Json::Array(a.into_iter().map(to_json).collect()),
        serde_json::Value::Object(m) => {
            Json::Object(m.into_iter().map(|(k, v)| (k, to_json(v))).collect())
        }
    }
}

fn json(text: &str) -> Json {
    to_json(serde_json::from_str(text).unwrap())
}

fn value(r: Ratio) -> f64 {
    r.num as f64 / r.den as f64
}

const NOW: i64 = 1_700_000_000_000;

#[test]
fn normalize_rejects_zero_and_negative() {
    assert_eq!(normalize_unix_timestamp_ms(0), Err(UsageError::InvalidTimestamp));
    assert_eq!(normalize_unix_timestamp_ms(-5), Err(UsageError::InvalidTimestamp));
}

#[test]
fn normalize_rejects_years_outside_range() {
    // 1999-12-31T23:59:59Z and 2101-01-01T00:00:00Z, in seconds and in ms
    assert_eq!(normalize_unix_timestamp_ms(946684799), Err(UsageError::TimestampOutOfRange));
    assert_eq!(normalize_unix_timestamp_ms(4133980800), Err(UsageError::TimestampOutOfRange));
    assert_eq!(normalize_unix_timestamp_ms(4133980800000), Err(UsageError::TimestampOutOfRange));
    assert_eq!(normalize_unix_timestamp_ms(915148800000), Err(UsageError::TimestampOutOfRange));
}

#[test]
fn normalize_converts_seconds_and_keeps_ms() {
    assert_eq!(normalize_unix_timestamp_ms(1700000000), Ok(1700000000000));
    assert_eq!(normalize_unix_timestamp_ms(1700000000000), Ok(1700000000000));
    assert_eq!(normalize_unix_timestamp_ms(946684800), Ok(946684800000));
    assert_eq!(normalize_unix_timestamp_ms(4102444800000), Ok(4102444800000));
}

#[test]
fn normalize_is_idempotent_on_milliseconds() {
    for x in [1_000_000_000_000i64, 1_700_000_000_123, 4_102_444_800_000] {
        let once = normalize_unix_timestamp_ms(x).unwrap();
        assert_eq!(once, x);
        assert_eq!(normalize_unix_timestamp_ms(once), Ok(once));
    }
}

#[test]
fn decimal_text_is_exact() {
    assert_eq!(parse_decimal("0.2"), Some(Decimal { mantissa: 2, scale: 1 }));
    assert_eq!(parse_decimal("-3"), Some(Decimal { mantissa: -3, scale: 0 }));
    assert_eq!(parse_decimal("12.50"), Some(Decimal { mantissa: 1250, scale: 2 }));
    assert_eq!(parse_decimal("abc"), None);
    assert_eq!(parse_decimal("1e5"), None);
    assert_eq!(parse_decimal(""), None);
    assert_eq!(parse_decimal("1."), None);
    assert_eq!(parse_decimal(".5"), None);
    assert_eq!(parse_decimal("1234567890123456789"), None);
}

#[test]
fn coercion_accepts_numbers_and_numeric_strings() {
    assert_eq!(json_to_decimal(&json("\"42.5\"")), Some(Decimal { mantissa: 425, scale: 1 }));
    assert_eq!(json_to_decimal(&json("7")), Some(Decimal { mantissa: 7, scale: 0 }));
    assert_eq!(json_to_decimal(&json("true")), None);
    assert_eq!(json_to_i64(&json("2.5")), Some(3));
    assert_eq!(json_to_i64(&json("-2.5")), Some(-3));
    assert_eq!(json_to_i64(&json("2.4")), Some(2));
    assert_eq!(json_to_i64(&json("\"17\"")), Some(17));
    assert_eq!(json_to_i64(&json("\"17.5\"")), None);
    assert_eq!(json_to_i64(&json("null")), None);
}

#[test]
fn validate_percent_bounds() {
    let d = |m, s| Decimal { mantissa: m, scale: s };
    assert_eq!(validate_used_percent(d(0, 0)), Ok(d(0, 0)));
    assert_eq!(validate_used_percent(d(100, 0)), Ok(d(100, 0)));
    assert_eq!(validate_used_percent(d(1001, 1)), Err(UsageError::InvalidPercent));
    assert_eq!(validate_used_percent(d(-1, 2)), Err(UsageError::InvalidPercent));
}

#[test]
fn entry_fraction_heuristic() {
    let e = parse_rate_limit_entry(&json(r#"{"used_percent":0.2,"reset_at":1700000000}"#), NOW).unwrap();
    assert_eq!(value(e.percent_left), 80.0);
    let e = parse_rate_limit_entry(&json(r#"{"usedPercent":1.0,"reset_at":1700000000}"#), NOW).unwrap();
    assert_eq!(value(e.percent_left), 99.0);
    let e = parse_rate_limit_entry(&json(r#"{"used_percent":35,"reset_at":1700000000}"#), NOW).unwrap();
    assert_eq!(value(e.percent_left), 65.0);
    assert_eq!(e.reset_time_ms, 1700000000000);
}

#[test]
fn entry_remaining_and_used_shapes() {
    let e = parse_rate_limit_entry(
        &json(r#"{"remaining":25,"total":200,"reset_at_ms":1700000000000}"#),
        NOW,
    )
    .unwrap();
    assert_eq!(value(e.percent_left), 12.5);
    let e = parse_rate_limit_entry(
        &json(r#"{"used":30,"capacity":"120","resets_at":1700000000}"#),
        NOW,
    )
    .unwrap();
    assert_eq!(value(e.percent_left), 75.0);
}

#[test]
fn entry_clamps_to_percent_range() {
    let e = parse_rate_limit_entry(&json(r#"{"remaining":300,"limit":100,"reset":1700000000}"#), NOW).unwrap();
    assert_eq!(e.percent_left, Ratio { num: 100, den: 1 });
    let e = parse_rate_limit_entry(&json(r#"{"used_percent":150,"reset":1700000000}"#), NOW).unwrap();
    assert_eq!(e.percent_left, Ratio { num: 0, den: 1 });
}

#[test]
fn entry_invalid_limit() {
    let r = parse_rate_limit_entry(&json(r#"{"remaining":0,"limit":0,"reset_at":1700000000}"#), NOW);
    assert_eq!(r, Err(UsageError::InvalidLimit));
    let r = parse_rate_limit_entry(&json(r#"{"used":3,"limit":-1,"reset_at":1700000000}"#), NOW);
    assert_eq!(r, Err(UsageError::InvalidLimit));
}

#[test]
fn entry_missing_fields() {
    let r = parse_rate_limit_entry(&json(r#"{"limit":10,"reset_at":1700000000}"#), NOW);
    assert_eq!(r, Err(UsageError::MissingUsageFields));
    let r = parse_rate_limit_entry(&json(r#"{"used_percent":10}"#), NOW);
    assert_eq!(r, Err(UsageError::MissingResetTimestamp));
    let r = parse_rate_limit_entry(&json(r#"{"used_percent":10,"reset_at":0}"#), NOW);
    assert_eq!(r, Err(UsageError::InvalidTimestamp));
}

#[test]
fn reset_time_relative_and_absolute() {
    assert_eq!(extract_reset_time_ms(&json(r#"{"reset_in_seconds":60}"#), NOW), Some(NOW + 60_000));
    assert_eq!(extract_reset_time_ms(&json(r#"{"reset_after_seconds":"5"}"#), NOW), Some(NOW + 5_000));
    assert_eq!(
        extract_reset_time_ms(&json(r#"{"reset_at":"x","resets_at":1700000001}"#), NOW),
        Some(1700000001)
    );
    assert_eq!(extract_reset_time_ms(&json(r#"{"reset_in":1}"#), i64::MAX), Some(i64::MAX));
    assert_eq!(extract_reset_time_ms(&json(r#"{"other":1}"#), NOW), None);
}

#[test]
fn window_minutes_from_seconds() {
    let e = parse_rate_limit_entry(
        &json(r#"{"used_percent":1,"reset_at":1700000000,"window_seconds":18000}"#),
        NOW,
    )
    .unwrap();
    assert_eq!(e.window_minutes, Some(300));
    let e = parse_rate_limit_entry(
        &json(r#"{"used_percent":1,"reset_at":1700000000,"window_minutes":-1,"limit_window_seconds":604800}"#),
        NOW,
    )
    .unwrap();
    assert_eq!(e.window_minutes, Some(10080));
}

#[test]
fn limit_kind_by_name_and_length() {
    assert_eq!(detect_limit_kind(&json(r#"{"type":"WEEKLY"}"#), None), Some(LimitKind::Weekly));
    assert_eq!(detect_limit_kind(&json(r#"{"name":"Five Hour"}"#), None), Some(LimitKind::FiveHour));
    assert_eq!(detect_limit_kind(&json(r#"{"type":"5H"}"#), Some(20000)), Some(LimitKind::FiveHour));
    assert_eq!(detect_limit_kind(&json(r#"{"type":"other"}"#), Some(300)), Some(LimitKind::FiveHour));
    assert_eq!(detect_limit_kind(&json(r#"{}"#), Some(10080)), Some(LimitKind::Weekly));
    assert_eq!(detect_limit_kind(&json(r#"{}"#), Some(1000)), None);
}

#[test]
fn generic_list_classification() {
    let v = json(
        r#"{"limits":[{"type":"weekly","used":30,"limit":100,"reset_at":1700000000},{"type":"5h","used_percent":0.2,"reset_at":1700000000}]}"#,
    );
    let (five, weekly) = parse_rate_limits(&v, NOW).unwrap();
    assert_eq!(value(five.percent_left), 80.0);
    assert_eq!(value(weekly.percent_left), 70.0);
}

#[test]
fn generic_list_unclassified_fill_in_order() {
    let v = json(
        r#"[{"used_percent":10,"reset_at":1700000000},{"used_percent":20,"reset_at":1700000000},{"used_percent":30,"reset_at":1700000000}]"#,
    );
    let (five, weekly) = parse_rate_limits(&v, NOW).unwrap();
    assert_eq!(value(five.percent_left), 90.0);
    assert_eq!(value(weekly.percent_left), 80.0);
}

#[test]
fn generic_list_missing_slot() {
    let v = json(r#"{"limits":[{"type":"weekly","used_percent":10,"reset_at":1700000000}]}"#);
    assert_eq!(parse_rate_limits(&v, NOW), Err(UsageError::MissingRateLimitData));
    assert_eq!(parse_rate_limits(&json(r#"{"x":1}"#), NOW), Err(UsageError::MissingRateLimitEntries));
    let v = json(r#"{"limits":[{"remaining":0,"limit":0,"reset_at":1700000000}]}"#);
    assert_eq!(parse_rate_limits(&v, NOW), Err(UsageError::InvalidLimit));
}

#[test]
fn structured_pair_shapes() {
    let v = json(
        r#"{"primary_window":{"used_percent":40,"reset_at":1700000000},"secondary_window":{"used_percent":60,"reset_at":1700000000}}"#,
    );
    let (five, weekly) = parse_rate_limits(&v, NOW).unwrap();
    assert_eq!(value(five.percent_left), 60.0);
    assert_eq!(value(weekly.percent_left), 40.0);
}

#[test]
fn optional_limit_shapes() {
    let p: Option<ParsedLimit> =
        parse_optional_rate_limit(&json(r#"{"limits":[{"used_percent":5,"reset_at":1700000000}]}"#), NOW);
    assert_eq!(value(p.unwrap().percent_left), 95.0);
    assert!(parse_optional_rate_limit(&json(r#"{"primary":{"used_percent":5}}"#), NOW).is_none());
    let p = parse_optional_rate_limit(&json(r#"{"used_percent":25,"reset_at":1700000000}"#), NOW);
    assert_eq!(value(p.unwrap().percent_left), 75.0);
}

#[test]
fn contains_string_searches_nested_values() {
    let v = json(r#"{"a":[1,{"b":"me@example.com"}],"c":"x"}"#);
    assert!(json_contains_string(&v, "me@example.com"));
    assert!(!json_contains_string(&v, "a"));
    assert!(!json_contains_string(&v, "me@example"));
}

#[test]
fn lower_name_classification() {
    assert_eq!(kind_of_lower_name("weekly"), Some(LimitKind::Weekly));
    assert_eq!(kind_of_lower_name("per-hour"), Some(LimitKind::FiveHour));
    assert_eq!(kind_of_lower_name("5h window"), Some(LimitKind::FiveHour));
    assert_eq!(kind_of_lower_name("WEEK"), None);
    assert_eq!(kind_of_lower_name(""), None);
}
