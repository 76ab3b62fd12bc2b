use dagster_prom_exporter::timestamp::parse_micros;
use dagster_prom_exporter::{Family, GaugeF, RunStatus, StepEventStatus};

fn key(v: &str) -> Vec<(String, String)> {
    vec![("k".to_string(), v.to_string())]
}

#[test]
fn get_or_create_starts_at_zero() {
    let mut f = Family::new();
    assert_eq!(f.get_or_create(&key("a")), 0);
    assert_eq!(f.get(&key("a")), Some(0));
    f.set(&key("a"), 9);
    assert_eq!(f.get_or_create(&key("a")), 9);
}

#[test]
fn remove_of_absent_key_is_not_an_error() {
    let mut f: GaugeF = Family::new();
    assert!(!f.remove(&key("missing")));
    f.set(&key("a"), 1);
    f.set(&key("b"), 2);
    assert!(f.remove(&key("a")));
    assert_eq!(f.get(&key("a")), None);
    assert_eq!(f.get(&key("b")), Some(2));
    assert_eq!(f.samples().len(), 1);
}

#[test]
fn clear_removes_everything() {
    let mut f = Family::new();
    f.set(&key("a"), 1);
    f.inc(&key("b"));
    f.clear();
    assert_eq!(f.get(&key("a")), None);
    assert_eq!(f.get(&key("b")), None);
    assert!(f.samples().is_empty());
}

#[test]
fn inc_counts_up_and_stops_at_the_top() {
    let mut f = Family::new();
    f.inc(&key("a"));
    f.inc(&key("a"));
    assert_eq!(f.get(&key("a")), Some(2));
    f.set(&key("a"), i64::MAX);
    f.inc(&key("a"));
    assert_eq!(f.get(&key("a")), Some(i64::MAX));
}

#[test]
fn label_order_matters_for_identity() {
    let mut f = Family::new();
    let ab = vec![("a".to_string(), "1".to_string()), ("b".to_string(), "2".to_string())];
    let ba = vec![("b".to_string(), "2".to_string()), ("a".to_string(), "1".to_string())];
    f.set(&ab, 1);
    assert_eq!(f.get(&ba), None);
}

#[test]
fn parses_decimal_timestamps_in_micros() {
    assert_eq!(parse_micros("12.5"), Some(12_500_000));
    assert_eq!(parse_micros("1700000000123"), Some(1_700_000_000_123_000_000));
    assert_eq!(parse_micros("0"), Some(0));
    assert_eq!(parse_micros("1.2345678"), Some(1_234_567));
    assert_eq!(parse_micros(".5"), Some(500_000));
    assert_eq!(parse_micros("7."), Some(7_000_000));
}

#[test]
fn rejects_text_that_is_no_decimal() {
    assert_eq!(parse_micros("not-a-number"), None);
    assert_eq!(parse_micros(""), None);
    assert_eq!(parse_micros("."), None);
    assert_eq!(parse_micros("1.2.3"), None);
    assert_eq!(parse_micros("9223372036855"), None);
    assert_eq!(parse_micros("9223372036854.775807"), Some(i64::MAX));
    assert_eq!(parse_micros("9223372036854.775808"), None);
}

#[test]
fn parses_signs_and_exponents() {
    assert_eq!(parse_micros("1e3"), Some(1_000_000_000));
    assert_eq!(parse_micros("1E3"), Some(1_000_000_000));
    assert_eq!(parse_micros("1e+2"), Some(100_000_000));
    assert_eq!(parse_micros("+2.5e-1"), Some(250_000));
    assert_eq!(parse_micros("-1"), Some(-1_000_000));
    assert_eq!(parse_micros("-1e3"), Some(-1_000_000_000));
    assert_eq!(parse_micros("-0"), Some(0));
    assert_eq!(parse_micros("1e-7"), Some(0));
    assert_eq!(parse_micros("1.5e-6"), Some(1));
    assert_eq!(parse_micros("0e99999999999999999999"), Some(0));
    assert_eq!(parse_micros("1e99999999999999999999"), None);
    assert_eq!(parse_micros("5e-99999999999999999999"), Some(0));
    assert_eq!(parse_micros("1.7e12"), Some(1_700_000_000_000_000_000));
    assert_eq!(parse_micros("-9223372036854.775808"), Some(i64::MIN));
    assert_eq!(parse_micros("-9223372036854.775809"), None);
}

#[test]
fn rejects_malformed_exponents_and_specials() {
    assert_eq!(parse_micros("1e"), None);
    assert_eq!(parse_micros("e5"), None);
    assert_eq!(parse_micros("1e+"), None);
    assert_eq!(parse_micros("1e2.5"), None);
    assert_eq!(parse_micros("inf"), None);
    assert_eq!(parse_micros("NaN"), None);
    assert_eq!(parse_micros("--1"), None);
    assert_eq!(parse_micros("+"), None);
}

#[test]
fn status_names() {
    assert_eq!(RunStatus::NotStarted.name(), "NOT_STARTED");
    assert_eq!(RunStatus::all().len(), 9);
    assert_eq!(StepEventStatus::name_of(Some(StepEventStatus::InProgress)), "IN_PROGRESS");
    assert_eq!(StepEventStatus::name_of(None), "");
    assert_eq!(StepEventStatus::all().len(), 5);
}
