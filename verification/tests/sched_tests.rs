use rclaim::broadcast::Broadcaster;
use rclaim::cache::{CellReport, DedupCache};
use rclaim::sched::{interval_from, parse_u64, run_cycle};
use rclaim::types::AppError;

fn cell(bottom_left: &str, bottom_right: &str, top_right: &str) -> CellReport {
    CellReport {
        bottom_left: bottom_left.to_string(),
        bottom_right: bottom_right.to_string(),
        top_right: top_right.to_string(),
    }
}

#[test]
fn parse_u64_exact_values() {
    assert_eq!(parse_u64("0"), Some(0));
    assert_eq!(parse_u64("60"), Some(60));
    assert_eq!(parse_u64("+5"), Some(5));
    assert_eq!(parse_u64("18446744073709551615"), Some(u64::MAX));
    assert_eq!(parse_u64("18446744073709551616"), None);
    assert_eq!(parse_u64(""), None);
    assert_eq!(parse_u64("+"), None);
    assert_eq!(parse_u64("1x"), None);
    assert_eq!(parse_u64("-1"), None);
    assert_eq!(parse_u64(" 7"), None);
}

#[test]
fn interval_defaults_to_sixty() {
    assert_eq!(interval_from(None), 60);
    assert_eq!(interval_from(Some("abc")), 60);
    assert_eq!(interval_from(Some("")), 60);
    assert_eq!(interval_from(Some("30")), 30);
    assert_eq!(interval_from(Some("99999999999999999999")), 60);
}

#[test]
fn cycle_publishes_new_events_to_subscribers() {
    let mut cache = DedupCache::new();
    let mut b = Broadcaster::new(100);
    let sid = "session-a".to_string();
    assert!(b.subscribe(&sid));
    let cells = vec![cell("⚔", "X1", "Y2"), cell("quiet", "X3", "Y4")];
    let published = run_cycle(&mut cache, &mut b, &cells).unwrap();
    assert_eq!(published, 1);
    let got = b.recv(&sid).expect("the subscriber sees the new battle");
    assert_eq!(got.location.as_string(), "X1Y2");
    assert!(b.recv(&sid).is_none());
}

#[test]
fn cycle_with_nothing_new_publishes_nothing() {
    let mut cache = DedupCache::new();
    let mut b = Broadcaster::new(100);
    let sid = "session-a".to_string();
    assert!(b.subscribe(&sid));
    let cells = vec![cell("⚔", "X1", "Y2")];
    assert_eq!(run_cycle(&mut cache, &mut b, &cells).unwrap(), 1);
    assert!(b.recv(&sid).is_some());
    assert_eq!(run_cycle(&mut cache, &mut b, &cells).unwrap(), 0);
    assert!(b.recv(&sid).is_none(), "no duplicate notification");
}

#[test]
fn cycle_stops_on_unusable_cell() {
    let mut cache = DedupCache::new();
    let mut b = Broadcaster::new(100);
    let cells = vec![cell("⚔", "X1", "Y2"), cell("⚔", "", "Y4")];
    let err = run_cycle(&mut cache, &mut b, &cells).unwrap_err();
    assert!(matches!(err, AppError::HtmlParse(_)));
    assert!(
        cache.contains_key("X1Y2"),
        "what was reconciled before the bad cell stands"
    );
}
