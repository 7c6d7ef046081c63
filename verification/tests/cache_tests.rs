use rclaim::cache::{CellReport, DedupCache};
use rclaim::types::{AppError, Location};

fn cell(bottom_left: &str, bottom_right: &str, top_right: &str) -> CellReport {
    CellReport {
        bottom_left: bottom_left.to_string(),
        bottom_right: bottom_right.to_string(),
        top_right: top_right.to_string(),
    }
}

fn loc(bottom_right: &str, top_right: &str) -> Location {
    Location::new(bottom_right.to_string(), top_right.to_string()).unwrap()
}

#[test]
fn reconcile_reports_new_battles() {
    let mut cache = DedupCache::new();
    let cells = vec![cell("⚔ Battle", "X1", "Y2"), cell("Empty", "X3", "Y4")];
    let events = cache.reconcile(&cells).unwrap();
    assert_eq!(events.len(), 1, "Expected one battle event");
    assert_eq!(
        events[0].location.as_string(),
        "X1Y2",
        "Expected location X1Y2"
    );
    assert!(cache.contains_key("X1Y2"), "Expected X1Y2 recorded");
    assert!(!cache.contains_key("X3Y4"), "Expected X3Y4 not recorded");
}

#[test]
fn reconcile_empty_snapshot_is_a_no_op() {
    let mut cache = DedupCache::new();
    let events = cache.reconcile(&Vec::new()).unwrap();
    assert_eq!(events.len(), 0, "Expected no events for empty snapshot");
    assert_eq!(cache.len(), 0, "Expected empty cache");
}

#[test]
fn reconcile_rejects_empty_coordinates() {
    let mut cache = DedupCache::new();
    let cells = vec![cell("⚔", "@!%", "Y2")];
    let err = cache.reconcile(&cells).unwrap_err();
    assert!(matches!(err, AppError::HtmlParse(ref m) if m == "Invalid location coordinates"));
}

#[test]
fn marking_twice_yields_one_event() {
    let mut cache = DedupCache::new();
    let battle = loc("X1", "Y2");
    assert!(cache.mark_active(&battle), "first activation is an edge");
    assert!(!cache.mark_active(&battle), "second activation is not");
    assert!(cache.contains_key("X1Y2"));
    assert_eq!(cache.len(), 1);
}

#[test]
fn retrigger_yields_two_events() {
    let mut cache = DedupCache::new();
    let battle = loc("X1", "Y2");
    assert!(cache.mark_active(&battle));
    assert!(cache.mark_inactive(&battle), "it was active");
    assert!(!cache.contains_key("X1Y2"));
    assert!(cache.mark_active(&battle), "reactivation is an edge again");
}

#[test]
fn reconcile_twice_without_inactive_signal() {
    let mut cache = DedupCache::new();
    let snapshot = vec![cell("⚔", "X1", "Y2")];
    let first = cache.reconcile(&snapshot).unwrap();
    assert_eq!(first.len(), 1);
    let second = cache.reconcile(&snapshot).unwrap();
    assert_eq!(second.len(), 0, "no event without an intervening inactive signal");
}

#[test]
fn reconcile_retrigger_emits_per_activation_edge() {
    let mut cache = DedupCache::new();
    let on = vec![cell("⚔", "X1", "Y2")];
    let off = vec![cell("quiet", "X1", "Y2")];
    assert_eq!(cache.reconcile(&on).unwrap().len(), 1);
    assert_eq!(cache.reconcile(&off).unwrap().len(), 0);
    assert_eq!(cache.reconcile(&on).unwrap().len(), 1);
}

#[test]
fn location_new_rejects_empty_parts() {
    assert!(Location::new("".to_string(), "Y2".to_string()).is_err());
    assert!(Location::new("X1".to_string(), "".to_string()).is_err());
    let l = Location::new("X1".to_string(), "Y2".to_string()).unwrap();
    assert_eq!(l.as_string(), "X1Y2");
}
