use dagster_prom_exporter::labels::{
    concurrency_labels, DaemonStatusLabel, InstigationLabel, WorkspaceLocationLabel,
};
use dagster_prom_exporter::snapshot::{
    ConcurrencyLimit, DaemonStatus, LocationEntry, LocationOrLoadError, Repository,
    RepositoryLocation, Runs, RunsOrError, Schedule, Sensor, Snapshot, WorkspaceOrError,
};
use dagster_prom_exporter::{Exporter, Metrics, ReadAction};

fn entry(name: &str, loaded: bool, sensors: Vec<&str>) -> LocationEntry {
    LocationEntry {
        name: name.to_string(),
        load_status: "LOADED".to_string(),
        updated_timestamp: 42,
        location_or_load_error: if loaded {
            Some(LocationOrLoadError::RepositoryLocation(RepositoryLocation {
                name: format!("{name}_loc"),
                repositories: vec![Repository {
                    sensors: sensors
                        .iter()
                        .map(|s| Sensor { name: s.to_string(), sensor_type: "STANDARD".to_string(), runs_count: 3 })
                        .collect(),
                    schedules: vec![Schedule { name: "nightly".to_string(), mode: "default".to_string(), runs_count: 5 }],
                }],
            }))
        } else {
            Some(LocationOrLoadError::Error)
        },
    }
}

fn ws_labels(name: &str) -> Vec<(String, String)> {
    WorkspaceLocationLabel::new(&LocationEntry {
        name: name.to_string(),
        load_status: "LOADED".to_string(),
        updated_timestamp: 0,
        location_or_load_error: None,
    })
    .labels()
}

fn sensor_labels(entry: &str, sensor: &str) -> Vec<(String, String)> {
    InstigationLabel::new(entry.to_string(), format!("{entry}_loc"), sensor.to_string(), "sensor_STANDARD".to_string())
        .labels()
}

fn daemon(id: &str, heartbeat: Option<i64>) -> DaemonStatus {
    DaemonStatus {
        id: id.to_string(),
        daemon_type: "SCHEDULER".to_string(),
        required: true,
        healthy: Some(false),
        last_heartbeat_time: heartbeat,
    }
}

fn limit(key: &str, slots: i64) -> ConcurrencyLimit {
    ConcurrencyLimit {
        concurrency_key: key.to_string(),
        slot_count: slots,
        active_slot_count: 1,
        pending_step_count: 2,
        assigned_step_count: 3,
    }
}

fn empty_snapshot() -> Snapshot {
    Snapshot {
        runs_or_error: RunsOrError::Runs(Runs { count: Some(0), results: vec![] }),
        workspace_or_error: WorkspaceOrError::Workspace(vec![]),
        daemon_statuses: vec![],
        concurrency_limits: vec![],
    }
}

#[test]
fn workspace_entry_gone_upstream_is_gone_from_samples() {
    let mut m = Metrics::with_cursor(0);
    m.set_workspace_metrics(WorkspaceOrError::Workspace(vec![entry("a", true, vec!["s1"]), entry("b", true, vec!["s2"])]));
    assert_eq!(m.workspace_location_last_update_seconds.get(&ws_labels("a")), Some(42));
    assert_eq!(m.runs_by_instigation_total.get(&sensor_labels("a", "s1")), Some(3));
    assert_eq!(m.runs_by_instigation_total.get(&sensor_labels("b", "s2")), Some(3));

    m.set_workspace_metrics(WorkspaceOrError::Workspace(vec![entry("b", true, vec!["s2"])]));
    assert_eq!(m.workspace_location_last_update_seconds.get(&ws_labels("a")), None);
    assert_eq!(m.runs_by_instigation_total.get(&sensor_labels("a", "s1")), None);
    assert_eq!(m.workspace_location_last_update_seconds.get(&ws_labels("b")), Some(42));
    assert_eq!(m.runs_by_instigation_total.get(&sensor_labels("b", "s2")), Some(3));
    let schedule = InstigationLabel::new("b".to_string(), "b_loc".to_string(), "nightly".to_string(), "schedule_default".to_string());
    assert_eq!(m.runs_by_instigation_total.get(&schedule.labels()), Some(5));
}

#[test]
fn failed_location_skips_only_its_instigators() {
    let mut m = Metrics::with_cursor(0);
    m.set_workspace_metrics(WorkspaceOrError::Workspace(vec![
        entry("a", false, vec![]),
        entry("b", true, vec!["s2"]),
    ]));
    assert_eq!(m.workspace_location_last_update_seconds.get(&ws_labels("a")), Some(42));
    assert_eq!(m.workspace_location_last_update_seconds.get(&ws_labels("b")), Some(42));
    assert_eq!(m.runs_by_instigation_total.get(&sensor_labels("b", "s2")), Some(3));
}

#[test]
fn workspace_error_keeps_previous_samples() {
    let mut m = Metrics::with_cursor(0);
    m.set_workspace_metrics(WorkspaceOrError::Workspace(vec![entry("a", true, vec!["s1"])]));
    m.set_workspace_metrics(WorkspaceOrError::Error);
    assert_eq!(m.workspace_location_last_update_seconds.get(&ws_labels("a")), Some(42));
    assert_eq!(m.runs_by_instigation_total.get(&sensor_labels("a", "s1")), Some(3));
}

#[test]
fn daemons_are_replaced_each_poll() {
    let mut m = Metrics::with_cursor(0);
    m.set_daemon_metrics(vec![daemon("d1", Some(10)), daemon("d2", None)]);
    let d1 = DaemonStatusLabel::new(daemon("d1", None));
    assert_eq!(d1.required, "true");
    assert_eq!(d1.healthy, Some("false".to_string()));
    let d2 = DaemonStatusLabel::new(daemon("d2", None));
    assert_eq!(m.daemon_last_heartbeat_seconds.get(&d1.labels()), Some(10));
    assert_eq!(m.daemon_last_heartbeat_seconds.get(&d2.labels()), None);
    m.set_daemon_metrics(vec![daemon("d2", Some(20))]);
    assert_eq!(m.daemon_last_heartbeat_seconds.get(&d1.labels()), None);
    assert_eq!(m.daemon_last_heartbeat_seconds.get(&d2.labels()), Some(20));
}

#[test]
fn concurrency_keys_are_replaced_each_poll() {
    let mut m = Metrics::with_cursor(0);
    m.set_concurrency_metrics(vec![limit("x", 4), limit("y", 8)]);
    let x = concurrency_labels(&"x".to_string());
    let y = concurrency_labels(&"y".to_string());
    assert_eq!(m.concurrency_slots.get(&x), Some(4));
    assert_eq!(m.concurrency_active_slots.get(&x), Some(1));
    assert_eq!(m.concurrency_pending_steps.get(&x), Some(2));
    assert_eq!(m.concurrency_assigned_steps.get(&x), Some(3));
    m.set_concurrency_metrics(vec![limit("y", 9)]);
    assert_eq!(m.concurrency_slots.get(&x), None);
    assert_eq!(m.concurrency_assigned_steps.get(&x), None);
    assert_eq!(m.concurrency_slots.get(&y), Some(9));
}

#[test]
fn second_read_without_tick_serves_without_fetching() {
    let mut e = Exporter::with_metrics("http://dagit".to_string(), true, Metrics::with_cursor(77));
    assert!(e.is_stale());
    assert_eq!(e.begin_read(), ReadAction::Fetch { runs_since: 77 });
    assert!(e.is_fetching());
    // A request arriving while the fetch is under way does not fetch again.
    assert_eq!(e.begin_read(), ReadAction::Wait);
    let mut snap = empty_snapshot();
    snap.daemon_statuses = vec![daemon("d1", Some(10))];
    e.complete_fetch(snap);
    assert!(!e.is_stale());
    let before = e.metrics.daemon_last_heartbeat_seconds.samples().clone();
    assert_eq!(e.begin_read(), ReadAction::Serve);
    assert_eq!(e.begin_read(), ReadAction::Serve);
    assert_eq!(e.metrics.daemon_last_heartbeat_seconds.samples(), &before);
    e.tick();
    assert_eq!(e.begin_read(), ReadAction::Fetch { runs_since: 77 });
}

#[test]
fn failed_fetch_leaves_gate_stale() {
    let mut e = Exporter::with_metrics("http://dagit".to_string(), false, Metrics::with_cursor(5));
    assert_eq!(e.begin_read(), ReadAction::Fetch { runs_since: 5 });
    e.abandon_fetch();
    assert!(e.is_stale());
    assert!(!e.is_fetching());
    assert_eq!(e.begin_read(), ReadAction::Fetch { runs_since: 5 });
}

#[test]
fn new_exporter_fetches_first() {
    let mut e = Exporter::new("http://dagit".to_string(), true);
    assert!(e.concurrency_metrics);
    assert!(e.metrics.cursor > 0);
    assert!(matches!(e.begin_read(), ReadAction::Fetch { .. }));
}

#[test]
fn tick_while_fresh_makes_stale() {
    let mut e = Exporter::with_metrics("u".to_string(), false, Metrics::with_cursor(0));
    let _ = e.begin_read();
    e.complete_fetch(empty_snapshot());
    e.tick();
    e.tick();
    assert!(e.is_stale());
    assert!(matches!(e.begin_read(), ReadAction::Fetch { .. }));
}

#[test]
fn daemon_label_keeps_absent_health_absent() {
    let mut d = daemon("d9", None);
    d.healthy = None;
    d.required = false;
    let l = DaemonStatusLabel::new(d);
    assert_eq!(l.id, "d9");
    assert_eq!(l.daemon_type, "SCHEDULER");
    assert_eq!(l.required, "false");
    assert_eq!(l.healthy, None);
}

#[test]
fn completed_fetch_replaces_every_concurrency_family() {
    let mut e = Exporter::with_metrics("u".to_string(), true, Metrics::with_cursor(0));
    let _ = e.begin_read();
    let mut snap = empty_snapshot();
    snap.concurrency_limits = vec![limit("x", 4)];
    e.complete_fetch(snap);
    e.tick();
    let _ = e.begin_read();
    let mut snap = empty_snapshot();
    snap.concurrency_limits = vec![limit("y", 2)];
    e.complete_fetch(snap);
    let x = concurrency_labels(&"x".to_string());
    let y = concurrency_labels(&"y".to_string());
    assert_eq!(e.metrics.concurrency_slots.get(&x), None);
    assert_eq!(e.metrics.concurrency_active_slots.get(&x), None);
    assert_eq!(e.metrics.concurrency_pending_steps.get(&x), None);
    assert_eq!(e.metrics.concurrency_assigned_steps.get(&x), None);
    assert_eq!(e.metrics.concurrency_active_slots.get(&y), Some(1));
    assert_eq!(e.metrics.concurrency_pending_steps.get(&y), Some(2));
    assert_eq!(e.metrics.concurrency_assigned_steps.get(&y), Some(3));
}

#[test]
fn metrics_from_clock_holds_cursor_to_i64() {
    assert_eq!(Metrics::from_clock(5).cursor, 5);
    assert_eq!(Metrics::from_clock(u64::MAX).cursor, i64::MAX);
}
