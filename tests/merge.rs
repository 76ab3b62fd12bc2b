use dagster_prom_exporter::labels::{CommonLabel, ExpectationLabel, RunLabel, StepLabel};
use dagster_prom_exporter::snapshot::{
    AssetKey, AssetMaterialization, ExpectationResult, RepositoryOrigin, Run, RunStats, Runs,
    RunsOrError, StepStats,
};
use dagster_prom_exporter::{Metrics, RunStatus, StepEventStatus};

const SECOND: i64 = 1_000_000;

fn origin() -> Option<RepositoryOrigin> {
    Some(RepositoryOrigin {
        repository_location_name: "loc".to_string(),
        repository_name: "repo".to_string(),
    })
}

fn common() -> CommonLabel {
    CommonLabel::new(origin(), "job".to_string())
}

fn run(status: RunStatus, start: Option<i64>, end: Option<i64>) -> Run {
    Run {
        status,
        mode: "default".to_string(),
        pipeline_name: "job".to_string(),
        repository_origin: origin(),
        update_time: None,
        start_time: start,
        end_time: end,
        stats: RunStats::Error,
        step_stats: vec![],
        asset_materializations: vec![],
    }
}

fn step(key: &str, status: Option<StepEventStatus>, attempts: u32, start: Option<i64>, end: Option<i64>) -> StepStats {
    StepStats {
        step_key: key.to_string(),
        status,
        attempts,
        start_time: start,
        end_time: end,
        expectation_results: vec![],
    }
}

fn runs(results: Vec<Run>) -> RunsOrError {
    RunsOrError::Runs(Runs { count: Some(results.len() as i64), results })
}

fn run_labels(status: RunStatus) -> Vec<(String, String)> {
    RunLabel::new(status, "default".to_string(), common()).labels()
}

fn step_labels(key: &str, status: Option<StepEventStatus>) -> Vec<(String, String)> {
    StepLabel { step_key: key.to_string(), status, common: common() }.labels()
}

const ALL_RUN: [RunStatus; 9] = [
    RunStatus::Queued,
    RunStatus::NotStarted,
    RunStatus::Managed,
    RunStatus::Starting,
    RunStatus::Started,
    RunStatus::Success,
    RunStatus::Failure,
    RunStatus::Canceling,
    RunStatus::Canceled,
];

#[test]
fn eviction_on_status_transition() {
    let mut m = Metrics::with_cursor(0);
    let mut r1 = run(RunStatus::Started, Some(10 * SECOND), None);
    r1.stats = RunStats::RunStatsSnapshot { enqueued_time: Some(4 * SECOND), launch_time: Some(10 * SECOND) };
    m.set_run_metrics(runs(vec![r1]));
    assert_eq!(m.run_duration_seconds.get(&run_labels(RunStatus::Started)), None);
    assert_eq!(m.run_queue_seconds.get(&run_labels(RunStatus::Started)), Some(6 * SECOND));

    m.set_run_metrics(runs(vec![run(RunStatus::Success, Some(10 * SECOND), Some(25 * SECOND))]));
    assert_eq!(m.run_duration_seconds.get(&run_labels(RunStatus::Success)), Some(15 * SECOND));
    assert_eq!(m.run_duration_seconds.get(&run_labels(RunStatus::Started)), None);
    assert_eq!(m.run_queue_seconds.get(&run_labels(RunStatus::Started)), None);
    // Counters are not evicted.
    assert_eq!(m.run_total.get(&run_labels(RunStatus::Started)), Some(1));
    assert_eq!(m.run_total.get(&run_labels(RunStatus::Success)), Some(1));
}

#[test]
fn one_duration_sample_per_run_across_transitions() {
    let mut m = Metrics::with_cursor(0);
    let sequence = [
        RunStatus::Queued,
        RunStatus::Starting,
        RunStatus::Started,
        RunStatus::Canceling,
        RunStatus::Canceled,
        RunStatus::Started,
        RunStatus::Failure,
    ];
    for (i, s) in sequence.iter().enumerate() {
        let t = i as i64 * SECOND;
        m.set_run_metrics(runs(vec![run(*s, Some(t), Some(t + 3 * SECOND))]));
        let live = ALL_RUN
            .iter()
            .filter(|x| m.run_duration_seconds.get(&run_labels(**x)).is_some())
            .count();
        assert_eq!(live, 1);
        assert_eq!(m.run_duration_seconds.get(&run_labels(*s)), Some(3 * SECOND));
    }
}

#[test]
fn one_step_sample_per_step_across_transitions() {
    let mut m = Metrics::with_cursor(0);
    let mut r = run(RunStatus::Started, None, None);
    r.step_stats = vec![step("s", Some(StepEventStatus::InProgress), 1, None, None)];
    m.set_run_metrics(runs(vec![r]));
    assert_eq!(m.step_attempts.get(&step_labels("s", Some(StepEventStatus::InProgress))), Some(1));

    let mut r = run(RunStatus::Success, None, None);
    r.step_stats = vec![step("s", Some(StepEventStatus::Success), 2, Some(SECOND), Some(3 * SECOND))];
    m.set_run_metrics(runs(vec![r]));
    assert_eq!(m.step_attempts.get(&step_labels("s", Some(StepEventStatus::InProgress))), None);
    assert_eq!(m.step_attempts.get(&step_labels("s", Some(StepEventStatus::Success))), Some(2));
    assert_eq!(m.step_duration_seconds.get(&step_labels("s", Some(StepEventStatus::Success))), Some(2 * SECOND));
    assert_eq!(m.step_total.get(&step_labels("s", Some(StepEventStatus::InProgress))), Some(1));
    assert_eq!(m.step_total.get(&step_labels("s", Some(StepEventStatus::Success))), Some(1));
}

#[test]
fn step_with_zero_attempts_gets_explicit_zero() {
    let mut m = Metrics::with_cursor(0);
    let mut r = run(RunStatus::Queued, None, None);
    r.step_stats = vec![step("s", None, 0, None, None)];
    m.set_run_metrics(runs(vec![r]));
    assert_eq!(m.step_attempts.get(&step_labels("s", None)), Some(0));
    assert_eq!(m.step_duration_seconds.get(&step_labels("s", None)), None);
}

#[test]
fn unparseable_timestamp_skips_only_that_sample() {
    let mut m = Metrics::with_cursor(0);
    let mut r1 = run(RunStatus::Success, Some(0), Some(5 * SECOND));
    r1.step_stats = vec![
        step("first", Some(StepEventStatus::Success), 1, Some(0), Some(2 * SECOND)),
        step("second", Some(StepEventStatus::Failure), 3, Some(2 * SECOND), Some(5 * SECOND)),
    ];
    r1.asset_materializations = vec![
        AssetMaterialization {
            asset_key: Some(AssetKey { path: vec!["bad".to_string()] }),
            step_key: Some("first".to_string()),
            partition: None,
            timestamp: "not-a-number".to_string(),
        },
        AssetMaterialization {
            asset_key: Some(AssetKey { path: vec!["a".to_string(), "b".to_string()] }),
            step_key: Some("first".to_string()),
            partition: None,
            timestamp: "1700000000123".to_string(),
        },
    ];
    let mut r2 = run(RunStatus::Failure, Some(0), Some(SECOND));
    r2.asset_materializations = vec![AssetMaterialization {
        asset_key: Some(AssetKey { path: vec!["exp".to_string()] }),
        step_key: None,
        partition: None,
        timestamp: "1e3".to_string(),
    }];
    r2.pipeline_name = "other".to_string();
    m.set_run_metrics(runs(vec![r1, r2]));

    assert_eq!(m.step_attempts.get(&step_labels("first", Some(StepEventStatus::Success))), Some(1));
    assert_eq!(m.step_duration_seconds.get(&step_labels("first", Some(StepEventStatus::Success))), Some(2 * SECOND));
    assert_eq!(m.step_attempts.get(&step_labels("second", Some(StepEventStatus::Failure))), Some(3));
    assert_eq!(m.step_duration_seconds.get(&step_labels("second", Some(StepEventStatus::Failure))), Some(3 * SECOND));

    let rl = RunLabel::new(RunStatus::Success, "default".to_string(), common());
    let bad = rl.asset_label(Some("first".to_string()), &AssetKey { path: vec!["bad".to_string()] }, None);
    assert_eq!(m.asset_materialization_timestamp.get(&bad.labels()), None);
    let good = rl.asset_label(
        Some("first".to_string()),
        &AssetKey { path: vec!["a".to_string(), "b".to_string()] },
        None,
    );
    assert_eq!(good.asset_key, "a/b");
    assert_eq!(
        m.asset_materialization_timestamp.get(&good.labels()),
        Some(1_700_000_000_123 * SECOND)
    );

    let other = RunLabel::new(RunStatus::Failure, "default".to_string(), CommonLabel::new(origin(), "other".to_string()));
    assert_eq!(m.run_duration_seconds.get(&other.labels()), Some(SECOND));
    let exp = other.asset_label(None, &AssetKey { path: vec!["exp".to_string()] }, None);
    assert_eq!(m.asset_materialization_timestamp.get(&exp.labels()), Some(1000 * SECOND));
}

#[test]
fn expectation_results_set_failure_gauge() {
    let mut m = Metrics::with_cursor(0);
    let mut st = step("check", Some(StepEventStatus::Failure), 1, None, None);
    st.expectation_results = vec![
        ExpectationResult { label: Some("data_quality".to_string()), success: false },
        ExpectationResult { label: Some("row_count".to_string()), success: true },
    ];
    let mut r = run(RunStatus::Failure, None, None);
    r.step_stats = vec![st];
    m.set_run_metrics(runs(vec![r]));
    let sl = StepLabel { step_key: "check".to_string(), status: Some(StepEventStatus::Failure), common: common() };
    let failing: ExpectationLabel = sl.expectation_label(Some("data_quality".to_string()));
    let passing = sl.expectation_label(Some("row_count".to_string()));
    assert_eq!(m.expectation_failure.get(&failing.labels()), Some(1));
    assert_eq!(m.expectation_failure.get(&passing.labels()), Some(0));
}

#[test]
fn counters_never_decrease() {
    let mut m = Metrics::with_cursor(0);
    let mut last = 0;
    for i in 0..4 {
        let s = if i % 2 == 0 { RunStatus::Started } else { RunStatus::Success };
        m.set_run_metrics(runs(vec![run(s, None, None), run(RunStatus::Started, None, None)]));
        m.set_run_metrics(RunsOrError::Error);
        let now = m.run_total.get(&run_labels(RunStatus::Started)).unwrap();
        assert!(now >= last);
        last = now;
    }
    assert_eq!(last, 6);
    assert_eq!(m.run_total.get(&run_labels(RunStatus::Success)), Some(2));
}

#[test]
fn cursor_advances_to_latest_update_and_never_back() {
    let mut m = Metrics::with_cursor(100);
    let mut a = run(RunStatus::Started, None, None);
    a.update_time = Some(250);
    let mut b = run(RunStatus::Started, None, None);
    b.update_time = Some(180);
    m.set_run_metrics(runs(vec![a, b]));
    assert_eq!(m.cursor, 250);
    assert_eq!(m.exporter_last_scrape_timestamp, 250);
    assert_eq!(m.exporter_last_scrape_runs, 2);

    let mut c = run(RunStatus::Success, None, None);
    c.update_time = Some(90);
    m.set_run_metrics(runs(vec![c]));
    assert_eq!(m.cursor, 250);
    assert_eq!(m.exporter_last_scrape_runs, 1);
}

#[test]
fn run_without_times_gets_no_duration() {
    let mut m = Metrics::with_cursor(0);
    m.set_run_metrics(runs(vec![run(RunStatus::Success, Some(SECOND), None)]));
    assert_eq!(m.run_duration_seconds.get(&run_labels(RunStatus::Success)), None);
    assert_eq!(m.run_total.get(&run_labels(RunStatus::Success)), Some(1));
}

#[test]
fn duration_that_overflows_is_skipped() {
    let mut m = Metrics::with_cursor(0);
    m.set_run_metrics(runs(vec![run(RunStatus::Success, Some(i64::MIN), Some(i64::MAX))]));
    assert_eq!(m.run_duration_seconds.get(&run_labels(RunStatus::Success)), None);
    assert_eq!(m.run_total.get(&run_labels(RunStatus::Success)), Some(1));
}

#[test]
fn error_in_place_of_runs_changes_nothing() {
    let mut m = Metrics::with_cursor(7);
    m.set_run_metrics(runs(vec![run(RunStatus::Queued, Some(0), Some(SECOND))]));
    m.set_run_metrics(RunsOrError::Error);
    assert_eq!(m.cursor, 7);
    assert_eq!(m.run_total.get(&run_labels(RunStatus::Queued)), Some(1));
    assert_eq!(m.run_duration_seconds.get(&run_labels(RunStatus::Queued)), Some(SECOND));
}

#[test]
fn run_without_origin_has_empty_location_labels() {
    let c = CommonLabel::new(None, "job".to_string());
    assert_eq!(c.workspace_location, None);
    let labels = RunLabel::new(RunStatus::Queued, "m".to_string(), c).labels();
    assert_eq!(
        labels,
        vec![
            ("status".to_string(), "QUEUED".to_string()),
            ("mode".to_string(), "m".to_string()),
            ("workspace_location".to_string(), "".to_string()),
            ("repository_name".to_string(), "".to_string()),
            ("pipeline_name".to_string(), "job".to_string()),
        ]
    );
}
