use vstd::prelude::*;
use crate::family::{Family, LabelKey};
use crate::labels::{run_key, step_key, CommonLabel};
use crate::status::{RunStatus, StepEventStatus};

verus! {

/// Relies on `std::time::SystemTime::now`: the microseconds since the Unix
/// epoch, or zero where the clock stands before it. Nothing is promised of the
/// value.
#[verifier::external_body]
fn clock_micros() -> (r: u64) {
    match std::time::SystemTime::now().duration_since(std::time::UNIX_EPOCH) {
        Ok(d) => d.as_micros() as u64,
        Err(_) => 0,
    }
}

/// The metric state: every family that the exporter serves, and the cursor
/// that bounds the next fetch of runs. Values of families that hold times or
/// durations are whole microseconds; the others are counts.
pub struct Metrics {
    /// The largest update time seen among runs; runs are fetched from it on.
    pub cursor: i64,
    pub run_total: Family,
    pub run_duration_seconds: Family,
    pub run_queue_seconds: Family,
    pub runs_by_instigation_total: Family,
    pub step_total: Family,
    pub step_duration_seconds: Family,
    pub step_attempts: Family,
    pub expectation_failure: Family,
    pub asset_materialization_timestamp: Family,
    pub daemon_last_heartbeat_seconds: Family,
    pub workspace_location_last_update_seconds: Family,
    pub concurrency_slots: Family,
    pub concurrency_active_slots: Family,
    pub concurrency_pending_steps: Family,
    pub concurrency_assigned_steps: Family,
    pub exporter_last_scrape_runs: i64,
    pub exporter_last_scrape_timestamp: i64,
}

/// What the run group of the metric state holds.
pub struct RunModel {
    pub cursor: int,
    pub last_scrape_runs: int,
    pub last_scrape_timestamp: int,
    pub run_total: Map<LabelKey, int>,
    pub run_duration: Map<LabelKey, int>,
    pub run_queue: Map<LabelKey, int>,
    pub step_total: Map<LabelKey, int>,
    pub step_duration: Map<LabelKey, int>,
    pub step_attempts: Map<LabelKey, int>,
    pub expectation_failure: Map<LabelKey, int>,
    pub asset_materialization: Map<LabelKey, int>,
}

/// Each run identity has gauge samples under one status at most.
pub open spec fn runs_single_status(m: Map<LabelKey, int>) -> bool {
    forall|mode: Seq<char>, c: CommonLabel, s1: RunStatus, s2: RunStatus|
        #[trigger] m.contains_key(run_key(s1, mode, c)) && #[trigger] m.contains_key(
            run_key(s2, mode, c),
        ) ==> s1 == s2
}

/// Each step identity has gauge samples under one status at most.
pub open spec fn steps_single_status(m: Map<LabelKey, int>) -> bool {
    forall|k: Seq<char>, c: CommonLabel, s1: Option<StepEventStatus>, s2: Option<StepEventStatus>|
        #[trigger] m.contains_key(step_key(k, s1, c)) && #[trigger] m.contains_key(
            step_key(k, s2, c),
        ) ==> s1 == s2
}

impl Metrics {
    /// Every family is well formed.
    pub open spec fn wf(&self) -> bool {
        &&& self.run_total.wf()
        &&& self.run_duration_seconds.wf()
        &&& self.run_queue_seconds.wf()
        &&& self.runs_by_instigation_total.wf()
        &&& self.step_total.wf()
        &&& self.step_duration_seconds.wf()
        &&& self.step_attempts.wf()
        &&& self.expectation_failure.wf()
        &&& self.asset_materialization_timestamp.wf()
        &&& self.daemon_last_heartbeat_seconds.wf()
        &&& self.workspace_location_last_update_seconds.wf()
        &&& self.concurrency_slots.wf()
        &&& self.concurrency_active_slots.wf()
        &&& self.concurrency_pending_steps.wf()
        &&& self.concurrency_assigned_steps.wf()
    }

    /// The run group of the state.
    pub open spec fn run_model(&self) -> RunModel {
        RunModel {
            cursor: self.cursor as int,
            last_scrape_runs: self.exporter_last_scrape_runs as int,
            last_scrape_timestamp: self.exporter_last_scrape_timestamp as int,
            run_total: self.run_total@,
            run_duration: self.run_duration_seconds@,
            run_queue: self.run_queue_seconds@,
            step_total: self.step_total@,
            step_duration: self.step_duration_seconds@,
            step_attempts: self.step_attempts@,
            expectation_failure: self.expectation_failure@,
            asset_materialization: self.asset_materialization_timestamp@,
        }
    }

    /// The families that each poll replaces whole hold the same samples in
    /// `self` and in `o`.
    pub open spec fn same_replaced_groups(&self, o: &Metrics) -> bool {
        &&& self.runs_by_instigation_total@ == o.runs_by_instigation_total@
        &&& self.daemon_last_heartbeat_seconds@ == o.daemon_last_heartbeat_seconds@
        &&& self.workspace_location_last_update_seconds@ == o.workspace_location_last_update_seconds@
        &&& self.concurrency_slots@ == o.concurrency_slots@
        &&& self.concurrency_active_slots@ == o.concurrency_active_slots@
        &&& self.concurrency_pending_steps@ == o.concurrency_pending_steps@
        &&& self.concurrency_assigned_steps@ == o.concurrency_assigned_steps@
    }

    /// No run or step has gauge samples under two statuses.
    pub open spec fn cardinality_bounded(&self) -> bool {
        &&& runs_single_status(self.run_duration_seconds@)
        &&& runs_single_status(self.run_queue_seconds@)
        &&& steps_single_status(self.step_duration_seconds@)
        &&& steps_single_status(self.step_attempts@)
    }

    /// No family holds a sample, and nothing has been scraped.
    pub open spec fn is_empty(&self) -> bool {
        &&& self.exporter_last_scrape_runs == 0
        &&& self.exporter_last_scrape_timestamp == 0
        &&& self.run_total@.is_empty()
        &&& self.run_duration_seconds@.is_empty()
        &&& self.run_queue_seconds@.is_empty()
        &&& self.runs_by_instigation_total@.is_empty()
        &&& self.step_total@.is_empty()
        &&& self.step_duration_seconds@.is_empty()
        &&& self.step_attempts@.is_empty()
        &&& self.expectation_failure@.is_empty()
        &&& self.asset_materialization_timestamp@.is_empty()
        &&& self.daemon_last_heartbeat_seconds@.is_empty()
        &&& self.workspace_location_last_update_seconds@.is_empty()
        &&& self.concurrency_slots@.is_empty()
        &&& self.concurrency_active_slots@.is_empty()
        &&& self.concurrency_pending_steps@.is_empty()
        &&& self.concurrency_assigned_steps@.is_empty()
    }

    /// An empty state whose cursor starts at `cursor`.
    pub fn with_cursor(cursor: i64) -> (r: Metrics)
        ensures
            r.wf(),
            r.cardinality_bounded(),
            r.is_empty(),
            r.cursor == cursor,
    {
        Metrics {
            cursor,
            run_total: Family::new(),
            run_duration_seconds: Family::new(),
            run_queue_seconds: Family::new(),
            runs_by_instigation_total: Family::new(),
            step_total: Family::new(),
            step_duration_seconds: Family::new(),
            step_attempts: Family::new(),
            expectation_failure: Family::new(),
            asset_materialization_timestamp: Family::new(),
            daemon_last_heartbeat_seconds: Family::new(),
            workspace_location_last_update_seconds: Family::new(),
            concurrency_slots: Family::new(),
            concurrency_active_slots: Family::new(),
            concurrency_pending_steps: Family::new(),
            concurrency_assigned_steps: Family::new(),
            exporter_last_scrape_runs: 0,
            exporter_last_scrape_timestamp: 0,
        }
    }

    /// An empty state whose cursor starts at the clock reading `now`, held to
    /// the largest `i64`.
    pub fn from_clock(now: u64) -> (r: Metrics)
        ensures
            r.wf(),
            r.cardinality_bounded(),
            r.is_empty(),
            r.cursor == if now <= i64::MAX as u64 {
                now as i64
            } else {
                i64::MAX
            },
    {
        let cursor: i64 = if now <= i64::MAX as u64 {
            now as i64
        } else {
            i64::MAX
        };
        Metrics::with_cursor(cursor)
    }

    /// An empty state whose cursor starts at the present time, so that only
    /// runs updated from now on are counted.
    pub fn new() -> (r: Metrics)
        ensures
            r.wf(),
            r.cardinality_bounded(),
            r.is_empty(),
            r.cursor >= 0,
    {
        Metrics::from_clock(clock_micros())
    }
}

} // verus!
