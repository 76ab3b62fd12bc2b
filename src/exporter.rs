use vstd::prelude::*;
use crate::laws::{
    counters_grow, lemma_cardinality_bound, lemma_counters_monotonic, lemma_cursor_monotonic,
};
use crate::metrics::Metrics;
use crate::replace::{concurrency_samples, daemon_samples, instigation_samples, workspace_samples};
use crate::snapshot::{Snapshot, WorkspaceOrError};
use crate::update::merge_runs;

verus! {

/// The refresh gate: whether a fetch is owed, and whether one is under way.
pub struct GateState {
    pub stale: bool,
    pub in_flight: bool,
}

/// What a read request is to do next.
#[derive(Clone, Copy, Debug, PartialEq, Eq, Structural)]
pub enum ReadAction {
    /// Serve the metric state as it stands.
    Serve,
    /// Fetch the runs updated since `runs_since`, then hand the snapshot to
    /// `complete_fetch`, or call `abandon_fetch` where the fetch failed.
    Fetch { runs_since: i64 },
    /// Another request is fetching: read again once it is done.
    Wait,
}

/// The refresh gate after a read request has checked it, and what the request
/// does, where the cursor stands at `cursor`.
pub open spec fn read_step(g: GateState, cursor: i64) -> (GateState, ReadAction) {
    if g.in_flight {
        (g, ReadAction::Wait)
    } else if g.stale {
        (GateState { stale: true, in_flight: true }, ReadAction::Fetch { runs_since: cursor })
    } else {
        (g, ReadAction::Serve)
    }
}

/// A fetch is under way only while one is owed: no reachable gate is fresh
/// and fetching at once.
pub open spec fn gate_consistent(g: GateState) -> bool {
    g.stale || !g.in_flight
}

/// The refresh gate after a timer tick.
pub open spec fn tick_step(g: GateState) -> GateState {
    GateState { stale: true, in_flight: g.in_flight }
}

/// The refresh gate after a fetch that succeeded and was merged.
pub open spec fn complete_step(g: GateState) -> GateState {
    GateState { stale: false, in_flight: false }
}

/// The refresh gate after a fetch that failed: the next read fetches again.
pub open spec fn abandon_step(g: GateState) -> GateState {
    GateState { stale: true, in_flight: false }
}

impl Metrics {
    /// Merges a whole snapshot: the run group incrementally, the workspace,
    /// daemon and concurrency groups by full replacement.
    pub fn merge_snapshot(&mut self, snapshot: Snapshot)
        requires
            old(self).wf(),
        ensures
            final(self).wf(),
            final(self).run_model() == merge_runs(old(self).run_model(), snapshot.runs_or_error),
            old(self).cardinality_bounded() ==> final(self).cardinality_bounded(),
            counters_grow(old(self).run_total@, final(self).run_total@),
            counters_grow(old(self).step_total@, final(self).step_total@),
            final(self).cursor >= old(self).cursor,
            final(self).daemon_last_heartbeat_seconds@ == daemon_samples(snapshot.daemon_statuses@),
            final(self).concurrency_slots@ == concurrency_samples(snapshot.concurrency_limits@, 0),
            final(self).concurrency_active_slots@ == concurrency_samples(
                snapshot.concurrency_limits@,
                1,
            ),
            final(self).concurrency_pending_steps@ == concurrency_samples(
                snapshot.concurrency_limits@,
                2,
            ),
            final(self).concurrency_assigned_steps@ == concurrency_samples(
                snapshot.concurrency_limits@,
                3,
            ),
            match snapshot.workspace_or_error {
                WorkspaceOrError::Workspace(es) => {
                    &&& final(self).workspace_location_last_update_seconds@ == workspace_samples(es@)
                    &&& final(self).runs_by_instigation_total@ == instigation_samples(es@)
                },
                WorkspaceOrError::Error => {
                    &&& final(self).workspace_location_last_update_seconds@ == old(
                        self,
                    ).workspace_location_last_update_seconds@
                    &&& final(self).runs_by_instigation_total@ == old(self).runs_by_instigation_total@
                },
            },
    {
        let Snapshot { runs_or_error, workspace_or_error, daemon_statuses, concurrency_limits } =
            snapshot;
        let ghost m0 = self.run_model();
        let ghost r = runs_or_error;
        self.set_run_metrics(runs_or_error);
        proof {
            if old(self).cardinality_bounded() {
                lemma_cardinality_bound(m0, r);
            }
            lemma_counters_monotonic(m0, r);
            lemma_cursor_monotonic(m0, r);
        }
        self.set_workspace_metrics(workspace_or_error);
        self.set_daemon_metrics(daemon_statuses);
        self.set_concurrency_metrics(concurrency_limits);
    }
}

/// The owner of the metric state: it serialises fetches through the refresh
/// gate, so that at most one fetch and merge is under way at a time.
pub struct Exporter {
    /// The base address of the control plane's query endpoint.
    pub url: String,
    /// Whether the concurrency families are served.
    pub concurrency_metrics: bool,
    pub metrics: Metrics,
    pub refresh: RefreshGate,
}

/// The refresh gate of an exporter; only the exporter's methods move it.
pub struct RefreshGate {
    stale: bool,
    in_flight: bool,
}

impl RefreshGate {
    pub closed spec fn view(&self) -> GateState {
        GateState { stale: self.stale, in_flight: self.in_flight }
    }
}

impl Exporter {
    /// The state of the refresh gate.
    pub open spec fn gate(&self) -> GateState {
        self.refresh.view()
    }

    /// An exporter whose first read fetches.
    pub fn new(url: String, concurrency_metrics: bool) -> (r: Exporter)
        ensures
            r.url == url,
            r.concurrency_metrics == concurrency_metrics,
            r.metrics.wf(),
            r.metrics.cardinality_bounded(),
            r.metrics.is_empty(),
            r.gate() == (GateState { stale: true, in_flight: false }),
            gate_consistent(r.gate()),
    {
        Exporter { url, concurrency_metrics, metrics: Metrics::new(), refresh: RefreshGate { stale: true, in_flight: false } }
    }

    /// An exporter over `metrics`, whose first read fetches.
    pub fn with_metrics(url: String, concurrency_metrics: bool, metrics: Metrics) -> (r: Exporter)
        ensures
            r.url == url,
            r.concurrency_metrics == concurrency_metrics,
            r.metrics == metrics,
            r.gate() == (GateState { stale: true, in_flight: false }),
            gate_consistent(r.gate()),
    {
        Exporter {
            url,
            concurrency_metrics,
            metrics,
            refresh: RefreshGate { stale: true, in_flight: false },
        }
    }

    /// Whether a fetch is owed.
    pub fn is_stale(&self) -> (r: bool)
        ensures
            r == self.gate().stale,
    {
        self.refresh.stale
    }

    /// Whether a fetch is under way.
    pub fn is_fetching(&self) -> (r: bool)
        ensures
            r == self.gate().in_flight,
    {
        self.refresh.in_flight
    }

    /// A timer tick: the next read fetches.
    pub fn tick(&mut self)
        ensures
            final(self).gate() == tick_step(old(self).gate()),
            gate_consistent(final(self).gate()),
            final(self).metrics == old(self).metrics,
            final(self).url == old(self).url,
            final(self).concurrency_metrics == old(self).concurrency_metrics,
    {
        self.refresh.stale = true;
    }

    /// A read request checks the refresh gate. Where the state is fresh it is served
    /// as it stands; where it is stale the request is told to fetch from the
    /// cursor, and the refresh gate holds every other request back until that fetch
    /// ends. Reading changes no metric.
    pub fn begin_read(&mut self) -> (r: ReadAction)
        ensures
            (final(self).gate(), r) == read_step(old(self).gate(), old(self).metrics.cursor),
            gate_consistent(old(self).gate()) ==> gate_consistent(final(self).gate()),
            gate_consistent(old(self).gate()) && !old(self).gate().stale ==> r == ReadAction::Serve,
            final(self).metrics == old(self).metrics,
            final(self).url == old(self).url,
            final(self).concurrency_metrics == old(self).concurrency_metrics,
    {
        if self.refresh.in_flight {
            ReadAction::Wait
        } else if self.refresh.stale {
            self.refresh.in_flight = true;
            ReadAction::Fetch { runs_since: self.metrics.cursor }
        } else {
            ReadAction::Serve
        }
    }

    /// The fetch that `begin_read` asked for succeeded: its snapshot is
    /// merged and the state is fresh.
    pub fn complete_fetch(&mut self, snapshot: Snapshot)
        requires
            old(self).metrics.wf(),
        ensures
            final(self).gate() == complete_step(old(self).gate()),
            gate_consistent(final(self).gate()),
            final(self).metrics.wf(),
            old(self).metrics.cardinality_bounded() ==> final(self).metrics.cardinality_bounded(),
            counters_grow(old(self).metrics.run_total@, final(self).metrics.run_total@),
            counters_grow(old(self).metrics.step_total@, final(self).metrics.step_total@),
            final(self).metrics.cursor >= old(self).metrics.cursor,
            final(self).metrics.run_model() == merge_runs(
                old(self).metrics.run_model(),
                snapshot.runs_or_error,
            ),
            final(self).metrics.daemon_last_heartbeat_seconds@ == daemon_samples(
                snapshot.daemon_statuses@,
            ),
            final(self).metrics.concurrency_slots@ == concurrency_samples(
                snapshot.concurrency_limits@,
                0,
            ),
            final(self).metrics.concurrency_active_slots@ == concurrency_samples(
                snapshot.concurrency_limits@,
                1,
            ),
            final(self).metrics.concurrency_pending_steps@ == concurrency_samples(
                snapshot.concurrency_limits@,
                2,
            ),
            final(self).metrics.concurrency_assigned_steps@ == concurrency_samples(
                snapshot.concurrency_limits@,
                3,
            ),
            match snapshot.workspace_or_error {
                WorkspaceOrError::Workspace(es) => {
                    &&& final(self).metrics.workspace_location_last_update_seconds@
                        == workspace_samples(es@)
                    &&& final(self).metrics.runs_by_instigation_total@ == instigation_samples(es@)
                },
                WorkspaceOrError::Error => {
                    &&& final(self).metrics.workspace_location_last_update_seconds@ == old(
                        self,
                    ).metrics.workspace_location_last_update_seconds@
                    &&& final(self).metrics.runs_by_instigation_total@ == old(
                        self,
                    ).metrics.runs_by_instigation_total@
                },
            },
            final(self).url == old(self).url,
            final(self).concurrency_metrics == old(self).concurrency_metrics,
    {
        self.metrics.merge_snapshot(snapshot);
        self.refresh.stale = false;
        self.refresh.in_flight = false;
    }

    /// The fetch that `begin_read` asked for failed: nothing is merged, and
    /// the next read fetches again.
    pub fn abandon_fetch(&mut self)
        ensures
            final(self).gate() == abandon_step(old(self).gate()),
            gate_consistent(final(self).gate()),
            final(self).metrics == old(self).metrics,
            final(self).url == old(self).url,
            final(self).concurrency_metrics == old(self).concurrency_metrics,
    {
        self.refresh.stale = true;
        self.refresh.in_flight = false;
    }
}

} // verus!
