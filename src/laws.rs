use vstd::prelude::*;
use crate::exporter::{complete_step, gate_consistent, read_step, GateState, ReadAction};
use crate::family::{incremented, LabelKey};
use crate::labels::{
    concurrency_key, daemon_key, instigation_key, run_identity_key, run_key, step_key, workspace_key,
    CommonLabel,
};
use crate::metrics::{runs_single_status, steps_single_status, RunModel};
use crate::replace::{
    concurrency_samples, daemon_samples, fold_repositories, fold_schedules, fold_sensors,
    instigation_samples, schedule_type_value, sensor_type_value, workspace_samples,
};
use crate::snapshot::{
    AssetMaterialization, ConcurrencyLimit, DaemonStatus, LocationEntry, LocationOrLoadError,
    Repository, Run, RunsOrError, Schedule, Sensor, StepStats,
};
use crate::status::{
    lemma_run_status_name_injective, lemma_step_status_name_injective, run_status_name,
    step_status_name, RunStatus, StepEventStatus,
};
use crate::timestamp::decimal_micros;
use crate::update::{
    advance_cursor, apply_run, apply_step, fold_assets, fold_runs, fold_steps,
    merge_runs, other_run_keys, other_step_keys, set_opt,
};

verus! {

/// Every counter of `a` is in `b`, with a value at least as large.
pub open spec fn counters_grow(a: Map<LabelKey, int>, b: Map<LabelKey, int>) -> bool {
    forall|k: LabelKey| #[trigger] a.contains_key(k) ==> b.contains_key(k) && a[k] <= b[k]
}

/// Two run keys are equal only where the statuses are, and then the keys of
/// the two identities are equal under every status.
proof fn lemma_run_key_split(s1: RunStatus, m1: Seq<char>, c1: CommonLabel, s2: RunStatus, m2: Seq<char>, c2: CommonLabel)
    requires
        run_key(s1, m1, c1) == run_key(s2, m2, c2),
    ensures
        s1 == s2,
        run_identity_key(m1, c1) == run_identity_key(m2, c2),
{
    let a = run_key(s1, m1, c1);
    let b = run_key(s2, m2, c2);
    assert(a[0] == b[0]);
    assert(a[0].1 == run_status_name(s1));
    assert(b[0].1 == run_status_name(s2));
    lemma_run_status_name_injective(s1, s2);
    assert(a.subrange(1, a.len() as int) =~= run_identity_key(m1, c1));
    assert(b.subrange(1, b.len() as int) =~= run_identity_key(m2, c2));
}

/// The same for step keys.
proof fn lemma_step_key_split(
    k1: Seq<char>,
    s1: Option<StepEventStatus>,
    c1: CommonLabel,
    k2: Seq<char>,
    s2: Option<StepEventStatus>,
    c2: CommonLabel,
)
    requires
        step_key(k1, s1, c1) == step_key(k2, s2, c2),
    ensures
        s1 == s2,
        forall|x: Option<StepEventStatus>| step_key(k1, x, c1) == #[trigger] step_key(k2, x, c2),
{
    let a = step_key(k1, s1, c1);
    let b = step_key(k2, s2, c2);
    assert(a[0] == b[0]);
    assert(a[1] == b[1]);
    assert(a[1].1 == step_status_name(s1));
    assert(b[1].1 == step_status_name(s2));
    lemma_step_status_name_injective(s1, s2);
    assert(a.subrange(2, a.len() as int) =~= c1.spec_key());
    assert(b.subrange(2, b.len() as int) =~= c2.spec_key());
    assert forall|x: Option<StepEventStatus>| step_key(k1, x, c1) == #[trigger] step_key(k2, x, c2) by {
        assert(step_key(k1, x, c1) =~= step_key(k2, x, c2));
    }
}

/// Evicting a run's other statuses, then writing its own, keeps each run
/// identity under one status.
proof fn lemma_run_evict_write(m: Map<LabelKey, int>, mode: Seq<char>, c: CommonLabel, s: RunStatus, v: Option<i64>)
    requires
        runs_single_status(m),
    ensures
        runs_single_status(set_opt(m.remove_keys(other_run_keys(mode, c, s)), run_key(s, mode, c), v)),
{
    let m2 = set_opt(m.remove_keys(other_run_keys(mode, c, s)), run_key(s, mode, c), v);
    assert forall|mode2: Seq<char>, c2: CommonLabel, s1: RunStatus, s2: RunStatus|
        #[trigger] m2.contains_key(run_key(s1, mode2, c2)) && #[trigger] m2.contains_key(
            run_key(s2, mode2, c2),
        ) implies s1 == s2 by {
        if run_identity_key(mode2, c2) == run_identity_key(mode, c) {
            assert(run_key(s1, mode2, c2) =~= run_key(s1, mode, c));
            assert(run_key(s2, mode2, c2) =~= run_key(s2, mode, c));
            if s1 != s {
                assert(other_run_keys(mode, c, s).contains(run_key(s1, mode, c)));
                if run_key(s1, mode, c) == run_key(s, mode, c) {
                    lemma_run_key_split(s1, mode, c, s, mode, c);
                }
            }
            if s2 != s {
                assert(other_run_keys(mode, c, s).contains(run_key(s2, mode, c)));
                if run_key(s2, mode, c) == run_key(s, mode, c) {
                    lemma_run_key_split(s2, mode, c, s, mode, c);
                }
            }
        } else {
            if run_key(s1, mode2, c2) == run_key(s, mode, c) {
                lemma_run_key_split(s1, mode2, c2, s, mode, c);
            }
            if run_key(s2, mode2, c2) == run_key(s, mode, c) {
                lemma_run_key_split(s2, mode2, c2, s, mode, c);
            }
            assert(m.contains_key(run_key(s1, mode2, c2)));
            assert(m.contains_key(run_key(s2, mode2, c2)));
        }
    }
}

/// Evicting a step's other statuses, then writing its own, keeps each step
/// identity under one status.
proof fn lemma_step_evict_write(
    m: Map<LabelKey, int>,
    k: Seq<char>,
    c: CommonLabel,
    s: Option<StepEventStatus>,
    v: Option<i64>,
)
    requires
        steps_single_status(m),
    ensures
        steps_single_status(set_opt(m.remove_keys(other_step_keys(k, c, s)), step_key(k, s, c), v)),
{
    let m2 = set_opt(m.remove_keys(other_step_keys(k, c, s)), step_key(k, s, c), v);
    assert forall|k2: Seq<char>, c2: CommonLabel, s1: Option<StepEventStatus>, s2: Option<StepEventStatus>|
        #[trigger] m2.contains_key(step_key(k2, s1, c2)) && #[trigger] m2.contains_key(
            step_key(k2, s2, c2),
        ) implies s1 == s2 by {
        if step_key(k2, s, c2) == step_key(k, s, c) {
            lemma_step_key_split(k2, s, c2, k, s, c);
            assert(step_key(k2, s1, c2) == step_key(k, s1, c));
            assert(step_key(k2, s2, c2) == step_key(k, s2, c));
            if s1 != s {
                assert(other_step_keys(k, c, s).contains(step_key(k, s1, c)));
                if step_key(k, s1, c) == step_key(k, s, c) {
                    lemma_step_key_split(k, s1, c, k, s, c);
                }
            }
            if s2 != s {
                assert(other_step_keys(k, c, s).contains(step_key(k, s2, c)));
                if step_key(k, s2, c) == step_key(k, s, c) {
                    lemma_step_key_split(k, s2, c, k, s, c);
                }
            }
        } else {
            if step_key(k2, s1, c2) == step_key(k, s, c) {
                lemma_step_key_split(k2, s1, c2, k, s, c);
            }
            if step_key(k2, s2, c2) == step_key(k, s, c) {
                lemma_step_key_split(k2, s2, c2, k, s, c);
            }
            assert(m.contains_key(step_key(k2, s1, c2)));
            assert(m.contains_key(step_key(k2, s2, c2)));
        }
    }
}

/// A step touches only the step and expectation families.
proof fn lemma_fold_steps_frame(m: RunModel, steps: Seq<StepStats>, c: CommonLabel)
    ensures
        fold_steps(m, steps, c).cursor == m.cursor,
        fold_steps(m, steps, c).last_scrape_timestamp == m.last_scrape_timestamp,
        fold_steps(m, steps, c).run_total == m.run_total,
        fold_steps(m, steps, c).run_duration == m.run_duration,
        fold_steps(m, steps, c).run_queue == m.run_queue,
        counters_grow(m.step_total, fold_steps(m, steps, c).step_total),
        steps_single_status(m.step_duration) && steps_single_status(m.step_attempts) ==> {
            &&& steps_single_status(fold_steps(m, steps, c).step_duration)
            &&& steps_single_status(fold_steps(m, steps, c).step_attempts)
        },
    decreases steps.len(),
{
    if steps.len() > 0 {
        let p = fold_steps(m, steps.drop_last(), c);
        lemma_fold_steps_frame(m, steps.drop_last(), c);
        let st = steps.last();
        let k = step_key(st.step_key@, st.status, c);
        let r = apply_step(p, st, c);
        assert(counters_grow(p.step_total, r.step_total));
        if steps_single_status(p.step_duration) && steps_single_status(p.step_attempts) {
            lemma_step_evict_write(p.step_duration, st.step_key@, c, st.status, crate::update::span(st.start_time, st.end_time));
            lemma_step_evict_write(p.step_attempts, st.step_key@, c, st.status, Some(st.attempts as i64));
            assert(p.step_attempts.remove_keys(other_step_keys(st.step_key@, c, st.status)).insert(k, st.attempts as int)
                == set_opt(p.step_attempts.remove_keys(other_step_keys(st.step_key@, c, st.status)), k, Some(st.attempts as i64)));
        }
    }
}

/// An asset materialization touches only its own family.
proof fn lemma_fold_assets_frame(m: RunModel, assets: Seq<AssetMaterialization>, c: CommonLabel)
    ensures
        fold_assets(m, assets, c).cursor == m.cursor,
        fold_assets(m, assets, c).last_scrape_timestamp == m.last_scrape_timestamp,
        fold_assets(m, assets, c).run_total == m.run_total,
        fold_assets(m, assets, c).run_duration == m.run_duration,
        fold_assets(m, assets, c).run_queue == m.run_queue,
        fold_assets(m, assets, c).step_total == m.step_total,
        fold_assets(m, assets, c).step_duration == m.step_duration,
        fold_assets(m, assets, c).step_attempts == m.step_attempts,
    decreases assets.len(),
{
    if assets.len() > 0 {
        lemma_fold_assets_frame(m, assets.drop_last(), c);
    }
}

/// What one run does to the cursor, the counters and the gauges with a status.
proof fn lemma_apply_run(m: RunModel, r: Run)
    ensures
        apply_run(m, r).cursor >= m.cursor,
        counters_grow(m.run_total, apply_run(m, r).run_total),
        counters_grow(m.step_total, apply_run(m, r).step_total),
        runs_bounded(m) ==> runs_bounded(apply_run(m, r)),
        steps_bounded(m) ==> steps_bounded(apply_run(m, r)),
{
    let m1 = advance_cursor(m, r.update_time);
    let c = crate::update::run_common(r);
    let k = run_key(r.status, r.mode@, c);
    let others = other_run_keys(r.mode@, c, r.status);
    let m2 = RunModel {
        run_total: m1.run_total.insert(k, incremented(m1.run_total, k)),
        run_duration: set_opt(m1.run_duration.remove_keys(others), k, crate::update::span(r.start_time, r.end_time)),
        run_queue: set_opt(m1.run_queue.remove_keys(others), k, crate::update::queue_span(r.stats)),
        ..m1
    };
    let m3 = fold_steps(m2, r.step_stats@, c);
    lemma_fold_steps_frame(m2, r.step_stats@, c);
    lemma_fold_assets_frame(m3, r.asset_materializations@, c);
    assert(counters_grow(m.run_total, m2.run_total));
    if runs_bounded(m) {
        lemma_run_evict_write(m1.run_duration, r.mode@, c, r.status, crate::update::span(r.start_time, r.end_time));
        lemma_run_evict_write(m1.run_queue, r.mode@, c, r.status, crate::update::queue_span(r.stats));
    }
}

/// No run identity has duration or queue-time samples under two statuses.
pub open spec fn runs_bounded(m: RunModel) -> bool {
    &&& runs_single_status(m.run_duration)
    &&& runs_single_status(m.run_queue)
}

/// No step identity has duration or attempts samples under two statuses.
pub open spec fn steps_bounded(m: RunModel) -> bool {
    &&& steps_single_status(m.step_duration)
    &&& steps_single_status(m.step_attempts)
}

/// No run or step identity has gauge samples under two statuses.
pub open spec fn bounded(m: RunModel) -> bool {
    runs_bounded(m) && steps_bounded(m)
}

proof fn lemma_fold_runs(m: RunModel, runs: Seq<Run>)
    ensures
        fold_runs(m, runs).cursor >= m.cursor,
        counters_grow(m.run_total, fold_runs(m, runs).run_total),
        counters_grow(m.step_total, fold_runs(m, runs).step_total),
        runs_bounded(m) ==> runs_bounded(fold_runs(m, runs)),
        steps_bounded(m) ==> steps_bounded(fold_runs(m, runs)),
    decreases runs.len(),
{
    if runs.len() > 0 {
        let p = fold_runs(m, runs.drop_last());
        lemma_fold_runs(m, runs.drop_last());
        lemma_apply_run(p, runs.last());
        lemma_counters_grow_transitive(m.run_total, p.run_total, fold_runs(m, runs).run_total);
        lemma_counters_grow_transitive(m.step_total, p.step_total, fold_runs(m, runs).step_total);
    }
}

/// Growth of counters composes over a sequence of merges.
pub proof fn lemma_counters_grow_transitive(a: Map<LabelKey, int>, b: Map<LabelKey, int>, c: Map<LabelKey, int>)
    requires
        counters_grow(a, b),
        counters_grow(b, c),
    ensures
        counters_grow(a, c),
{
}

/// Cardinality bound: whatever statuses the runs of a merge pass through, each
/// run identity, and each step identity, keeps its duration and queue-time (for
/// steps: duration and attempts) samples under one status at most.
pub proof fn lemma_cardinality_bound(m: RunModel, runs: RunsOrError)
    requires
        bounded(m),
    ensures
        bounded(merge_runs(m, runs)),
{
    match runs {
        RunsOrError::Runs(r) => {
            let m0 = match r.count {
                Some(i) => RunModel { last_scrape_runs: i as int, ..m },
                None => m,
            };
            lemma_fold_runs(m0, r.results@);
        },
        RunsOrError::Error => {},
    }
}

/// Cardinality bound for runs alone: whatever statuses the runs of a merge
/// pass through, each run identity keeps its duration and queue-time samples
/// under one status at most.
pub proof fn lemma_run_cardinality_bound(m: RunModel, runs: RunsOrError)
    requires
        runs_bounded(m),
    ensures
        runs_bounded(merge_runs(m, runs)),
{
    match runs {
        RunsOrError::Runs(r) => {
            let m0 = match r.count {
                Some(i) => RunModel { last_scrape_runs: i as int, ..m },
                None => m,
            };
            lemma_fold_runs(m0, r.results@);
        },
        RunsOrError::Error => {},
    }
}

/// Cardinality bound for steps alone: each step identity keeps its duration
/// and attempts samples under one status at most.
pub proof fn lemma_step_cardinality_bound(m: RunModel, runs: RunsOrError)
    requires
        steps_bounded(m),
    ensures
        steps_bounded(merge_runs(m, runs)),
{
    match runs {
        RunsOrError::Runs(r) => {
            let m0 = match r.count {
                Some(i) => RunModel { last_scrape_runs: i as int, ..m },
                None => m,
            };
            lemma_fold_runs(m0, r.results@);
        },
        RunsOrError::Error => {},
    }
}

/// Counter monotonicity: a merge never lowers nor drops a cumulative counter.
pub proof fn lemma_counters_monotonic(m: RunModel, runs: RunsOrError)
    ensures
        counters_grow(m.run_total, merge_runs(m, runs).run_total),
        counters_grow(m.step_total, merge_runs(m, runs).step_total),
{
    match runs {
        RunsOrError::Runs(r) => {
            let m0 = match r.count {
                Some(i) => RunModel { last_scrape_runs: i as int, ..m },
                None => m,
            };
            lemma_fold_runs(m0, r.results@);
        },
        RunsOrError::Error => {},
    }
}

/// Cursor monotonicity: a merge never moves the cursor back.
pub proof fn lemma_cursor_monotonic(m: RunModel, runs: RunsOrError)
    ensures
        merge_runs(m, runs).cursor >= m.cursor,
{
    match runs {
        RunsOrError::Runs(r) => {
            let m0 = match r.count {
                Some(i) => RunModel { last_scrape_runs: i as int, ..m },
                None => m,
            };
            lemma_fold_runs(m0, r.results@);
        },
        RunsOrError::Error => {},
    }
}

} // verus!

verus! {

/// Whether some entry of `es` lists the update-time key `k`.
pub open spec fn workspace_listed(es: Seq<LocationEntry>, k: LabelKey) -> bool {
    exists|i: int| 0 <= i < es.len() && #[trigger] workspace_key(es[i]) == k
}

/// Whether some daemon of `ds` reports a heartbeat under key `k`.
pub open spec fn daemon_listed(ds: Seq<DaemonStatus>, k: LabelKey) -> bool {
    exists|i: int| 0 <= i < ds.len() && #[trigger] daemon_key(ds[i]) == k
}

/// Whether some concurrency key of `cs` is exported under `k`.
pub open spec fn concurrency_listed(cs: Seq<ConcurrencyLimit>, k: LabelKey) -> bool {
    exists|i: int| 0 <= i < cs.len() && #[trigger] concurrency_key(cs[i].concurrency_key@) == k
}

/// Full-replace completeness for workspace entries: after a poll, an update
/// time is exported only under a key that the poll's snapshot lists.
pub proof fn lemma_workspace_replaced(es: Seq<LocationEntry>, k: LabelKey)
    requires
        !workspace_listed(es, k),
    ensures
        !workspace_samples(es).contains_key(k),
    decreases es.len(),
{
    if es.len() > 0 {
        let p = es.drop_last();
        assert(!workspace_listed(p, k)) by {
            if workspace_listed(p, k) {
                let i = choose|i: int| 0 <= i < p.len() && #[trigger] workspace_key(p[i]) == k;
                assert(es[i] == p[i]);
            }
        }
        lemma_workspace_replaced(p, k);
        assert(workspace_key(es[es.len() - 1]) != k);
    }
}

/// Full-replace completeness for daemons: after a poll, a heartbeat is
/// exported only under a key of a daemon that the poll's snapshot lists.
pub proof fn lemma_daemons_replaced(ds: Seq<DaemonStatus>, k: LabelKey)
    requires
        !daemon_listed(ds, k),
    ensures
        !daemon_samples(ds).contains_key(k),
    decreases ds.len(),
{
    if ds.len() > 0 {
        let p = ds.drop_last();
        assert(!daemon_listed(p, k)) by {
            if daemon_listed(p, k) {
                let i = choose|i: int| 0 <= i < p.len() && #[trigger] daemon_key(p[i]) == k;
                assert(ds[i] == p[i]);
            }
        }
        lemma_daemons_replaced(p, k);
        assert(daemon_key(ds[ds.len() - 1]) != k);
    }
}

/// Full-replace completeness for concurrency keys: after a poll, each of the
/// four counts is exported only under a key that the poll's snapshot lists.
pub proof fn lemma_concurrency_replaced(cs: Seq<ConcurrencyLimit>, which: int, k: LabelKey)
    requires
        !concurrency_listed(cs, k),
    ensures
        !concurrency_samples(cs, which).contains_key(k),
    decreases cs.len(),
{
    if cs.len() > 0 {
        let p = cs.drop_last();
        assert(!concurrency_listed(p, k)) by {
            if concurrency_listed(p, k) {
                let i = choose|i: int|
                    0 <= i < p.len() && #[trigger] concurrency_key(p[i].concurrency_key@) == k;
                assert(cs[i] == p[i]);
            }
        }
        lemma_concurrency_replaced(p, which, k);
        assert(concurrency_key(cs[cs.len() - 1].concurrency_key@) != k);
    }
}

/// Reads between two timer ticks fetch at most once: where no fetch is owed,
/// a read serves and changes nothing, so a second read serves too; where one
/// is owed, a read asks for it, a read during that fetch waits, and once it is
/// merged the next read serves without fetching again.
pub proof fn lemma_refresh_idempotent(g: GateState, cursor: i64, later: i64)
    ensures
        !g.stale && !g.in_flight ==> read_step(g, cursor) == (g, ReadAction::Serve) && read_step(
            g,
            later,
        ) == (g, ReadAction::Serve),
        read_step(g, cursor).1 is Fetch ==> read_step(read_step(g, cursor).0, later).1
            == ReadAction::Wait && read_step(complete_step(read_step(g, cursor).0), later).1
            == ReadAction::Serve,
        g.in_flight ==> read_step(g, cursor).1 == ReadAction::Wait,
        gate_consistent(g) && !g.stale ==> read_step(g, cursor) == (g, ReadAction::Serve)
            && read_step(g, later) == (g, ReadAction::Serve),
{
}

} // verus!

verus! {

/// Whether repository `r`, in entry `w` and location `l`, lists an
/// instigator under key `k`.
pub open spec fn repository_lists(r: Repository, w: Seq<char>, l: Seq<char>, k: LabelKey) -> bool {
    ||| exists|t: int|
        0 <= t < r.sensors@.len() && #[trigger] instigation_key(
            w,
            l,
            r.sensors@[t].name@,
            sensor_type_value(r.sensors@[t]),
        ) == k
    ||| exists|t: int|
        0 <= t < r.schedules@.len() && #[trigger] instigation_key(
            w,
            l,
            r.schedules@[t].name@,
            schedule_type_value(r.schedules@[t]),
        ) == k
}

/// Whether a repository of `rs` lists an instigator under key `k`.
pub open spec fn repositories_list(rs: Seq<Repository>, w: Seq<char>, l: Seq<char>, k: LabelKey) -> bool {
    exists|j: int| 0 <= j < rs.len() && repository_lists(#[trigger] rs[j], w, l, k)
}

/// Whether a loaded location of the workspace `es` lists an instigator under `k`.
pub open spec fn instigation_listed(es: Seq<LocationEntry>, k: LabelKey) -> bool {
    exists|i: int|
        0 <= i < es.len() && match #[trigger] es[i].location_or_load_error {
            Some(LocationOrLoadError::RepositoryLocation(loc)) => repositories_list(
                loc.repositories@,
                es[i].name@,
                loc.name@,
                k,
            ),
            _ => false,
        }
}

proof fn lemma_sensors_absent(m: Map<LabelKey, int>, ss: Seq<Sensor>, w: Seq<char>, l: Seq<char>, k: LabelKey)
    requires
        !m.contains_key(k),
        forall|t: int| 0 <= t < ss.len() ==> #[trigger] instigation_key(w, l, ss[t].name@, sensor_type_value(ss[t])) != k,
    ensures
        !fold_sensors(m, ss, w, l).contains_key(k),
    decreases ss.len(),
{
    if ss.len() > 0 {
        let p = ss.drop_last();
        assert forall|t: int| 0 <= t < p.len() implies #[trigger] instigation_key(w, l, p[t].name@, sensor_type_value(p[t])) != k by {
            assert(p[t] == ss[t]);
        }
        lemma_sensors_absent(m, p, w, l, k);
        assert(instigation_key(w, l, ss[ss.len() - 1].name@, sensor_type_value(ss[ss.len() - 1])) != k);
    }
}

proof fn lemma_schedules_absent(m: Map<LabelKey, int>, ss: Seq<Schedule>, w: Seq<char>, l: Seq<char>, k: LabelKey)
    requires
        !m.contains_key(k),
        forall|t: int| 0 <= t < ss.len() ==> #[trigger] instigation_key(w, l, ss[t].name@, schedule_type_value(ss[t])) != k,
    ensures
        !fold_schedules(m, ss, w, l).contains_key(k),
    decreases ss.len(),
{
    if ss.len() > 0 {
        let p = ss.drop_last();
        assert forall|t: int| 0 <= t < p.len() implies #[trigger] instigation_key(w, l, p[t].name@, schedule_type_value(p[t])) != k by {
            assert(p[t] == ss[t]);
        }
        lemma_schedules_absent(m, p, w, l, k);
        assert(instigation_key(w, l, ss[ss.len() - 1].name@, schedule_type_value(ss[ss.len() - 1])) != k);
    }
}

proof fn lemma_repositories_absent(m: Map<LabelKey, int>, rs: Seq<Repository>, w: Seq<char>, l: Seq<char>, k: LabelKey)
    requires
        !m.contains_key(k),
        !repositories_list(rs, w, l, k),
    ensures
        !fold_repositories(m, rs, w, l).contains_key(k),
    decreases rs.len(),
{
    if rs.len() > 0 {
        let p = rs.drop_last();
        let j = rs.len() - 1;
        assert(!repositories_list(p, w, l, k)) by {
            if repositories_list(p, w, l, k) {
                let j0 = choose|j0: int| 0 <= j0 < p.len() && repository_lists(#[trigger] p[j0], w, l, k);
                assert(rs[j0] == p[j0]);
            }
        }
        lemma_repositories_absent(m, p, w, l, k);
        let r = rs[j];
        assert forall|t: int| 0 <= t < r.sensors@.len() implies #[trigger] instigation_key(w, l, r.sensors@[t].name@, sensor_type_value(r.sensors@[t])) != k by {
            if instigation_key(w, l, r.sensors@[t].name@, sensor_type_value(r.sensors@[t])) == k {
                assert(repository_lists(rs[j], w, l, k));
            }
        }
        assert forall|t: int| 0 <= t < r.schedules@.len() implies #[trigger] instigation_key(w, l, r.schedules@[t].name@, schedule_type_value(r.schedules@[t])) != k by {
            if instigation_key(w, l, r.schedules@[t].name@, schedule_type_value(r.schedules@[t])) == k {
                assert(repository_lists(rs[j], w, l, k));
            }
        }
        let m1 = fold_repositories(m, p, w, l);
        lemma_sensors_absent(m1, r.sensors@, w, l, k);
        lemma_schedules_absent(fold_sensors(m1, r.sensors@, w, l), r.schedules@, w, l, k);
    }
}

/// Full-replace completeness for instigators: after a poll, a run count is
/// exported only under a key that a loaded location of the poll's snapshot
/// lists.
pub proof fn lemma_instigations_replaced(es: Seq<LocationEntry>, k: LabelKey)
    requires
        !instigation_listed(es, k),
    ensures
        !instigation_samples(es).contains_key(k),
    decreases es.len(),
{
    if es.len() > 0 {
        let p = es.drop_last();
        assert(!instigation_listed(p, k)) by {
            if instigation_listed(p, k) {
                let i = choose|i: int|
                    0 <= i < p.len() && match #[trigger] p[i].location_or_load_error {
                        Some(LocationOrLoadError::RepositoryLocation(loc)) => repositories_list(
                            loc.repositories@,
                            p[i].name@,
                            loc.name@,
                            k,
                        ),
                        _ => false,
                    };
                assert(es[i] == p[i]);
            }
        }
        lemma_instigations_replaced(p, k);
        let e = es[es.len() - 1];
        match e.location_or_load_error {
            Some(LocationOrLoadError::RepositoryLocation(loc)) => {
                assert(!repositories_list(loc.repositories@, e.name@, loc.name@, k));
                lemma_repositories_absent(instigation_samples(p), loc.repositories@, e.name@, loc.name@, k);
            },
            _ => {},
        }
    }
}

} // verus!

verus! {

/// Whether the cursor `c` is the largest of `start` and the update times of
/// `runs`, and the last-scrape timestamp `t` follows it where it moved.
pub open spec fn cursor_is_max(start: int, start_t: int, runs: Seq<Run>, c: int, t: int) -> bool {
    &&& c >= start
    &&& forall|i: int|
        0 <= i < runs.len() && #[trigger] runs[i].update_time is Some ==> c >= runs[i].update_time->0
    &&& (c == start || exists|i: int|
        0 <= i < runs.len() && #[trigger] runs[i].update_time == Some(c as i64))
    &&& (c == start ==> t == start_t)
    &&& (c != start ==> t == c)
}

proof fn lemma_fold_runs_cursor(m: RunModel, runs: Seq<Run>)
    ensures
        cursor_is_max(
            m.cursor,
            m.last_scrape_timestamp,
            runs,
            fold_runs(m, runs).cursor,
            fold_runs(m, runs).last_scrape_timestamp,
        ),
    decreases runs.len(),
{
    if runs.len() > 0 {
        let q = runs.drop_last();
        let p = fold_runs(m, q);
        lemma_fold_runs_cursor(m, q);
        let r = runs.last();
        let c = crate::update::run_common(r);
        let m1 = advance_cursor(p, r.update_time);
        let k = run_key(r.status, r.mode@, c);
        let others = other_run_keys(r.mode@, c, r.status);
        let m2 = RunModel {
            run_total: m1.run_total.insert(k, incremented(m1.run_total, k)),
            run_duration: set_opt(m1.run_duration.remove_keys(others), k, crate::update::span(r.start_time, r.end_time)),
            run_queue: set_opt(m1.run_queue.remove_keys(others), k, crate::update::queue_span(r.stats)),
            ..m1
        };
        lemma_fold_steps_frame(m2, r.step_stats@, c);
        lemma_fold_assets_frame(fold_steps(m2, r.step_stats@, c), r.asset_materializations@, c);
        let f = fold_runs(m, runs);
        assert(f.cursor == m1.cursor && f.last_scrape_timestamp == m1.last_scrape_timestamp);
        assert forall|i: int|
            0 <= i < runs.len() && #[trigger] runs[i].update_time is Some implies f.cursor
            >= runs[i].update_time->0 by {
            if i < q.len() {
                assert(q[i] == runs[i]);
            }
        }
        if f.cursor != m.cursor {
            if f.cursor == p.cursor {
                let j = choose|j: int| 0 <= j < q.len() && #[trigger] q[j].update_time == Some(p.cursor as i64);
                assert(runs[j] == q[j]);
            } else {
                assert(runs[runs.len() - 1].update_time == Some(f.cursor as i64));
            }
        }
    }
}

/// The cursor after a merge is exactly the largest of its old value and the
/// update times of the merged runs, and the last-scrape timestamp is that
/// cursor wherever it moved.
pub proof fn lemma_cursor_is_maximum(m: RunModel, r: crate::snapshot::Runs)
    ensures
        cursor_is_max(
            m.cursor,
            m.last_scrape_timestamp,
            r.results@,
            merge_runs(m, RunsOrError::Runs(r)).cursor,
            merge_runs(m, RunsOrError::Runs(r)).last_scrape_timestamp,
        ),
{
    let m0 = match r.count {
        Some(i) => RunModel { last_scrape_runs: i as int, ..m },
        None => m,
    };
    lemma_fold_runs_cursor(m0, r.results@);
}

} // verus!

verus! {

proof fn lemma_assets_skip(m: RunModel, assets: Seq<AssetMaterialization>, c: CommonLabel, j: int)
    requires
        0 <= j < assets.len(),
        decimal_micros(assets[j].timestamp@) is None,
    ensures
        fold_assets(m, assets, c) == fold_assets(m, assets.remove(j), c),
    decreases assets.len(),
{
    if j == assets.len() - 1 {
        assert(assets.remove(j) =~= assets.drop_last());
    } else {
        assert(assets.remove(j).drop_last() =~= assets.drop_last().remove(j));
        assert(assets.remove(j).last() == assets.last());
        lemma_assets_skip(m, assets.drop_last(), c, j);
    }
}

/// Whether `r2` is the run `r` without its `j`-th materialization.
pub open spec fn without_asset(r: Run, r2: Run, j: int) -> bool {
    &&& r2.status == r.status
    &&& r2.mode == r.mode
    &&& r2.pipeline_name == r.pipeline_name
    &&& r2.repository_origin == r.repository_origin
    &&& r2.update_time == r.update_time
    &&& r2.start_time == r.start_time
    &&& r2.end_time == r.end_time
    &&& r2.stats == r.stats
    &&& r2.step_stats@ == r.step_stats@
    &&& r2.asset_materializations@ == r.asset_materializations@.remove(j)
}

proof fn lemma_runs_skip(m: RunModel, runs: Seq<Run>, i: int, j: int, r2: Run)
    requires
        0 <= i < runs.len(),
        0 <= j < runs[i].asset_materializations@.len(),
        decimal_micros(runs[i].asset_materializations@[j].timestamp@) is None,
        without_asset(runs[i], r2, j),
    ensures
        fold_runs(m, runs) == fold_runs(m, runs.update(i, r2)),
    decreases runs.len(),
{
    let u = runs.update(i, r2);
    if i == runs.len() - 1 {
        assert(u.drop_last() =~= runs.drop_last());
        let p = fold_runs(m, runs.drop_last());
        let r = runs[i];
        let c = crate::update::run_common(r);
        assert(crate::update::run_common(r2) == c);
        let m1 = advance_cursor(p, r.update_time);
        let k = run_key(r.status, r.mode@, c);
        let others = other_run_keys(r.mode@, c, r.status);
        let m2 = RunModel {
            run_total: m1.run_total.insert(k, incremented(m1.run_total, k)),
            run_duration: set_opt(m1.run_duration.remove_keys(others), k, crate::update::span(r.start_time, r.end_time)),
            run_queue: set_opt(m1.run_queue.remove_keys(others), k, crate::update::queue_span(r.stats)),
            ..m1
        };
        lemma_assets_skip(fold_steps(m2, r.step_stats@, c), r.asset_materializations@, c, j);
        assert(apply_run(p, r) == apply_run(p, r2));
    } else {
        assert(u.drop_last() =~= runs.drop_last().update(i, r2));
        assert(u.last() == runs.last());
        lemma_runs_skip(m, runs.drop_last(), i, j, r2);
    }
}

/// Partial failure: a materialization whose timestamp reads as no number is
/// skipped, and only it. Merging a run group gives the same state as merging
/// it with that materialization taken out: every other sample of its run, its
/// steps, and every later run are merged as usual.
pub proof fn lemma_unreadable_timestamp_skipped(m: RunModel, runs: Seq<Run>, i: int, j: int, r2: Run)
    requires
        0 <= i < runs.len(),
        0 <= j < runs[i].asset_materializations@.len(),
        decimal_micros(runs[i].asset_materializations@[j].timestamp@) is None,
        without_asset(runs[i], r2, j),
    ensures
        fold_runs(m, runs) == fold_runs(m, runs.update(i, r2)),
{
    lemma_runs_skip(m, runs, i, j, r2);
}

} // verus!

verus! {

/// Whether some daemon of `ds` reported a heartbeat under key `k`.
pub open spec fn daemon_reported(ds: Seq<DaemonStatus>, k: LabelKey) -> bool {
    exists|i: int|
        0 <= i < ds.len() && ds[i].last_heartbeat_time is Some && #[trigger] daemon_key(ds[i]) == k
}

/// Every workspace entry of a poll's snapshot has its update time exported.
pub proof fn lemma_workspace_present(es: Seq<LocationEntry>, k: LabelKey)
    requires
        workspace_listed(es, k),
    ensures
        workspace_samples(es).contains_key(k),
    decreases es.len(),
{
    let p = es.drop_last();
    if workspace_key(es.last()) != k {
        let i = choose|i: int| 0 <= i < es.len() && #[trigger] workspace_key(es[i]) == k;
        assert(p[i] == es[i]);
        lemma_workspace_present(p, k);
    }
}

/// Every daemon of a poll's snapshot that reported a heartbeat has it exported.
pub proof fn lemma_daemons_present(ds: Seq<DaemonStatus>, k: LabelKey)
    requires
        daemon_reported(ds, k),
    ensures
        daemon_samples(ds).contains_key(k),
    decreases ds.len(),
{
    let p = ds.drop_last();
    let d = ds.last();
    if !(d.last_heartbeat_time is Some && daemon_key(d) == k) {
        let i = choose|i: int|
            0 <= i < ds.len() && ds[i].last_heartbeat_time is Some && #[trigger] daemon_key(ds[i]) == k;
        assert(p[i] == ds[i]);
        lemma_daemons_present(p, k);
    }
}

/// Every concurrency key of a poll's snapshot has each of its counts exported.
pub proof fn lemma_concurrency_present(cs: Seq<ConcurrencyLimit>, which: int, k: LabelKey)
    requires
        concurrency_listed(cs, k),
    ensures
        concurrency_samples(cs, which).contains_key(k),
    decreases cs.len(),
{
    let p = cs.drop_last();
    if concurrency_key(cs.last().concurrency_key@) != k {
        let i = choose|i: int| 0 <= i < cs.len() && #[trigger] concurrency_key(cs[i].concurrency_key@) == k;
        assert(p[i] == cs[i]);
        lemma_concurrency_present(p, which, k);
    }
}

proof fn lemma_sensors_present(m: Map<LabelKey, int>, ss: Seq<Sensor>, w: Seq<char>, l: Seq<char>, k: LabelKey)
    requires
        m.contains_key(k) || exists|t: int|
            0 <= t < ss.len() && #[trigger] instigation_key(w, l, ss[t].name@, sensor_type_value(ss[t])) == k,
    ensures
        fold_sensors(m, ss, w, l).contains_key(k),
    decreases ss.len(),
{
    if ss.len() > 0 {
        let p = ss.drop_last();
        let s = ss.last();
        if instigation_key(w, l, s.name@, sensor_type_value(s)) != k {
            if !m.contains_key(k) {
                let t = choose|t: int|
                    0 <= t < ss.len() && #[trigger] instigation_key(w, l, ss[t].name@, sensor_type_value(ss[t])) == k;
                assert(p[t] == ss[t]);
            }
            lemma_sensors_present(m, p, w, l, k);
        }
    }
}

proof fn lemma_schedules_present(m: Map<LabelKey, int>, ss: Seq<Schedule>, w: Seq<char>, l: Seq<char>, k: LabelKey)
    requires
        m.contains_key(k) || exists|t: int|
            0 <= t < ss.len() && #[trigger] instigation_key(w, l, ss[t].name@, schedule_type_value(ss[t])) == k,
    ensures
        fold_schedules(m, ss, w, l).contains_key(k),
    decreases ss.len(),
{
    if ss.len() > 0 {
        let p = ss.drop_last();
        let s = ss.last();
        if instigation_key(w, l, s.name@, schedule_type_value(s)) != k {
            if !m.contains_key(k) {
                let t = choose|t: int|
                    0 <= t < ss.len() && #[trigger] instigation_key(w, l, ss[t].name@, schedule_type_value(ss[t])) == k;
                assert(p[t] == ss[t]);
            }
            lemma_schedules_present(m, p, w, l, k);
        }
    }
}

proof fn lemma_repositories_present(m: Map<LabelKey, int>, rs: Seq<Repository>, w: Seq<char>, l: Seq<char>, k: LabelKey)
    requires
        m.contains_key(k) || repositories_list(rs, w, l, k),
    ensures
        fold_repositories(m, rs, w, l).contains_key(k),
    decreases rs.len(),
{
    if rs.len() > 0 {
        let p = rs.drop_last();
        let r = rs.last();
        let m1 = fold_repositories(m, p, w, l);
        if m.contains_key(k) || repositories_list(p, w, l, k) {
            if !m.contains_key(k) {
                let j = choose|j: int| 0 <= j < p.len() && repository_lists(#[trigger] p[j], w, l, k);
                assert(repositories_list(p, w, l, k));
            }
            lemma_repositories_present(m, p, w, l, k);
            lemma_sensors_present(m1, r.sensors@, w, l, k);
            lemma_schedules_present(fold_sensors(m1, r.sensors@, w, l), r.schedules@, w, l, k);
        } else {
            let j = choose|j: int| 0 <= j < rs.len() && repository_lists(#[trigger] rs[j], w, l, k);
            if j < p.len() {
                assert(p[j] == rs[j]);
            }
            assert(j == rs.len() - 1);
            if exists|t: int|
                0 <= t < r.sensors@.len() && #[trigger] instigation_key(w, l, r.sensors@[t].name@, sensor_type_value(r.sensors@[t])) == k {
                lemma_sensors_present(m1, r.sensors@, w, l, k);
                lemma_schedules_present(fold_sensors(m1, r.sensors@, w, l), r.schedules@, w, l, k);
            } else {
                lemma_schedules_present(fold_sensors(m1, r.sensors@, w, l), r.schedules@, w, l, k);
            }
        }
    }
}

/// Every sensor and schedule of every loaded location of a poll's snapshot
/// has its run count exported.
pub proof fn lemma_instigations_present(es: Seq<LocationEntry>, k: LabelKey)
    requires
        instigation_listed(es, k),
    ensures
        instigation_samples(es).contains_key(k),
    decreases es.len(),
{
    let p = es.drop_last();
    let e = es.last();
    let i = choose|i: int|
        0 <= i < es.len() && match #[trigger] es[i].location_or_load_error {
            Some(LocationOrLoadError::RepositoryLocation(loc)) => repositories_list(
                loc.repositories@,
                es[i].name@,
                loc.name@,
                k,
            ),
            _ => false,
        };
    if i < p.len() {
        assert(p[i] == es[i]);
        lemma_instigations_present(p, k);
        match e.location_or_load_error {
            Some(LocationOrLoadError::RepositoryLocation(loc)) => {
                lemma_repositories_present(instigation_samples(p), loc.repositories@, e.name@, loc.name@, k);
            },
            _ => {},
        }
    } else {
        match e.location_or_load_error {
            Some(LocationOrLoadError::RepositoryLocation(loc)) => {
                lemma_repositories_present(instigation_samples(p), loc.repositories@, e.name@, loc.name@, k);
            },
            _ => {},
        }
    }
}

} // verus!

verus! {

/// The value under `k`, zero where there is none.
pub open spec fn value_or_zero(m: Map<LabelKey, int>, k: LabelKey) -> int {
    if m.contains_key(k) {
        m[k]
    } else {
        0
    }
}

/// How many of `runs` are labelled `k`.
pub open spec fn run_count(runs: Seq<Run>, k: LabelKey) -> int
    decreases runs.len(),
{
    if runs.len() == 0 {
        0
    } else {
        let r = runs.last();
        run_count(runs.drop_last(), k) + if run_key(r.status, r.mode@, crate::update::run_common(r))
            == k {
            1int
        } else {
            0int
        }
    }
}

/// How many of `steps`, of a run with common labels `c`, are labelled `k`.
pub open spec fn step_count(steps: Seq<StepStats>, c: CommonLabel, k: LabelKey) -> int
    decreases steps.len(),
{
    if steps.len() == 0 {
        0
    } else {
        let st = steps.last();
        step_count(steps.drop_last(), c, k) + if step_key(st.step_key@, st.status, c) == k {
            1int
        } else {
            0int
        }
    }
}

/// How many steps of `runs` are labelled `k`.
pub open spec fn runs_step_count(runs: Seq<Run>, k: LabelKey) -> int
    decreases runs.len(),
{
    if runs.len() == 0 {
        0
    } else {
        let r = runs.last();
        runs_step_count(runs.drop_last(), k) + step_count(
            r.step_stats@,
            crate::update::run_common(r),
            k,
        )
    }
}

proof fn lemma_step_count_nonneg(steps: Seq<StepStats>, c: CommonLabel, k: LabelKey)
    ensures
        step_count(steps, c, k) >= 0,
    decreases steps.len(),
{
    if steps.len() > 0 {
        lemma_step_count_nonneg(steps.drop_last(), c, k);
    }
}

proof fn lemma_fold_steps_count(m: RunModel, steps: Seq<StepStats>, c: CommonLabel, k: LabelKey)
    requires
        value_or_zero(m.step_total, k) + step_count(steps, c, k) <= i64::MAX,
    ensures
        value_or_zero(fold_steps(m, steps, c).step_total, k) == value_or_zero(m.step_total, k)
            + step_count(steps, c, k),
    decreases steps.len(),
{
    if steps.len() > 0 {
        let q = steps.drop_last();
        lemma_step_count_nonneg(q, c, k);
        lemma_fold_steps_count(m, q, c, k);
    }
}

proof fn lemma_fold_runs_count(m: RunModel, runs: Seq<Run>, k: LabelKey)
    requires
        value_or_zero(m.run_total, k) + run_count(runs, k) <= i64::MAX,
        value_or_zero(m.step_total, k) + runs_step_count(runs, k) <= i64::MAX,
    ensures
        value_or_zero(fold_runs(m, runs).run_total, k) == value_or_zero(m.run_total, k) + run_count(
            runs,
            k,
        ),
        value_or_zero(fold_runs(m, runs).step_total, k) == value_or_zero(m.step_total, k)
            + runs_step_count(runs, k),
    decreases runs.len(),
{
    if runs.len() > 0 {
        let q = runs.drop_last();
        let r = runs.last();
        let c = crate::update::run_common(r);
        lemma_step_count_nonneg(r.step_stats@, c, k);
        lemma_fold_runs_count(m, q, k);
        let p = fold_runs(m, q);
        let m1 = advance_cursor(p, r.update_time);
        let kr = run_key(r.status, r.mode@, c);
        let others = other_run_keys(r.mode@, c, r.status);
        let m2 = RunModel {
            run_total: m1.run_total.insert(kr, incremented(m1.run_total, kr)),
            run_duration: set_opt(m1.run_duration.remove_keys(others), kr, crate::update::span(r.start_time, r.end_time)),
            run_queue: set_opt(m1.run_queue.remove_keys(others), kr, crate::update::queue_span(r.stats)),
            ..m1
        };
        lemma_fold_steps_frame(m2, r.step_stats@, c);
        lemma_fold_steps_count(m2, r.step_stats@, c, k);
        lemma_fold_assets_frame(fold_steps(m2, r.step_stats@, c), r.asset_materializations@, c);
    }
}

/// Each merge adds to a counter exactly the number of runs (or steps) that
/// carry its label-set, where the total fits an `i64`; so no counter drops
/// and none is removed.
pub proof fn lemma_counters_count(m: RunModel, r: crate::snapshot::Runs, k: LabelKey)
    requires
        value_or_zero(m.run_total, k) + run_count(r.results@, k) <= i64::MAX,
        value_or_zero(m.step_total, k) + runs_step_count(r.results@, k) <= i64::MAX,
    ensures
        value_or_zero(merge_runs(m, RunsOrError::Runs(r)).run_total, k) == value_or_zero(
            m.run_total,
            k,
        ) + run_count(r.results@, k),
        value_or_zero(merge_runs(m, RunsOrError::Runs(r)).step_total, k) == value_or_zero(
            m.step_total,
            k,
        ) + runs_step_count(r.results@, k),
{
    let m0 = match r.count {
        Some(i) => RunModel { last_scrape_runs: i as int, ..m },
        None => m,
    };
    lemma_fold_runs_count(m0, r.results@, k);
}

} // verus!
