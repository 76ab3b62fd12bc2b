use vstd::prelude::*;
use crate::family::{incremented, key_of, Family, LabelKey};
use crate::labels::{copy_opt,
    expectation_key, materialization_key, run_key, step_key, CommonLabel, RunLabel, StepLabel,
};
use crate::metrics::{Metrics, RunModel};
use crate::snapshot::{
    AssetMaterialization, ExpectationResult, RepositoryOrigin, Run, RunStats, RunsOrError,
    StepStats,
};
use crate::status::{
    all_run_statuses, all_step_statuses, lemma_all_run_statuses, lemma_all_step_statuses,
    RunStatus, StepEventStatus,
};
use crate::timestamp::{decimal_micros, parse_micros};

verus! {

/// `end - start`, where both times are known and the difference fits.
pub open spec fn span(start: Option<i64>, end: Option<i64>) -> Option<i64> {
    match (start, end) {
        (Some(a), Some(b)) => if i64::MIN <= b - a <= i64::MAX {
            Some((b - a) as i64)
        } else {
            None
        },
        _ => None,
    }
}

/// The time that a run spent queued, where its statistics give it.
pub open spec fn queue_span(stats: RunStats) -> Option<i64> {
    match stats {
        RunStats::RunStatsSnapshot { enqueued_time, launch_time } => span(enqueued_time, launch_time),
        RunStats::Error => None,
    }
}

/// `m` with `k` set to the value, where there is one.
pub open spec fn set_opt(m: Map<LabelKey, int>, k: LabelKey, v: Option<i64>) -> Map<LabelKey, int> {
    match v {
        Some(x) => m.insert(k, x as int),
        None => m,
    }
}

/// The keys of a run identity under every status but `s`.
pub open spec fn other_run_keys(mode: Seq<char>, c: CommonLabel, s: RunStatus) -> Set<LabelKey> {
    Set::new(|k: LabelKey| exists|s2: RunStatus| s2 != s && k == run_key(s2, mode, c))
}

/// The keys of a step identity under every status but `s`.
pub open spec fn other_step_keys(k: Seq<char>, c: CommonLabel, s: Option<StepEventStatus>) -> Set<
    LabelKey,
> {
    Set::new(
        |key: LabelKey| exists|s2: Option<StepEventStatus>| s2 != s && key == step_key(k, s2, c),
    )
}

/// The common labels of a run.
pub open spec fn run_common(r: Run) -> CommonLabel {
    CommonLabel {
        workspace_location: match r.repository_origin {
            Some(o) => Some(o.repository_location_name),
            None => None,
        },
        repository_name: match r.repository_origin {
            Some(o) => Some(o.repository_name),
            None => None,
        },
        pipeline_name: r.pipeline_name,
    }
}

/// The expectation gauge after the results of one step: 1 for a failing
/// expectation, 0 for a passing one.
pub open spec fn fold_expectations(
    m: Map<LabelKey, int>,
    es: Seq<ExpectationResult>,
    step: Seq<char>,
    c: CommonLabel,
) -> Map<LabelKey, int>
    decreases es.len(),
{
    if es.len() == 0 {
        m
    } else {
        let e = es.last();
        fold_expectations(m, es.drop_last(), step, c).insert(
            expectation_key(step, e.label, c),
            if e.success {
                0
            } else {
                1
            },
        )
    }
}

/// The run group after one step of a run with common labels `c`: the step
/// is counted, its gauges under other statuses are evicted, and its attempts,
/// duration and expectations are written.
pub open spec fn apply_step(m: RunModel, st: StepStats, c: CommonLabel) -> RunModel {
    let k = step_key(st.step_key@, st.status, c);
    let others = other_step_keys(st.step_key@, c, st.status);
    RunModel {
        step_total: m.step_total.insert(k, incremented(m.step_total, k)),
        step_attempts: m.step_attempts.remove_keys(others).insert(k, st.attempts as int),
        step_duration: set_opt(
            m.step_duration.remove_keys(others),
            k,
            span(st.start_time, st.end_time),
        ),
        expectation_failure: fold_expectations(
            m.expectation_failure,
            st.expectation_results@,
            st.step_key@,
            c,
        ),
        ..m
    }
}

/// The run group after the steps `steps` of a run, in order.
pub open spec fn fold_steps(m: RunModel, steps: Seq<StepStats>, c: CommonLabel) -> RunModel
    decreases steps.len(),
{
    if steps.len() == 0 {
        m
    } else {
        apply_step(fold_steps(m, steps.drop_last(), c), steps.last(), c)
    }
}

/// The run group after one asset materialization: its timestamp is written
/// where it has an asset key and a timestamp that reads as a number that fits, and
/// nothing changes otherwise.
pub open spec fn apply_asset(m: RunModel, a: AssetMaterialization, c: CommonLabel) -> RunModel {
    match (a.asset_key, decimal_micros(a.timestamp@)) {
        (Some(key), Some(v)) => RunModel {
            asset_materialization: m.asset_materialization.insert(
                materialization_key(a.step_key, crate::labels::joined_path(key.path@), a.partition, c),
                v as int,
            ),
            ..m
        },
        _ => m,
    }
}

/// The run group after the materializations `assets`, in order.
pub open spec fn fold_assets(m: RunModel, assets: Seq<AssetMaterialization>, c: CommonLabel) -> RunModel
    decreases assets.len(),
{
    if assets.len() == 0 {
        m
    } else {
        apply_asset(fold_assets(m, assets.drop_last(), c), assets.last(), c)
    }
}

/// The run group after the cursor has seen update time `u`.
pub open spec fn advance_cursor(m: RunModel, u: Option<i64>) -> RunModel {
    match u {
        Some(t) => if m.cursor < t {
            RunModel { cursor: t as int, last_scrape_timestamp: t as int, ..m }
        } else {
            m
        },
        None => m,
    }
}

/// The run group after one run: the cursor advances, the run is counted,
/// its gauges under other statuses are evicted and its duration and queue
/// time written, then its steps and materializations are applied.
pub open spec fn apply_run(m: RunModel, r: Run) -> RunModel {
    let m1 = advance_cursor(m, r.update_time);
    let c = run_common(r);
    let k = run_key(r.status, r.mode@, c);
    let others = other_run_keys(r.mode@, c, r.status);
    let m2 = RunModel {
        run_total: m1.run_total.insert(k, incremented(m1.run_total, k)),
        run_duration: set_opt(m1.run_duration.remove_keys(others), k, span(r.start_time, r.end_time)),
        run_queue: set_opt(m1.run_queue.remove_keys(others), k, queue_span(r.stats)),
        ..m1
    };
    fold_assets(fold_steps(m2, r.step_stats@, c), r.asset_materializations@, c)
}

/// The run group after the runs `runs`, in order.
pub open spec fn fold_runs(m: RunModel, runs: Seq<Run>) -> RunModel
    decreases runs.len(),
{
    if runs.len() == 0 {
        m
    } else {
        apply_run(fold_runs(m, runs.drop_last()), runs.last())
    }
}

/// The run group after a fetched run group: unchanged where an error came in
/// its place.
pub open spec fn merge_runs(m: RunModel, runs: RunsOrError) -> RunModel {
    match runs {
        RunsOrError::Runs(r) => fold_runs(
            match r.count {
                Some(i) => RunModel { last_scrape_runs: i as int, ..m },
                None => m,
            },
            r.results@,
        ),
        RunsOrError::Error => m,
    }
}

proof fn lemma_remove_more(m: Map<LabelKey, int>, ks: Set<LabelKey>, k: LabelKey)
    ensures
        m.remove_keys(ks).remove(k) == m.remove_keys(ks.insert(k)),
{
    assert(m.remove_keys(ks).remove(k) =~= m.remove_keys(ks.insert(k)));
}

/// The keys of a run identity under the first `n` statuses of `vs` that
/// differ from `s`.
spec fn run_keys_among(vs: Seq<RunStatus>, n: int, mode: Seq<char>, c: CommonLabel, s: RunStatus) -> Set<
    LabelKey,
> {
    Set::new(|k: LabelKey| exists|j: int| 0 <= j < n && vs[j] != s && k == run_key(vs[j], mode, c))
}

proof fn lemma_run_keys_among_next(
    vs: Seq<RunStatus>,
    n: int,
    mode: Seq<char>,
    c: CommonLabel,
    s: RunStatus,
)
    requires
        0 <= n < vs.len(),
    ensures
        run_keys_among(vs, n + 1, mode, c, s) == if vs[n] != s {
            run_keys_among(vs, n, mode, c, s).insert(run_key(vs[n], mode, c))
        } else {
            run_keys_among(vs, n, mode, c, s)
        },
{
    let a = run_keys_among(vs, n + 1, mode, c, s);
    let b = run_keys_among(vs, n, mode, c, s);
    if vs[n] != s {
        assert forall|k: LabelKey| a.contains(k) implies b.insert(run_key(vs[n], mode, c)).contains(k) by {
            let j = choose|j: int| 0 <= j < n + 1 && vs[j] != s && k == run_key(vs[j], mode, c);
            if j < n {
                assert(b.contains(k));
            }
        }
        assert(a =~= b.insert(run_key(vs[n], mode, c)));
    } else {
        assert forall|k: LabelKey| a.contains(k) implies b.contains(k) by {
            let j = choose|j: int| 0 <= j < n + 1 && vs[j] != s && k == run_key(vs[j], mode, c);
            assert(j < n);
        }
        assert(a =~= b);
    }
}

/// The keys of a step identity under the first `n` statuses of `vs` that
/// differ from `s`.
spec fn step_keys_among(
    vs: Seq<Option<StepEventStatus>>,
    n: int,
    sk: Seq<char>,
    c: CommonLabel,
    s: Option<StepEventStatus>,
) -> Set<LabelKey> {
    Set::new(|k: LabelKey| exists|j: int| 0 <= j < n && vs[j] != s && k == step_key(sk, vs[j], c))
}

proof fn lemma_step_keys_among_next(
    vs: Seq<Option<StepEventStatus>>,
    n: int,
    sk: Seq<char>,
    c: CommonLabel,
    s: Option<StepEventStatus>,
)
    requires
        0 <= n < vs.len(),
    ensures
        step_keys_among(vs, n + 1, sk, c, s) == if vs[n] != s {
            step_keys_among(vs, n, sk, c, s).insert(step_key(sk, vs[n], c))
        } else {
            step_keys_among(vs, n, sk, c, s)
        },
{
    let a = step_keys_among(vs, n + 1, sk, c, s);
    let b = step_keys_among(vs, n, sk, c, s);
    if vs[n] != s {
        assert forall|k: LabelKey| a.contains(k) implies b.insert(step_key(sk, vs[n], c)).contains(k) by {
            let j = choose|j: int| 0 <= j < n + 1 && vs[j] != s && k == step_key(sk, vs[j], c);
            if j < n {
                assert(b.contains(k));
            }
        }
        assert(a =~= b.insert(step_key(sk, vs[n], c)));
    } else {
        assert forall|k: LabelKey| a.contains(k) implies b.contains(k) by {
            let j = choose|j: int| 0 <= j < n + 1 && vs[j] != s && k == step_key(sk, vs[j], c);
            assert(j < n);
        }
        assert(a =~= b);
    }
}

/// Removes the duration and queue-time samples of `label`'s run under every
/// status other than its own.
fn clear_old_run_states(duration: &mut Family, queue: &mut Family, label: &RunLabel)
    requires
        old(duration).wf(),
        old(queue).wf(),
    ensures
        final(duration).wf(),
        final(queue).wf(),
        final(duration)@ == old(duration)@.remove_keys(
            other_run_keys(label.mode@, label.common, label.status),
        ),
        final(queue)@ == old(queue)@.remove_keys(
            other_run_keys(label.mode@, label.common, label.status),
        ),
        forall|s: RunStatus|
            s != label.status ==> !final(duration)@.contains_key(
                #[trigger] run_key(s, label.mode@, label.common),
            ) && !final(queue)@.contains_key(run_key(s, label.mode@, label.common)),
{
    let variants = RunStatus::all();
    let ghost d0 = duration@;
    let ghost q0 = queue@;
    let ghost mode = label.mode@;
    let ghost c = label.common;
    let ghost s = label.status;
    let mut i: usize = 0;
    while i < variants.len()
        invariant
            variants@ == all_run_statuses(),
            i <= variants@.len(),
            mode == label.mode@,
            c == label.common,
            s == label.status,
            duration.wf(),
            queue.wf(),
            duration@ == d0.remove_keys(run_keys_among(variants@, i as int, mode, c, s)),
            queue@ == q0.remove_keys(run_keys_among(variants@, i as int, mode, c, s)),
        decreases variants@.len() - i,
    {
        let v = variants[i];
        let ghost before = run_keys_among(variants@, i as int, mode, c, s);
        proof {
            lemma_run_keys_among_next(variants@, i as int, mode, c, s);
        }
        if v != label.status {
            let old_label = label.labels_with_status(v);
            duration.remove(&old_label);
            queue.remove(&old_label);
            proof {
                lemma_remove_more(d0, before, run_key(v, mode, c));
                lemma_remove_more(q0, before, run_key(v, mode, c));
            }
        }
        i = i + 1;
    }
    let ghost done = run_keys_among(variants@, variants@.len() as int, mode, c, s);
    assert forall|s2: RunStatus| s2 != s implies other_run_keys(mode, c, s).contains(
        #[trigger] run_key(s2, mode, c),
    ) by {}
    assert(done =~= other_run_keys(mode, c, s)) by {
        assert forall|k: LabelKey| other_run_keys(mode, c, s).contains(k) implies done.contains(k) by {
            let s2 = choose|s2: RunStatus| s2 != s && k == run_key(s2, mode, c);
            lemma_all_run_statuses(s2);
            let j = choose|j: int| 0 <= j < all_run_statuses().len() && all_run_statuses()[j] == s2;
            assert(variants@[j] == s2);
        }
    }
}

/// Removes the attempts and duration samples of `label`'s step under every
/// status other than its own.
fn clear_old_step_states(attempts: &mut Family, duration: &mut Family, label: &StepLabel)
    requires
        old(attempts).wf(),
        old(duration).wf(),
    ensures
        final(attempts).wf(),
        final(duration).wf(),
        final(attempts)@ == old(attempts)@.remove_keys(
            other_step_keys(label.step_key@, label.common, label.status),
        ),
        final(duration)@ == old(duration)@.remove_keys(
            other_step_keys(label.step_key@, label.common, label.status),
        ),
        forall|s: Option<StepEventStatus>|
            s != label.status ==> !final(attempts)@.contains_key(
                #[trigger] step_key(label.step_key@, s, label.common),
            ) && !final(duration)@.contains_key(step_key(label.step_key@, s, label.common)),
{
    let variants = StepEventStatus::all();
    let ghost a0 = attempts@;
    let ghost d0 = duration@;
    let ghost sk = label.step_key@;
    let ghost c = label.common;
    let ghost s = label.status;
    let mut i: usize = 0;
    while i < variants.len()
        invariant
            variants@ == all_step_statuses(),
            i <= variants@.len(),
            sk == label.step_key@,
            c == label.common,
            s == label.status,
            attempts.wf(),
            duration.wf(),
            attempts@ == a0.remove_keys(step_keys_among(variants@, i as int, sk, c, s)),
            duration@ == d0.remove_keys(step_keys_among(variants@, i as int, sk, c, s)),
        decreases variants@.len() - i,
    {
        let v = variants[i];
        let ghost before = step_keys_among(variants@, i as int, sk, c, s);
        proof {
            lemma_step_keys_among_next(variants@, i as int, sk, c, s);
        }
        if v != label.status {
            let old_label = label.labels_with_status(v);
            attempts.remove(&old_label);
            duration.remove(&old_label);
            proof {
                lemma_remove_more(a0, before, step_key(sk, v, c));
                lemma_remove_more(d0, before, step_key(sk, v, c));
            }
        }
        i = i + 1;
    }
    let ghost done = step_keys_among(variants@, variants@.len() as int, sk, c, s);
    assert forall|s2: Option<StepEventStatus>| s2 != s implies other_step_keys(sk, c, s).contains(
        #[trigger] step_key(sk, s2, c),
    ) by {}
    assert(done =~= other_step_keys(sk, c, s)) by {
        assert forall|k: LabelKey| other_step_keys(sk, c, s).contains(k) implies done.contains(k) by {
            let s2 = choose|s2: Option<StepEventStatus>| s2 != s && k == step_key(sk, s2, c);
            lemma_all_step_statuses(s2);
            let j = choose|j: int|
                0 <= j < all_step_statuses().len() && all_step_statuses()[j] == s2;
            assert(variants@[j] == s2);
        }
    }
}

} // verus!

verus! {

fn copy_origin(o: &Option<RepositoryOrigin>) -> (r: Option<RepositoryOrigin>)
    ensures
        r == *o,
{
    match o {
        Some(x) => Some(
            RepositoryOrigin {
                repository_location_name: x.repository_location_name.clone(),
                repository_name: x.repository_name.clone(),
            },
        ),
        None => None,
    }
}

/// Writes the expectation results of one step: 1 for each failing
/// expectation, 0 for each passing one.
fn set_expectations(fam: &mut Family, es: &Vec<ExpectationResult>, label: &StepLabel)
    requires
        old(fam).wf(),
    ensures
        final(fam).wf(),
        final(fam)@ == fold_expectations(old(fam)@, es@, label.step_key@, label.common),
{
    let ghost f0 = fam@;
    let mut i: usize = 0;
    while i < es.len()
        invariant
            i <= es@.len(),
            fam.wf(),
            fam@ == fold_expectations(f0, es@.take(i as int), label.step_key@, label.common),
        decreases es@.len() - i,
    {
        assert(es@.take(i + 1).drop_last() =~= es@.take(i as int));
        let e = &es[i];
        let el = label.expectation_label(copy_opt(&e.label));
        let v: i64 = if e.success {
            0
        } else {
            1
        };
        fam.set(&el.labels(), v);
        i = i + 1;
    }
    assert(es@.take(es@.len() as int) =~= es@);
}

impl Metrics {
    /// Applies one step of the run labelled `rl`.
    fn set_step_metrics(&mut self, st: &StepStats, rl: &RunLabel)
        requires
            old(self).wf(),
        ensures
            final(self).wf(),
            final(self).run_model() == apply_step(old(self).run_model(), *st, rl.common),
            final(self).same_replaced_groups(old(self)),
    {
        let label = rl.step_label(st.step_key.clone(), st.status);
        let key = label.labels();
        self.step_total.inc(&key);
        clear_old_step_states(&mut self.step_attempts, &mut self.step_duration_seconds, &label);
        self.step_attempts.set(&key, st.attempts as i64);
        match (st.start_time, st.end_time) {
            (Some(a), Some(b)) => match b.checked_sub(a) {
                Some(d) => self.step_duration_seconds.set(&key, d),
                None => {},
            },
            _ => {},
        }
        set_expectations(&mut self.expectation_failure, &st.expectation_results, &label);
    }

    /// Applies one asset materialization of the run labelled `rl`; one whose
    /// timestamp does not read as a number that fits is skipped, and only it.
    fn set_asset_metric(&mut self, a: &AssetMaterialization, rl: &RunLabel)
        requires
            old(self).wf(),
        ensures
            final(self).wf(),
            final(self).run_model() == apply_asset(old(self).run_model(), *a, rl.common),
            final(self).same_replaced_groups(old(self)),
    {
        match &a.asset_key {
            Some(k) => match parse_micros(a.timestamp.as_str()) {
                Some(v) => {
                    let ml = rl.asset_label(copy_opt(&a.step_key), k, copy_opt(&a.partition));
                    self.asset_materialization_timestamp.set(&ml.labels(), v);
                },
                None => {},
            },
            None => {},
        }
    }

    /// Applies one run.
    fn set_one_run(&mut self, run: &Run)
        requires
            old(self).wf(),
        ensures
            final(self).wf(),
            final(self).run_model() == apply_run(old(self).run_model(), *run),
            final(self).same_replaced_groups(old(self)),
    {
        if let Some(u) = run.update_time {
            if self.cursor < u {
                self.exporter_last_scrape_timestamp = u;
                self.cursor = u;
            }
        }
        let ghost m1 = self.run_model();
        assert(m1 == advance_cursor(old(self).run_model(), run.update_time));
        let common = CommonLabel::new(copy_origin(&run.repository_origin), run.pipeline_name.clone());
        let label = RunLabel::new(run.status, run.mode.clone(), common);
        assert(label.common == run_common(*run));
        clear_old_run_states(&mut self.run_duration_seconds, &mut self.run_queue_seconds, &label);
        let key = label.labels();
        self.run_total.inc(&key);
        match (run.start_time, run.end_time) {
            (Some(a), Some(b)) => match b.checked_sub(a) {
                Some(d) => self.run_duration_seconds.set(&key, d),
                None => {},
            },
            _ => {},
        }
        match &run.stats {
            RunStats::RunStatsSnapshot { enqueued_time, launch_time } => match (
                *enqueued_time,
                *launch_time,
            ) {
                (Some(a), Some(b)) => match b.checked_sub(a) {
                    Some(d) => self.run_queue_seconds.set(&key, d),
                    None => {},
                },
                _ => {},
            },
            RunStats::Error => {},
        }
        let ghost c = label.common;
        let ghost m2 = self.run_model();
        assert(m2 == RunModel {
            run_total: m1.run_total.insert(key_of(key), incremented(m1.run_total, key_of(key))),
            run_duration: set_opt(
                m1.run_duration.remove_keys(other_run_keys(run.mode@, c, run.status)),
                key_of(key),
                span(run.start_time, run.end_time),
            ),
            run_queue: set_opt(
                m1.run_queue.remove_keys(other_run_keys(run.mode@, c, run.status)),
                key_of(key),
                queue_span(run.stats),
            ),
            ..m1
        });
        let mut j: usize = 0;
        while j < run.step_stats.len()
            invariant
                j <= run.step_stats@.len(),
                self.wf(),
                label.common == c,
                self.run_model() == fold_steps(m2, run.step_stats@.take(j as int), c),
                self.same_replaced_groups(old(self)),
            decreases run.step_stats@.len() - j,
        {
            assert(run.step_stats@.take(j + 1).drop_last() =~= run.step_stats@.take(j as int));
            self.set_step_metrics(&run.step_stats[j], &label);
            j = j + 1;
        }
        assert(run.step_stats@.take(run.step_stats@.len() as int) =~= run.step_stats@);
        let ghost m3 = self.run_model();
        let mut t: usize = 0;
        while t < run.asset_materializations.len()
            invariant
                t <= run.asset_materializations@.len(),
                self.wf(),
                label.common == c,
                self.run_model() == fold_assets(m3, run.asset_materializations@.take(t as int), c),
                self.same_replaced_groups(old(self)),
            decreases run.asset_materializations@.len() - t,
        {
            assert(run.asset_materializations@.take(t + 1).drop_last()
                =~= run.asset_materializations@.take(t as int));
            self.set_asset_metric(&run.asset_materializations[t], &label);
            t = t + 1;
        }
        assert(run.asset_materializations@.take(run.asset_materializations@.len() as int)
            =~= run.asset_materializations@);
    }

    /// Merges the run group of a snapshot: the run count is recorded, and each
    /// run is applied in order as `apply_run` says. An error in place of the
    /// group leaves the state as it was.
    pub fn set_run_metrics(&mut self, runs: RunsOrError)
        requires
            old(self).wf(),
        ensures
            final(self).wf(),
            final(self).run_model() == merge_runs(old(self).run_model(), runs),
            final(self).same_replaced_groups(old(self)),
    {
        match runs {
            RunsOrError::Runs(r) => {
                if let Some(i) = r.count {
                    self.exporter_last_scrape_runs = i;
                }
                let ghost m0 = self.run_model();
                let mut i: usize = 0;
                while i < r.results.len()
                    invariant
                        i <= r.results@.len(),
                        self.wf(),
                        self.run_model() == fold_runs(m0, r.results@.take(i as int)),
                        self.same_replaced_groups(old(self)),
                    decreases r.results@.len() - i,
                {
                    assert(r.results@.take(i + 1).drop_last() =~= r.results@.take(i as int));
                    self.set_one_run(&r.results[i]);
                    i = i + 1;
                }
                assert(r.results@.take(r.results@.len() as int) =~= r.results@);
            },
            RunsOrError::Error => {},
        }
    }
}

} // verus!
