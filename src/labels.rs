use vstd::prelude::*;
use crate::family::{key_of, LabelKey, LabelSet};
use crate::snapshot::{AssetKey, DaemonStatus, LocationEntry, RepositoryOrigin};
use crate::status::{run_status_name, step_status_name, RunStatus, StepEventStatus};

verus! {

/// The label value of an optional field: an absent field is the empty value.
pub open spec fn opt_value(o: Option<String>) -> Seq<char> {
    match o {
        Some(s) => s@,
        None => Seq::empty(),
    }
}

/// The label value of a flag.
pub open spec fn bool_value(b: bool) -> Seq<char> {
    if b {
        "true"@
    } else {
        "false"@
    }
}

/// The path of an asset with its parts joined by `/`.
pub open spec fn joined_path(p: Seq<String>) -> Seq<char>
    decreases p.len(),
{
    if p.len() == 0 {
        Seq::empty()
    } else if p.len() == 1 {
        p[0]@
    } else {
        joined_path(p.drop_last()) + "/"@ + p.last()@
    }
}

/// One label pair.
pub open spec fn lp(name: &str, value: Seq<char>) -> (Seq<char>, Seq<char>) {
    (name@, value)
}

fn pair(name: &str, value: String) -> (r: (String, String))
    ensures
        r.0@ == name@,
        r.1@ == value@,
{
    (String::from_str(name), value)
}

fn opt_string(o: &Option<String>) -> (r: String)
    ensures
        r@ == opt_value(*o),
{
    match o {
        Some(s) => s.clone(),
        None => String::new(),
    }
}

pub(crate) fn copy_opt(o: &Option<String>) -> (r: Option<String>)
    ensures
        r == *o,
{
    match o {
        Some(s) => Some(s.clone()),
        None => None,
    }
}

fn bool_string(b: bool) -> (r: String)
    ensures
        r@ == bool_value(b),
{
    if b {
        String::from_str("true")
    } else {
        String::from_str("false")
    }
}

/// The labels that every run-derived label-set shares: where the job is
/// defined, and its name.
#[derive(Debug)]
pub struct CommonLabel {
    pub workspace_location: Option<String>,
    pub repository_name: Option<String>,
    pub pipeline_name: String,
}

impl CommonLabel {
    pub open spec fn spec_key(self) -> LabelKey {
        seq![
            lp("workspace_location", opt_value(self.workspace_location)),
            lp("repository_name", opt_value(self.repository_name)),
            lp("pipeline_name", self.pipeline_name@),
        ]
    }

    /// The common labels of a run of `job`, defined at `repo` where it is known.
    pub fn new(repo: Option<RepositoryOrigin>, job: String) -> (r: CommonLabel)
        ensures
            r.pipeline_name == job,
            match repo {
                Some(o) => r.workspace_location == Some(o.repository_location_name)
                    && r.repository_name == Some(o.repository_name),
                None => r.workspace_location.is_none() && r.repository_name.is_none(),
            },
    {
        match repo {
            Some(r) => CommonLabel {
                workspace_location: Some(r.repository_location_name),
                repository_name: Some(r.repository_name),
                pipeline_name: job,
            },
            None => CommonLabel { workspace_location: None, repository_name: None, pipeline_name: job },
        }
    }

    /// A copy of these labels.
    pub fn copy(&self) -> (r: CommonLabel)
        ensures
            r == *self,
    {
        CommonLabel {
            workspace_location: copy_opt(&self.workspace_location),
            repository_name: copy_opt(&self.repository_name),
            pipeline_name: self.pipeline_name.clone(),
        }
    }

    fn push_labels(&self, out: &mut LabelSet)
        ensures
            key_of(*final(out)) == key_of(*old(out)) + self.spec_key(),
    {
        let ghost start = key_of(*out);
        out.push(pair("workspace_location", opt_string(&self.workspace_location)));
        out.push(pair("repository_name", opt_string(&self.repository_name)));
        out.push(pair("pipeline_name", self.pipeline_name.clone()));
        assert(key_of(*out) =~= start + self.spec_key());
    }
}

/// The key of a run's label-set: its status first, then the labels that
/// identify the run whatever its status.
pub open spec fn run_key(status: RunStatus, mode: Seq<char>, common: CommonLabel) -> LabelKey {
    seq![lp("status", run_status_name(status))] + run_identity_key(mode, common)
}

/// The labels of a run that do not change with its status.
pub open spec fn run_identity_key(mode: Seq<char>, common: CommonLabel) -> LabelKey {
    seq![lp("mode", mode)] + common.spec_key()
}

/// The labels of a run.
#[derive(Debug)]
pub struct RunLabel {
    pub status: RunStatus,
    pub mode: String,
    pub common: CommonLabel,
}

impl RunLabel {
    pub open spec fn spec_key(self) -> LabelKey {
        run_key(self.status, self.mode@, self.common)
    }

    pub fn new(status: RunStatus, mode: String, common: CommonLabel) -> (r: RunLabel)
        ensures
            r.status == status,
            r.mode == mode,
            r.common == common,
    {
        RunLabel { status, mode, common }
    }

    /// The label-set of this run under `status` in place of its own.
    pub fn labels_with_status(&self, status: RunStatus) -> (r: LabelSet)
        ensures
            key_of(r) == run_key(status, self.mode@, self.common),
    {
        let mut out: LabelSet = Vec::new();
        out.push(pair("status", status.name()));
        out.push(pair("mode", self.mode.clone()));
        self.common.push_labels(&mut out);
        assert(key_of(out) =~= run_key(status, self.mode@, self.common));
        out
    }

    /// The label-set of this run.
    pub fn labels(&self) -> (r: LabelSet)
        ensures
            key_of(r) == self.spec_key(),
    {
        self.labels_with_status(self.status)
    }

    /// The labels of one step of this run.
    pub fn step_label(&self, step_key: String, status: Option<StepEventStatus>) -> (r: StepLabel)
        ensures
            r.step_key == step_key,
            r.status == status,
            r.common == self.common,
    {
        StepLabel { step_key, status, common: self.common.copy() }
    }

    /// The labels of an asset materialization of this run.
    pub fn asset_label(&self, step_key: Option<String>, asset_key: &AssetKey, partition: Option<
        String,
    >) -> (r: MaterializationLabel)
        ensures
            r.step_key == step_key,
            r.asset_key@ == joined_path(asset_key.path@),
            r.partition == partition,
            r.common == self.common,
    {
        MaterializationLabel {
            step_key,
            asset_key: join_path(&asset_key.path),
            partition,
            common: self.common.copy(),
        }
    }
}

fn join_path(p: &Vec<String>) -> (r: String)
    ensures
        r@ == joined_path(p@),
{
    let mut r = String::new();
    let mut i: usize = 0;
    while i < p.len()
        invariant
            i <= p.len(),
            r@ == joined_path(p@.take(i as int)),
        decreases p.len() - i,
    {
        assert(p@.take(i + 1).drop_last() =~= p@.take(i as int));
        if i > 0 {
            r.append("/");
        }
        r.append(p[i].as_str());
        i = i + 1;
    }
    assert(p@.take(p.len() as int) =~= p@);
    r
}

/// The key of a step's label-set: its status second, after the step key.
pub open spec fn step_key(k: Seq<char>, status: Option<StepEventStatus>, common: CommonLabel) -> LabelKey {
    seq![lp("step_key", k)] + seq![lp("status", step_status_name(status))] + common.spec_key()
}

/// The labels of one step of a run.
#[derive(Debug)]
pub struct StepLabel {
    pub step_key: String,
    pub status: Option<StepEventStatus>,
    pub common: CommonLabel,
}

impl StepLabel {
    pub open spec fn spec_key(self) -> LabelKey {
        step_key(self.step_key@, self.status, self.common)
    }

    /// The label-set of this step under `status` in place of its own.
    pub fn labels_with_status(&self, status: Option<StepEventStatus>) -> (r: LabelSet)
        ensures
            key_of(r) == step_key(self.step_key@, status, self.common),
    {
        let mut out: LabelSet = Vec::new();
        out.push(pair("step_key", self.step_key.clone()));
        out.push(pair("status", StepEventStatus::name_of(status)));
        self.common.push_labels(&mut out);
        assert(key_of(out) =~= step_key(self.step_key@, status, self.common));
        out
    }

    /// The label-set of this step.
    pub fn labels(&self) -> (r: LabelSet)
        ensures
            key_of(r) == self.spec_key(),
    {
        self.labels_with_status(self.status)
    }

    /// The labels of one expectation that this step checked.
    pub fn expectation_label(&self, label: Option<String>) -> (r: ExpectationLabel)
        ensures
            r.step_key == self.step_key,
            r.label == label,
            r.common == self.common,
    {
        ExpectationLabel { step_key: self.step_key.clone(), label, common: self.common.copy() }
    }
}

/// The labels of one expectation of a step.
#[derive(Debug)]
pub struct ExpectationLabel {
    pub step_key: String,
    pub label: Option<String>,
    pub common: CommonLabel,
}

/// The key of an expectation's label-set.
pub open spec fn expectation_key(step: Seq<char>, label: Option<String>, common: CommonLabel) -> LabelKey {
    seq![lp("step_key", step), lp("label", opt_value(label))] + common.spec_key()
}

impl ExpectationLabel {
    pub open spec fn spec_key(self) -> LabelKey {
        expectation_key(self.step_key@, self.label, self.common)
    }

    /// The label-set of this expectation.
    pub fn labels(&self) -> (r: LabelSet)
        ensures
            key_of(r) == self.spec_key(),
    {
        let mut out: LabelSet = Vec::new();
        out.push(pair("step_key", self.step_key.clone()));
        out.push(pair("label", opt_string(&self.label)));
        self.common.push_labels(&mut out);
        assert(key_of(out) =~= self.spec_key());
        out
    }
}

/// The labels of an asset materialization.
#[derive(Debug)]
pub struct MaterializationLabel {
    pub step_key: Option<String>,
    pub asset_key: String,
    pub partition: Option<String>,
    pub common: CommonLabel,
}

/// The key of an asset materialization's label-set.
pub open spec fn materialization_key(
    step: Option<String>,
    asset: Seq<char>,
    partition: Option<String>,
    common: CommonLabel,
) -> LabelKey {
    seq![
        lp("step_key", opt_value(step)),
        lp("asset_key", asset),
        lp("partition", opt_value(partition)),
    ] + common.spec_key()
}

impl MaterializationLabel {
    pub open spec fn spec_key(self) -> LabelKey {
        materialization_key(self.step_key, self.asset_key@, self.partition, self.common)
    }

    /// The label-set of this materialization.
    pub fn labels(&self) -> (r: LabelSet)
        ensures
            key_of(r) == self.spec_key(),
    {
        let mut out: LabelSet = Vec::new();
        out.push(pair("step_key", opt_string(&self.step_key)));
        out.push(pair("asset_key", self.asset_key.clone()));
        out.push(pair("partition", opt_string(&self.partition)));
        self.common.push_labels(&mut out);
        assert(key_of(out) =~= self.spec_key());
        out
    }
}

/// The labels of a daemon's health.
#[derive(Debug)]
pub struct DaemonStatusLabel {
    pub id: String,
    pub daemon_type: String,
    pub required: String,
    pub healthy: Option<String>,
}

/// The key under which a daemon's heartbeat is exported.
pub open spec fn daemon_key(d: DaemonStatus) -> LabelKey {
    seq![
        lp("id", d.id@),
        lp("daemon_type", d.daemon_type@),
        lp("required", bool_value(d.required)),
        lp("healthy", match d.healthy {
            Some(h) => bool_value(h),
            None => Seq::empty(),
        }),
    ]
}

impl DaemonStatusLabel {
    pub open spec fn spec_key(self) -> LabelKey {
        seq![
            lp("id", self.id@),
            lp("daemon_type", self.daemon_type@),
            lp("required", self.required@),
            lp("healthy", opt_value(self.healthy)),
        ]
    }

    /// The labels of `daemon`'s health: its flags written as `true` or `false`.
    pub fn new(daemon: DaemonStatus) -> (r: DaemonStatusLabel)
        ensures
            r.spec_key() == daemon_key(daemon),
            r.id == daemon.id,
            r.daemon_type == daemon.daemon_type,
            r.required@ == bool_value(daemon.required),
            match daemon.healthy {
                Some(h) => r.healthy is Some && r.healthy->0@ == bool_value(h),
                None => r.healthy is None,
            },
    {
        let healthy = match daemon.healthy {
            Some(h) => Some(bool_string(h)),
            None => None,
        };
        let r = DaemonStatusLabel {
            id: daemon.id,
            daemon_type: daemon.daemon_type,
            required: bool_string(daemon.required),
            healthy,
        };
        assert(r.spec_key() =~= daemon_key(daemon));
        r
    }

    /// The label-set of this daemon.
    pub fn labels(&self) -> (r: LabelSet)
        ensures
            key_of(r) == self.spec_key(),
    {
        let mut out: LabelSet = Vec::new();
        out.push(pair("id", self.id.clone()));
        out.push(pair("daemon_type", self.daemon_type.clone()));
        out.push(pair("required", self.required.clone()));
        out.push(pair("healthy", opt_string(&self.healthy)));
        assert(key_of(out) =~= self.spec_key());
        out
    }
}

/// The labels of a workspace entry.
#[derive(Debug)]
pub struct WorkspaceLocationLabel {
    pub workspace_location: String,
    pub load_status: String,
}

/// The key under which a workspace entry's update time is exported.
pub open spec fn workspace_key(w: LocationEntry) -> LabelKey {
    seq![lp("workspace_location", w.name@), lp("load_status", w.load_status@)]
}

impl WorkspaceLocationLabel {
    pub open spec fn spec_key(self) -> LabelKey {
        seq![lp("workspace_location", self.workspace_location@), lp("load_status", self.load_status@)]
    }

    /// The labels of a workspace entry: its name and load status.
    pub fn new(workspace: &LocationEntry) -> (r: WorkspaceLocationLabel)
        ensures
            r.workspace_location == workspace.name,
            r.load_status == workspace.load_status,
            r.spec_key() == workspace_key(*workspace),
    {
        WorkspaceLocationLabel {
            workspace_location: workspace.name.clone(),
            load_status: workspace.load_status.clone(),
        }
    }

    /// The label-set of this workspace entry.
    pub fn labels(&self) -> (r: LabelSet)
        ensures
            key_of(r) == self.spec_key(),
    {
        let mut out: LabelSet = Vec::new();
        out.push(pair("workspace_location", self.workspace_location.clone()));
        out.push(pair("load_status", self.load_status.clone()));
        assert(key_of(out) =~= self.spec_key());
        out
    }
}

/// The labels of an instigator: a schedule or a sensor.
#[derive(Debug)]
pub struct InstigationLabel {
    pub workspace_location: String,
    pub repository_name: String,
    pub instigation_name: String,
    pub instigation_type: String,
}

/// The key under which an instigator's run count is exported.
pub open spec fn instigation_key(w: Seq<char>, repo: Seq<char>, name: Seq<char>, t: Seq<char>) -> LabelKey {
    seq![
        lp("workspace_location", w),
        lp("repository_name", repo),
        lp("instigation_name", name),
        lp("instigation_type", t),
    ]
}

impl InstigationLabel {
    pub open spec fn spec_key(self) -> LabelKey {
        instigation_key(
            self.workspace_location@,
            self.repository_name@,
            self.instigation_name@,
            self.instigation_type@,
        )
    }

    pub fn new(workspace: String, repo: String, name: String, i_type: String) -> (r: InstigationLabel)
        ensures
            r.workspace_location == workspace,
            r.repository_name == repo,
            r.instigation_name == name,
            r.instigation_type == i_type,
    {
        InstigationLabel {
            workspace_location: workspace,
            repository_name: repo,
            instigation_name: name,
            instigation_type: i_type,
        }
    }

    /// The label-set of this instigator.
    pub fn labels(&self) -> (r: LabelSet)
        ensures
            key_of(r) == self.spec_key(),
    {
        let mut out: LabelSet = Vec::new();
        out.push(pair("workspace_location", self.workspace_location.clone()));
        out.push(pair("repository_name", self.repository_name.clone()));
        out.push(pair("instigation_name", self.instigation_name.clone()));
        out.push(pair("instigation_type", self.instigation_type.clone()));
        assert(key_of(out) =~= self.spec_key());
        out
    }
}

/// The key under which a concurrency key's counts are exported.
pub open spec fn concurrency_key(k: Seq<char>) -> LabelKey {
    seq![lp("key", k)]
}

/// The label-set of a concurrency key.
pub fn concurrency_labels(k: &String) -> (r: LabelSet)
    ensures
        key_of(r) == concurrency_key(k@),
{
    let mut out: LabelSet = Vec::new();
    out.push(pair("key", k.clone()));
    assert(key_of(out) =~= concurrency_key(k@));
    out
}

} // verus!
