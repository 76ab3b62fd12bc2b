use vstd::prelude::*;

verus! {

/// The lifecycle state of a run, as reported by the control plane.
#[derive(Clone, Copy, Debug, PartialEq, Eq, Hash, Structural)]
pub enum RunStatus {
    Queued,
    NotStarted,
    Managed,
    Starting,
    Started,
    Success,
    Failure,
    Canceling,
    Canceled,
}

/// Every run status, in a fixed order.
pub open spec fn all_run_statuses() -> Seq<RunStatus> {
    seq![
        RunStatus::Queued,
        RunStatus::NotStarted,
        RunStatus::Managed,
        RunStatus::Starting,
        RunStatus::Started,
        RunStatus::Success,
        RunStatus::Failure,
        RunStatus::Canceling,
        RunStatus::Canceled,
    ]
}

/// The label value under which a run status is exported.
pub open spec fn run_status_name(s: RunStatus) -> Seq<char> {
    match s {
        RunStatus::Queued => "QUEUED"@,
        RunStatus::NotStarted => "NOT_STARTED"@,
        RunStatus::Managed => "MANAGED"@,
        RunStatus::Starting => "STARTING"@,
        RunStatus::Started => "STARTED"@,
        RunStatus::Success => "SUCCESS"@,
        RunStatus::Failure => "FAILURE"@,
        RunStatus::Canceling => "CANCELING"@,
        RunStatus::Canceled => "CANCELED"@,
    }
}

impl RunStatus {
    /// The status's label value.
    pub fn name(&self) -> (r: String)
        ensures
            r@ == run_status_name(*self),
    {
        match self {
            RunStatus::Queued => String::from_str("QUEUED"),
            RunStatus::NotStarted => String::from_str("NOT_STARTED"),
            RunStatus::Managed => String::from_str("MANAGED"),
            RunStatus::Starting => String::from_str("STARTING"),
            RunStatus::Started => String::from_str("STARTED"),
            RunStatus::Success => String::from_str("SUCCESS"),
            RunStatus::Failure => String::from_str("FAILURE"),
            RunStatus::Canceling => String::from_str("CANCELING"),
            RunStatus::Canceled => String::from_str("CANCELED"),
        }
    }

    /// Every run status, in the order of `all_run_statuses`.
    pub fn all() -> (r: Vec<RunStatus>)
        ensures
            r@ == all_run_statuses(),
    {
        let r = vec![
            RunStatus::Queued,
            RunStatus::NotStarted,
            RunStatus::Managed,
            RunStatus::Starting,
            RunStatus::Started,
            RunStatus::Success,
            RunStatus::Failure,
            RunStatus::Canceling,
            RunStatus::Canceled,
        ];
        assert(r@ =~= all_run_statuses());
        r
    }
}

/// The list of run statuses is complete.
pub proof fn lemma_all_run_statuses(s: RunStatus)
    ensures
        all_run_statuses().contains(s),
{
    let a = all_run_statuses();
    match s {
        RunStatus::Queued => assert(a[0] == s),
        RunStatus::NotStarted => assert(a[1] == s),
        RunStatus::Managed => assert(a[2] == s),
        RunStatus::Starting => assert(a[3] == s),
        RunStatus::Started => assert(a[4] == s),
        RunStatus::Success => assert(a[5] == s),
        RunStatus::Failure => assert(a[6] == s),
        RunStatus::Canceling => assert(a[7] == s),
        RunStatus::Canceled => assert(a[8] == s),
    }
}

/// Distinct run statuses are exported under distinct label values.
pub proof fn lemma_run_status_name_injective(a: RunStatus, b: RunStatus)
    ensures
        run_status_name(a) == run_status_name(b) ==> a == b,
{
    reveal_strlit("QUEUED");
    reveal_strlit("NOT_STARTED");
    reveal_strlit("MANAGED");
    reveal_strlit("STARTING");
    reveal_strlit("STARTED");
    reveal_strlit("SUCCESS");
    reveal_strlit("FAILURE");
    reveal_strlit("CANCELING");
    reveal_strlit("CANCELED");
    if run_status_name(a) == run_status_name(b) && a != b {
        let x = run_status_name(a);
        let y = run_status_name(b);
        assert(x.len() == y.len());
        assert(x[0] == y[0]);
        assert(x[1] == y[1]);
        assert(x[2] == y[2]);
        assert(x[3] == y[3]);
    }
}

/// The outcome of a step, where one was reported.
#[derive(Clone, Copy, Debug, PartialEq, Eq, Hash, Structural)]
pub enum StepEventStatus {
    Skipped,
    Success,
    Failure,
    InProgress,
}

/// Every step status, absence included, in a fixed order.
pub open spec fn all_step_statuses() -> Seq<Option<StepEventStatus>> {
    seq![
        Some(StepEventStatus::Skipped),
        Some(StepEventStatus::Success),
        Some(StepEventStatus::Failure),
        Some(StepEventStatus::InProgress),
        None,
    ]
}

/// The label value under which a step status is exported; an absent status
/// is exported as the empty value.
pub open spec fn step_status_name(s: Option<StepEventStatus>) -> Seq<char> {
    match s {
        Some(StepEventStatus::Skipped) => "SKIPPED"@,
        Some(StepEventStatus::Success) => "SUCCESS"@,
        Some(StepEventStatus::Failure) => "FAILURE"@,
        Some(StepEventStatus::InProgress) => "IN_PROGRESS"@,
        None => Seq::empty(),
    }
}

impl StepEventStatus {
    /// The label value of a step status that may be absent.
    pub fn name_of(s: Option<StepEventStatus>) -> (r: String)
        ensures
            r@ == step_status_name(s),
    {
        match s {
            Some(StepEventStatus::Skipped) => String::from_str("SKIPPED"),
            Some(StepEventStatus::Success) => String::from_str("SUCCESS"),
            Some(StepEventStatus::Failure) => String::from_str("FAILURE"),
            Some(StepEventStatus::InProgress) => String::from_str("IN_PROGRESS"),
            None => String::new(),
        }
    }

    /// Every step status, absence included, in the order of `all_step_statuses`.
    pub fn all() -> (r: Vec<Option<StepEventStatus>>)
        ensures
            r@ == all_step_statuses(),
    {
        let r = vec![
            Some(StepEventStatus::Skipped),
            Some(StepEventStatus::Success),
            Some(StepEventStatus::Failure),
            Some(StepEventStatus::InProgress),
            None,
        ];
        assert(r@ =~= all_step_statuses());
        r
    }
}

/// The list of step statuses is complete.
pub proof fn lemma_all_step_statuses(s: Option<StepEventStatus>)
    ensures
        all_step_statuses().contains(s),
{
    let a = all_step_statuses();
    match s {
        Some(StepEventStatus::Skipped) => assert(a[0] == s),
        Some(StepEventStatus::Success) => assert(a[1] == s),
        Some(StepEventStatus::Failure) => assert(a[2] == s),
        Some(StepEventStatus::InProgress) => assert(a[3] == s),
        None => assert(a[4] == s),
    }
}

/// Distinct step statuses are exported under distinct label values.
pub proof fn lemma_step_status_name_injective(a: Option<StepEventStatus>, b: Option<StepEventStatus>)
    ensures
        step_status_name(a) == step_status_name(b) ==> a == b,
{
    reveal_strlit("SKIPPED");
    reveal_strlit("SUCCESS");
    reveal_strlit("FAILURE");
    reveal_strlit("IN_PROGRESS");
    if step_status_name(a) == step_status_name(b) && a != b {
        let x = step_status_name(a);
        let y = step_status_name(b);
        assert(x.len() == y.len());
        if x.len() > 0 {
            assert(x[0] == y[0]);
            assert(x[1] == y[1]);
        }
    }
}

} // verus!
