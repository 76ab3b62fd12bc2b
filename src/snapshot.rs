use vstd::prelude::*;
use crate::status::{RunStatus, StepEventStatus};

verus! {

// Times in a snapshot are whole microseconds since the Unix epoch.

/// Where a run's job is defined.
#[derive(Debug)]
pub struct RepositoryOrigin {
    pub repository_location_name: String,
    pub repository_name: String,
}

/// Queueing statistics of a run, or the error that the control plane sent
/// in their place.
#[derive(Debug)]
pub enum RunStats {
    RunStatsSnapshot { enqueued_time: Option<i64>, launch_time: Option<i64> },
    Error,
}

/// The result of one expectation that a step checked.
#[derive(Debug)]
pub struct ExpectationResult {
    pub label: Option<String>,
    pub success: bool,
}

/// What one step of a run reported.
#[derive(Debug)]
pub struct StepStats {
    pub step_key: String,
    pub status: Option<StepEventStatus>,
    pub attempts: u32,
    pub start_time: Option<i64>,
    pub end_time: Option<i64>,
    pub expectation_results: Vec<ExpectationResult>,
}

/// The path that names an asset.
#[derive(Debug)]
pub struct AssetKey {
    pub path: Vec<String>,
}

/// An asset materialization that a run recorded; its timestamp is carried as
/// text, as the control plane sends it.
#[derive(Debug)]
pub struct AssetMaterialization {
    pub asset_key: Option<AssetKey>,
    pub step_key: Option<String>,
    pub partition: Option<String>,
    pub timestamp: String,
}

/// One run of a job.
#[derive(Debug)]
pub struct Run {
    pub status: RunStatus,
    pub mode: String,
    pub pipeline_name: String,
    pub repository_origin: Option<RepositoryOrigin>,
    pub update_time: Option<i64>,
    pub start_time: Option<i64>,
    pub end_time: Option<i64>,
    pub stats: RunStats,
    pub step_stats: Vec<StepStats>,
    pub asset_materializations: Vec<AssetMaterialization>,
}

/// The runs updated since the cursor, with the total count of runs.
#[derive(Debug)]
pub struct Runs {
    pub count: Option<i64>,
    pub results: Vec<Run>,
}

/// The run group of a snapshot, or the error that came in its place.
#[derive(Debug)]
pub enum RunsOrError {
    Runs(Runs),
    Error,
}

/// A sensor of a repository.
#[derive(Debug)]
pub struct Sensor {
    pub name: String,
    pub sensor_type: String,
    pub runs_count: i64,
}

/// A schedule of a repository.
#[derive(Debug)]
pub struct Schedule {
    pub name: String,
    pub mode: String,
    pub runs_count: i64,
}

/// A repository with its instigators.
#[derive(Debug)]
pub struct Repository {
    pub sensors: Vec<Sensor>,
    pub schedules: Vec<Schedule>,
}

/// A loaded code location.
#[derive(Debug)]
pub struct RepositoryLocation {
    pub name: String,
    pub repositories: Vec<Repository>,
}

/// A code location, or the error that its load gave.
#[derive(Debug)]
pub enum LocationOrLoadError {
    RepositoryLocation(RepositoryLocation),
    Error,
}

/// One entry of the workspace.
#[derive(Debug)]
pub struct LocationEntry {
    pub name: String,
    pub load_status: String,
    pub updated_timestamp: i64,
    pub location_or_load_error: Option<LocationOrLoadError>,
}

/// The workspace group of a snapshot, or the error that came in its place.
#[derive(Debug)]
pub enum WorkspaceOrError {
    Workspace(Vec<LocationEntry>),
    Error,
}

/// The health of one daemon.
#[derive(Debug)]
pub struct DaemonStatus {
    pub id: String,
    pub daemon_type: String,
    pub required: bool,
    pub healthy: Option<bool>,
    pub last_heartbeat_time: Option<i64>,
}

/// The slots and steps of one concurrency key.
#[derive(Debug)]
pub struct ConcurrencyLimit {
    pub concurrency_key: String,
    pub slot_count: i64,
    pub active_slot_count: i64,
    pub pending_step_count: i64,
    pub assigned_step_count: i64,
}

/// The result of one fetch from the control plane.
#[derive(Debug)]
pub struct Snapshot {
    pub runs_or_error: RunsOrError,
    pub workspace_or_error: WorkspaceOrError,
    pub daemon_statuses: Vec<DaemonStatus>,
    pub concurrency_limits: Vec<ConcurrencyLimit>,
}

} // verus!
