//! Metric state synchronization for an exporter that turns snapshots of a
//! job-orchestration control plane into labeled metric samples: label
//! derivation, a label-keyed metric store, the merge of each snapshot with
//! stale-label eviction and full replacement, and the refresh gate that
//! serialises fetches against reads.

pub mod exporter;
pub mod family;
pub mod labels;
pub mod laws;
pub mod metrics;
pub mod replace;
pub mod snapshot;
pub mod status;
pub mod timestamp;
pub mod update;

pub use exporter::{Exporter, ReadAction};
pub use family::{Family, GaugeF, LabelSet};
pub use metrics::Metrics;
pub use status::{RunStatus, StepEventStatus};
