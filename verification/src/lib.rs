//! Core of a Kubernetes operator that reconciles declarative custom resources
//! (queues, topics, bridges) onto an external message broker, publishes broker
//! statistics, and autoscales labelled deployments from queue backlog.
//!
//! Every decision the operator takes is a verified function in this crate:
//! watch-event dispatch, status-update selection, the scaler state machine,
//! and the aggregation behind the statistics endpoints. The surrounding I/O
//! (Kubernetes API calls, broker administration, HTTP serving) lives outside
//! and feeds these functions plain values.

pub mod assoc;
pub mod bridge;
pub mod metrics;
pub mod queue;
pub mod query;
pub mod scaler;
pub mod stats;
pub mod text;
pub mod topic;
pub mod watch;

use vstd::prelude::*;

verus! {

/// Parses the textual form used by the operator's boolean configuration
/// switches: exactly the string `TRUE` enables a switch, anything else
/// leaves it off.
pub fn config_flag_enabled(value: &str) -> (r: bool)
    ensures
        r == (value@ == "TRUE"@),
{
    let t: String = String::from_str("TRUE");
    let v: String = value.to_owned();
    v == t
}

} // verus!
