//! A trace: the probes of one round after another towards one destination.

pub mod activity;
pub mod data;
pub mod graph;
pub mod options;
pub mod request;
pub mod response;
pub mod round;
pub mod sent;
pub mod trace;

pub use activity::TraceActivity;
pub use data::TraceData;
pub use options::TraceOptions;
pub use request::TraceRequest;
pub use response::TraceResponse;
pub use sent::TraceSent;
pub use trace::{Polled, Step, Trace, TraceState};

use crate::error::TracerouteError;
use vstd::prelude::*;

verus! {

/// What travels back to a trace for each probe: its outcome, or the error
/// that its batch ended in.
pub type TraceResult = Result<TraceResponse, TracerouteError>;

} // verus!
