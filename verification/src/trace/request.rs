use crate::prelude::Duration;
use crate::probe::ProbeBundle;
use vstd::prelude::*;

verus! {

/// The packets that a trace wants sent in one batch, and the time their
/// replies are given.
pub enum TraceRequest {
    V4 { bundles: Vec<ProbeBundle<Vec<u8>>>, timeout: Duration },
    V6 { bundles: Vec<ProbeBundle<Vec<u8>>>, timeout: Duration },
}

} // verus!
