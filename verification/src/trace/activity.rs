use crate::prelude::TTL;
use crate::trace::response::TraceResponse;
use vstd::prelude::*;

verus! {

/// What a trace reports while it runs.
#[derive(Clone, Copy, Debug)]
pub enum TraceActivity {
    /// The outcome of a probe
    Response(TraceResponse),
    /// A distance that was masked
    Masked(TTL),
}

} // verus!
