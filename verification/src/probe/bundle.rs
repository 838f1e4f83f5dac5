use crate::probe::probe::Probe;
use vstd::prelude::*;

verus! {

/// A packet together with the [`Probe`] by which its reply is recognised.
#[derive(Clone, Debug)]
pub struct ProbeBundle<P> {
    pub probe: Probe,
    pub packet: P,
}

} // verus!
