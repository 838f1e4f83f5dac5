use crate::prelude::Duration;
use crate::probe::ProbeSent;
use vstd::prelude::*;

verus! {

/// The probes of one batch, all sent, with the time their replies are given.
pub struct TraceSent {
    pub probes: Vec<ProbeSent>,
    pub timeout: Duration,
}

/// Whether all of `probes` belong to one flow.
pub open spec fn one_flow(probes: Seq<ProbeSent>) -> bool {
    forall|i: int| 0 <= i < probes.len() ==> (#[trigger] probes[i]).flowhash == probes[0].flowhash
}

impl TraceSent {
    /// A batch is well formed when all its probes belong to one flow.
    pub open spec fn wf(self) -> bool {
        one_flow(self.probes@)
    }

    /// Whether the batch is well formed: all its probes belong to one flow.
    pub fn is_wf(&self) -> (ok: bool)
        ensures
            ok == self.wf(),
    {
        let mut i: usize = 0;
        while i < self.probes.len()
            invariant
                i <= self.probes.len(),
                forall|j: int| 0 <= j < i ==> (#[trigger] self.probes@[j]).flowhash == self.probes@[0].flowhash,
            decreases self.probes.len() - i,
        {
            if self.probes[i].flowhash != self.probes[0].flowhash {
                return false;
            }
            i += 1;
        }
        true
    }
}

} // verus!
