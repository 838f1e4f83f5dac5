use crate::addr::IpAddr;
use crate::prelude::Duration;
use vstd::prelude::*;
use vstd::std_specs::cmp::PartialEqSpecImpl;

verus! {

/// A host and the round-trip times measured to it.
///
/// Two hosts are equal when they have the same address.
#[derive(Clone, Debug)]
pub struct HostAgent {
    source: IpAddr,
    probes: Vec<Duration>,
}

/// The sum of `pings`.
pub open spec fn total(pings: Seq<Duration>) -> nat
    decreases pings.len(),
{
    if pings.len() == 0 {
        0
    } else {
        total(pings.drop_last()) + pings.last() as nat
    }
}

/// The sum of `pings` is less than as many times the largest span.
pub proof fn lemma_total_bound(pings: Seq<Duration>)
    ensures
        total(pings) <= pings.len() * u64::MAX,
    decreases pings.len(),
{
    if pings.len() > 0 {
        lemma_total_bound(pings.drop_last());
        assert((pings.len() - 1) * u64::MAX + u64::MAX == pings.len() * u64::MAX) by (nonlinear_arith);
    }
}

impl HostAgent {
    /// The host's address.
    pub closed spec fn spec_source(self) -> IpAddr {
        self.source
    }

    /// The round-trip times measured, oldest first.
    pub closed spec fn spec_pings(self) -> Seq<Duration> {
        self.probes@
    }

    /// A host with nothing measured yet.
    pub fn new(source: IpAddr) -> (host: Self)
        ensures
            host.spec_source() == source,
            host.spec_pings() == Seq::<Duration>::empty(),
    {
        Self { source, probes: Vec::new() }
    }

    /// The host's address.
    pub fn source(&self) -> (source: IpAddr)
        ensures
            source == self.spec_source(),
    {
        self.source
    }

    /// Notes a round-trip time.
    pub fn add_ping(&mut self, ping: Duration)
        ensures
            final(self).spec_source() == old(self).spec_source(),
            final(self).spec_pings() == old(self).spec_pings().push(ping),
    {
        self.probes.push(ping);
    }

    /// The mean of the round-trip times measured, rounded down. At least
    /// one must have been measured.
    pub fn average_ping(&self) -> (mean: Duration)
        requires
            self.spec_pings().len() > 0,
        ensures
            mean == total(self.spec_pings()) / self.spec_pings().len(),
    {
        let mut sum: u128 = 0;
        let mut i: usize = 0;
        while i < self.probes.len()
            invariant
                i <= self.probes.len(),
                sum == total(self.probes@.take(i as int)),
            decreases self.probes.len() - i,
        {
            proof {
                assert(self.probes@.take(i + 1).drop_last() =~= self.probes@.take(i as int));
                assert(self.probes@.take(i + 1).last() == self.probes@[i as int]);
                lemma_total_bound(self.probes@.take(i + 1));
                assert((i + 1) * u64::MAX <= usize::MAX * u64::MAX) by (nonlinear_arith)
                    requires
                        i + 1 <= usize::MAX,
                ;
                assert(usize::MAX * u64::MAX <= u64::MAX * u64::MAX) by (nonlinear_arith)
                    requires
                        usize::MAX <= u64::MAX,
                ;
                assert(u64::MAX * u64::MAX < u128::MAX) by (nonlinear_arith);
            }
            sum = sum + self.probes[i] as u128;
            i += 1;
        }
        proof {
            assert(self.probes@.take(self.probes@.len() as int) =~= self.probes@);
            lemma_total_bound(self.probes@);
            let n = self.probes@.len();
            assert(total(self.probes@) / n <= u64::MAX) by (nonlinear_arith)
                requires
                    n > 0,
                    total(self.probes@) <= n * u64::MAX,
            ;
        }
        (sum / (self.probes.len() as u128)) as u64
    }
}

impl PartialEq for HostAgent {
    fn eq(&self, other: &Self) -> (same: bool) {
        self.source == other.source
    }
}

impl Eq for HostAgent {

}

impl PartialEqSpecImpl for HostAgent {
    open spec fn obeys_eq_spec() -> bool {
        true
    }

    closed spec fn eq_spec(&self, other: &Self) -> bool {
        self.source == other.source
    }
}

} // verus!
