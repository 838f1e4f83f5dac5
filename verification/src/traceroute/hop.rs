use crate::addr::IpAddr;
use crate::traceroute::host::HostAgent;
use vstd::prelude::*;

verus! {

/// The hosts met at one distance, each once.
#[derive(Clone, Debug)]
pub struct Hop {
    distance: u8,
    hosts: Vec<HostAgent>,
}

/// The place of the first of `hosts` from `at` on that has the address
/// `source`; the number of hosts where there is none.
pub open spec fn host_position(hosts: Seq<HostAgent>, source: IpAddr, at: int) -> int
    decreases hosts.len() - at,
{
    if at < 0 || at >= hosts.len() {
        hosts.len() as int
    } else if hosts[at].spec_source() == source {
        at
    } else {
        host_position(hosts, source, at + 1)
    }
}

impl Hop {
    /// The distance.
    pub closed spec fn spec_distance(self) -> u8 {
        self.distance
    }

    /// The hosts met, in the order in which they were met.
    pub closed spec fn spec_hosts(self) -> Seq<HostAgent> {
        self.hosts@
    }

    /// No host met yet at `distance`.
    pub fn new(distance: u8) -> (hop: Self)
        ensures
            hop.spec_distance() == distance,
            hop.spec_hosts() == Seq::<HostAgent>::empty(),
    {
        Self { distance, hosts: Vec::new() }
    }

    /// The host with the address `source`, to note what was measured: the
    /// one met already, or else a new one, met now.
    pub fn get_host_mut(&mut self, source: IpAddr) -> (host: &mut HostAgent)
        ensures
            ({
                let at = host_position(old(self).spec_hosts(), source, 0);
                let met = if at < old(self).spec_hosts().len() {
                    old(self).spec_hosts()
                } else {
                    old(self).spec_hosts().push(*host)
                };
                &&& host.spec_source() == source
                &&& at < old(self).spec_hosts().len() ==> *host == old(self).spec_hosts()[at]
                &&& at == old(self).spec_hosts().len() ==> host.spec_pings() == Seq::<crate::prelude::Duration>::empty()
                &&& final(self).spec_hosts() =~= met.update(at, *final(host))
                &&& final(self).spec_distance() == old(self).spec_distance()
            }),
    {
        let mut at: usize = 0;
        while at < self.hosts.len()
            invariant
                at <= self.hosts.len(),
                self.hosts@ == old(self).hosts@,
                self.distance == old(self).distance,
                host_position(self.hosts@, source, 0) == host_position(self.hosts@, source, at as int),
            ensures
                at <= self.hosts.len(),
                self.hosts@ == old(self).hosts@,
                self.distance == old(self).distance,
                at == host_position(self.hosts@, source, 0),
                at < self.hosts.len() ==> self.hosts@[at as int].spec_source() == source,
            decreases self.hosts.len() - at,
        {
            if self.hosts[at].source() == source {
                break ;
            }
            at += 1;
        }
        if at == self.hosts.len() {
            self.hosts.push(HostAgent::new(source));
        }
        &mut self.hosts[at]
    }

    /// Whether no host was met.
    pub fn is_empty(&self) -> (empty: bool)
        ensures
            empty == (self.spec_hosts().len() == 0),
    {
        self.hosts.len() == 0
    }

    /// The distance.
    pub fn distance(&self) -> (distance: u8)
        ensures
            distance == self.spec_distance(),
    {
        self.distance
    }
}

} // verus!
