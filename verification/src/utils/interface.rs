//! Choosing the interface to send from.

use crate::addr::{IpAddr, Ipv4Addr};
use crate::error::{IoError, TracerouteError};
use vstd::prelude::*;

verus! {

/// A hardware address, held as the 48-bit number its six octets spell.
#[derive(Clone, Copy, Debug, PartialEq, Eq, Structural)]
pub struct MacAddr {
    pub bits: u64,
}

/// What is read of a network interface of this machine.
#[derive(Debug)]
pub struct NetworkInterface {
    /// Whether the interface is up and its link is ready
    pub lower_up: bool,
    /// Whether the interface is a loopback
    pub loopback: bool,
    /// The hardware address, if the interface has one
    pub mac: Option<MacAddr>,
    /// The addresses of the interface
    pub ips: Vec<IpAddr>,
}

/// The first IPv4 address among `ips`, if there is one.
pub open spec fn first_ipv4(ips: Seq<IpAddr>) -> Option<Ipv4Addr>
    decreases ips.len(),
{
    if ips.len() == 0 {
        None
    } else {
        match ips[0] {
            IpAddr::V4(ip) => Some(ip),
            IpAddr::V6(_) => first_ipv4(ips.drop_first()),
        }
    }
}

impl NetworkInterface {
    /// Whether packets can be sent from the interface: it is up, no
    /// loopback, has an IPv4 address, and has a hardware address other than
    /// zero.
    pub open spec fn is_available(self) -> bool {
        &&& self.lower_up
        &&& !self.loopback
        &&& first_ipv4(self.ips@) is Some
        &&& self.mac matches Some(mac) && mac.bits != 0
    }

    /// The first IPv4 address of the interface.
    pub fn ipv4(&self) -> (ip: Option<Ipv4Addr>)
        ensures
            ip == first_ipv4(self.ips@),
    {
        let mut i: usize = 0;
        assert(self.ips@.skip(0) =~= self.ips@);
        while i < self.ips.len()
            invariant
                i <= self.ips.len(),
                first_ipv4(self.ips@) == first_ipv4(self.ips@.skip(i as int)),
            decreases self.ips.len() - i,
        {
            proof {
                assert(self.ips@.skip(i as int)[0] == self.ips@[i as int]);
                assert(self.ips@.skip(i as int).drop_first() =~= self.ips@.skip(i + 1));
            }
            if let IpAddr::V4(ip) = self.ips[i] {
                return Some(ip);
            }
            i += 1;
        }
        None
    }

    /// Whether packets can be sent from the interface.
    pub fn available(&self) -> (ok: bool)
        ensures
            ok == self.is_available(),
    {
        let has_mac = match self.mac {
            Some(mac) => mac.bits != 0,
            None => false,
        };
        self.lower_up && !self.loopback && self.ipv4().is_some() && has_mac
    }
}

/// The interfaces among `all` that packets can be sent from, in their
/// order.
pub open spec fn available_interfaces(all: Seq<NetworkInterface>) -> Seq<NetworkInterface>
    decreases all.len(),
{
    if all.len() == 0 {
        Seq::empty()
    } else if all.last().is_available() {
        available_interfaces(all.drop_last()).push(all.last())
    } else {
        available_interfaces(all.drop_last())
    }
}

/// The interfaces that `found` refers to.
pub open spec fn referred(found: Seq<&NetworkInterface>) -> Seq<NetworkInterface> {
    Seq::new(found.len(), |i: int| *found[i])
}

/// The interfaces among `all` that are up, no loopback, and have an IPv4
/// address and a hardware address other than zero, in their order.
pub fn get_available_interfaces(all: &Vec<NetworkInterface>) -> (found: Vec<&NetworkInterface>)
    ensures
        referred(found@) == available_interfaces(all@),
{
    let mut found: Vec<&NetworkInterface> = Vec::new();
    let mut i: usize = 0;
    while i < all.len()
        invariant
            i <= all.len(),
            referred(found@) == available_interfaces(all@.take(i as int)),
        decreases all.len() - i,
    {
        proof {
            assert(all@.take(i + 1).drop_last() =~= all@.take(i as int));
            assert(all@.take(i + 1).last() == all@[i as int]);
        }
        if all[i].available() {
            let ghost before = referred(found@);
            found.push(&all[i]);
            assert(referred(found@) =~= before.push(all@[i as int]));
        }
        i += 1;
    }
    proof {
        assert(all@.take(all@.len() as int) =~= all@);
    }
    found
}

/// The address to send from by default, among the interfaces `all` of this
/// machine.
pub open spec fn default_source_ip(all: Seq<NetworkInterface>) -> Option<Ipv4Addr> {
    if available_interfaces(all).len() == 0 {
        None
    } else {
        first_ipv4(available_interfaces(all)[0].ips@)
    }
}

/// The address to send from by default: the first IPv4 address of the first
/// interface that packets can be sent from. Without such an interface the
/// error says that no interface is available.
pub fn get_default_source_ip(all: &Vec<NetworkInterface>) -> (source: Result<Ipv4Addr, TracerouteError>)
    ensures
        match default_source_ip(all@) {
            Some(ip) => source == Ok::<Ipv4Addr, TracerouteError>(ip),
            None => source matches Err(TracerouteError::Io(e)) && !e.permission_denied && (available_interfaces(all@).len() == 0
                ==> e.detail@ == "No interfaces available"@) && (available_interfaces(all@).len() > 0 ==> e.detail@
                == "Couldn't get interface IPv4 address"@),
        },
{
    let found = get_available_interfaces(all);
    if found.len() == 0 {
        return Err(TracerouteError::Io(IoError { permission_denied: false, detail: "No interfaces available".to_owned() }));
    }
    proof {
        assert(referred(found@)[0] == *found@[0]);
    }
    match found[0].ipv4() {
        Some(ip) => Ok(ip),
        None => Err(
            TracerouteError::Io(IoError { permission_denied: false, detail: "Couldn't get interface IPv4 address".to_owned() }),
        ),
    }
}

/// An interface that packets can be sent from has an IPv4 address: the
/// default source address is missing only where no interface is available.
pub proof fn lemma_default_source_ip(all: Seq<NetworkInterface>)
    ensures
        default_source_ip(all) is None <==> available_interfaces(all).len() == 0,
        forall|i: int| 0 <= i < available_interfaces(all).len() ==> (#[trigger] available_interfaces(all)[i]).is_available(),
    decreases all.len(),
{
    if all.len() > 0 {
        lemma_default_source_ip(all.drop_last());
    }
}

} // verus!
