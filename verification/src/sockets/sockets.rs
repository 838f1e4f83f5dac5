//! The supervisor's choice of sockets.

use crate::addr::{Ipv4Addr, Ipv6Addr};
use crate::error::TracerouteError;
use crate::sockets::senders::{SocketSender, SocketSenders};
use vstd::prelude::*;

verus! {

/// What the supervisor makes of its two attempts to open a socket, each
/// given as the addresses it can send from or the error it ended in.
///
/// As long as IPv6 is not supported, only an IPv4 socket alone is taken:
/// with an IPv6 socket open the supervisor refuses. With neither open, the
/// error of the IPv4 attempt is handed on.
pub open spec fn spec_setup_sockets(v4: Result<Vec<Ipv4Addr>, TracerouteError>, v6: Result<Vec<Ipv6Addr>, TracerouteError>) -> Result<
    Seq<Ipv4Addr>,
    TracerouteError,
> {
    match (v4, v6) {
        (Ok(_), Ok(_)) => Err(TracerouteError::NoIpv6),
        (Ok(addresses), Err(_)) => Ok(addresses@),
        (Err(_), Ok(_)) => Err(TracerouteError::NoIpv6),
        (Err(e), Err(_)) => Err(e),
    }
}

/// Chooses the sockets to work with: see [`spec_setup_sockets`].
pub fn setup_sockets(v4: Result<Vec<Ipv4Addr>, TracerouteError>, v6: Result<Vec<Ipv6Addr>, TracerouteError>) -> (chosen: Result<
    SocketSenders,
    TracerouteError,
>)
    ensures
        match spec_setup_sockets(v4, v6) {
            Ok(addresses) => chosen matches Ok(SocketSenders::V4(socket)) && socket.addresses@ == addresses,
            Err(e) => chosen matches Err(err) && err == e,
        },
{
    match (v4, v6) {
        (Ok(_), Ok(_)) => Err(TracerouteError::NoIpv6),
        (Ok(addresses), Err(_)) => Ok(SocketSenders::V4(SocketSender::new(addresses))),
        (Err(_), Ok(_)) => Err(TracerouteError::NoIpv6),
        (Err(e), Err(_)) => Err(e),
    }
}

} // verus!
