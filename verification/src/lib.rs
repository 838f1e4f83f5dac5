//! Outgoing network path discovery.
//!
//! The crate holds the probe dispatch and correlation logic of a traceroute
//! engine: building probe packets, reading ICMP replies, matching replies to
//! probes, timing probes out, and assembling per-round results. Sockets,
//! threads and channels are left to the caller, who feeds the state machines
//! defined here with plain values.

pub mod addr;
pub mod edge;
pub mod error;
pub mod node;
pub mod packet;
pub mod prelude;
pub mod probe;
pub mod protocol;
pub mod sockets;
pub mod trace;
pub mod trace_params;
pub mod traceroute;
pub mod utils;

pub use addr::{IpAddr, Ipv4Addr, Ipv6Addr};
pub use edge::Edge;
pub use error::{IoError, TracerouteError};
pub use node::Node;
pub use packet::{handle_ipv4_packet, PacketBuilder, PacketBuilderTrait};
pub use probe::{Probe, ProbeBundle, ProbeResponse, ProbeSent};
pub use protocol::{ParseProtocolErr, Protocol, UdpParams};
pub use trace::{Polled, Step, Trace, TraceActivity, TraceData, TraceOptions, TraceRequest, TraceResponse, TraceResult, TraceSent};
pub use trace_params::TraceParam;
pub use utils::Hop;
pub use prelude::{Checksum, Duration, Flowhash, Instant, TcpId, TTL};
