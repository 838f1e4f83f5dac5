//! The transport protocols a probe can be sent with.

pub mod error;
pub mod protocol;
pub mod udp;

pub use error::ParseProtocolErr;
pub use protocol::Protocol;
pub use udp::UdpParams;
