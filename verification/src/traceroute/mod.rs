//! A long-term view of the hosts met at each distance.

pub mod hop;
pub mod host;

pub use hop::Hop;
pub use host::HostAgent;
