//! What a trace reports of each hop, and where to send from.

pub mod hop;
pub mod interface;

pub use hop::Hop;
pub use interface::{get_available_interfaces, get_default_source_ip, MacAddr, NetworkInterface};
