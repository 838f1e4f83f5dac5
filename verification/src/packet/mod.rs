//! Probe packets: how they are laid out, summed and read back.

pub mod builder;
pub mod checksum;
pub mod ipv4;
pub mod reply;

pub use builder::{PacketBuilder, PacketBuilderTrait};
pub use reply::handle_ipv4_packet;
