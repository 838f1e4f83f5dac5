//! The two actors between the traces and the wire, as state machines.

pub mod outcomes;
pub mod receivers;
pub mod runs;
pub mod senders;
pub mod sockets;

pub use receivers::{Arrival, Receiver, ReceiverState, Sweep};
pub use senders::{sender_step, Batch, BatchState, SenderStep, SocketSender, SocketSenders, Submission};
pub use sockets::setup_sockets;
