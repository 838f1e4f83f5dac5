//! The three states of a probe: built, sent, answered.

pub mod bundle;
pub mod probe;
pub mod response;
pub mod sent;

pub use bundle::ProbeBundle;
pub use probe::Probe;
pub use response::ProbeResponse;
pub use sent::ProbeSent;
