use vstd::prelude::*;

verus! {

/// The error met when a protocol's name is not recognised.
#[derive(Copy, Debug, PartialEq, Eq, Clone, Structural)]
pub enum ParseProtocolErr {
    UnknownProtocol,
}

impl ParseProtocolErr {
    /// The words shown for the error: `Unknown Protocol`.
    pub fn to_string(&self) -> (text: String)
        ensures
            text@ == "Unknown Protocol"@,
    {
        "Unknown Protocol".to_owned()
    }
}

} // verus!
