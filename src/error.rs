use vstd::prelude::*;

verus! {

/// What went wrong in one step of an update cycle. The retry policy treats
/// every variant alike; the variants keep the diagnostic apart.
#[derive(Debug)]
pub enum AgentError {
    /// The request could not be sent or its response not read.
    Network(String),
    /// The discovery endpoint did not answer with a valid IPv4 address, either
    /// because its status was not a success or because its body was not one.
    InvalidAddress,
    /// A setting is missing or malformed.
    Config(String),
}

impl AgentError {
    /// The text shown for this error.
    pub fn message(&self) -> (r: String)
        ensures
            self is InvalidAddress ==> r@ == "Failed to get a valid IP address"@,
            self matches AgentError::Network(d) ==> r@ == "network error: "@ + d@,
            self matches AgentError::Config(d) ==> r@ == "configuration error: "@ + d@,
    {
        match self {
            AgentError::Network(d) => {
                let mut r = String::from_str("network error: ");
                r.append(d.as_str());
                r
            },
            AgentError::InvalidAddress => String::from_str("Failed to get a valid IP address"),
            AgentError::Config(d) => {
                let mut r = String::from_str("configuration error: ");
                r.append(d.as_str());
                r
            },
        }
    }
}

} // verus!
