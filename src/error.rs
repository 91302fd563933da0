//! Error kinds of the gateway.

use vstd::prelude::*;

verus! {

/// The kinds of failure a gateway operation can report.
#[derive(Debug, Clone, Copy, PartialEq, Eq, Structural)]
pub enum GatewayError {
    /// The configuration or the enclave key is invalid.
    Config,
    /// A cryptographic operation failed; no detail is carried on purpose.
    Crypto,
    /// The chain rejected a request or could not be reached.
    Chain,
    /// Registration is not possible in the current state.
    Registration,
    /// A one-shot step was already taken; nothing was changed.
    Rejection,
}

} // verus!
