use vstd::prelude::*;

verus! {

/// The ways in which answering a configuration request can fail.
#[derive(Debug, Clone, Copy, PartialEq, Eq, Structural)]
pub enum Error {
    /// The domain of the address is not served.
    DomainNotFound,
    /// The address holds no `@`.
    InvalidEmail,
    /// The domain has no incoming or no outgoing server.
    MissingServerKind,
    /// Loading the signing key or certificates, or signing, failed.
    SigningFailure,
}

} // verus!
