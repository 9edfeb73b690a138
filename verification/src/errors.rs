//! The request-scoped failure taxonomy. Every failure is caught at the
//! request boundary and mapped to a status code and a JSON body; none is
//! fatal to the process.

use vstd::prelude::*;

verus! {

/// Why a request failed. Each variant is mapped to one response.
#[derive(Clone, Debug, PartialEq, Eq)]
pub enum EmailError {
    /// No credential header was presented.
    MissingCredential,
    /// A credential was presented but does not match the configured secret.
    InvalidCredential,
    /// The identity already recorded its full quota of requests within the
    /// trailing window.
    RateLimited,
    /// The effective sender or recipient fails address-syntax validation.
    AddressFormatError,
    /// The transport collaborator reported a failure; the field carries its
    /// error text.
    TransportFailure(String),
}

} // verus!
