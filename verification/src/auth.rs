//! Shared-secret credential validation: a presented credential is accepted
//! exactly when it is byte-for-byte equal to the configured secret.

use vstd::prelude::*;

verus! {

/// Outcome of validating the credential presented with a request.
#[derive(Clone, Copy, Debug, PartialEq, Eq, Structural)]
pub enum AuthResult {
    /// The presented credential equals the configured secret.
    Accepted,
    /// No credential was presented at all.
    MissingCredential,
    /// A credential was presented but does not equal the configured secret.
    InvalidCredential,
}

/// The view of an optionally presented credential.
pub open spec fn opt_view(presented: Option<&str>) -> Option<Seq<char>> {
    match presented {
        None => None,
        Some(p) => Some(p@),
    }
}

/// What validation returns for a given presented credential and secret:
/// absence yields `MissingCredential`, inequality `InvalidCredential`,
/// and exact equality `Accepted`.
pub open spec fn validate_spec(presented: Option<Seq<char>>, secret: Seq<char>) -> AuthResult {
    match presented {
        None => AuthResult::MissingCredential,
        Some(p) => if p == secret {
            AuthResult::Accepted
        } else {
            AuthResult::InvalidCredential
        },
    }
}

/// Validate the credential presented with a request against the configured
/// secret. Equality of the two strings is the sole criterion.
pub fn validate_api_key(presented: Option<&str>, secret: &str) -> (r: AuthResult)
    ensures
        r == validate_spec(opt_view(presented), secret@),
{
    match presented {
        None => AuthResult::MissingCredential,
        Some(p) => {
            let presented_owned: String = p.to_owned();
            let secret_owned: String = secret.to_owned();
            if presented_owned == secret_owned {
                AuthResult::Accepted
            } else {
                AuthResult::InvalidCredential
            }
        },
    }
}

} // verus!
