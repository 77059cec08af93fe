use vstd::prelude::*;

verus! {

/// Error kinds of the attestation registry. Each kind has a stable numeric
/// code, given by [`Error::code`].
#[derive(Clone, Copy, Debug, PartialEq, Eq, Structural)]
pub enum Error {
    /// The registry already has an admin.
    AlreadyInitialized,
    /// The registry has no admin yet.
    NotInitialized,
    /// The caller lacks the admin or attestor capability that the call needs.
    UnauthorizedAttestor,
    /// The attestor is already registered.
    AttestorAlreadyRegistered,
    /// The attestor is not registered.
    AttestorNotRegistered,
    /// An attestation with this payload hash was already recorded.
    ReplayAttack,
    /// The timestamp is zero or later than the current ledger time.
    InvalidTimestamp,
    /// No attestation is stored under the given identifier.
    AttestationNotFound,
    /// A fixed-size field (the payload hash) has the wrong length.
    InvalidPublicKey,
}

pub open spec fn error_code(e: Error) -> u32 {
    match e {
        Error::AlreadyInitialized => 100,
        Error::NotInitialized => 101,
        Error::UnauthorizedAttestor => 102,
        Error::AttestorAlreadyRegistered => 103,
        Error::AttestorNotRegistered => 104,
        Error::ReplayAttack => 105,
        Error::InvalidTimestamp => 106,
        Error::AttestationNotFound => 107,
        Error::InvalidPublicKey => 108,
    }
}

impl Error {
    /// The stable numeric code of this error.
    pub fn code(&self) -> (r: u32)
        ensures
            r == error_code(*self),
    {
        match self {
            Error::AlreadyInitialized => 100,
            Error::NotInitialized => 101,
            Error::UnauthorizedAttestor => 102,
            Error::AttestorAlreadyRegistered => 103,
            Error::AttestorNotRegistered => 104,
            Error::ReplayAttack => 105,
            Error::InvalidTimestamp => 106,
            Error::AttestationNotFound => 107,
            Error::InvalidPublicKey => 108,
        }
    }
}

} // verus!
