use vstd::prelude::*;

use crate::types::Address;

verus! {

/// Announces that an identity became an attestor.
#[derive(Debug)]
pub struct AttestorAdded {
    pub attestor: Address,
}

/// Announces that an identity stopped being an attestor.
#[derive(Debug)]
pub struct AttestorRemoved {
    pub attestor: Address,
}

/// Announces a recorded attestation (without its signature).
#[derive(Debug)]
pub struct AttestationRecorded {
    pub id: u64,
    pub issuer: Address,
    pub subject: Address,
    pub timestamp: u64,
    pub payload_hash: Vec<u8>,
}

} // verus!
