//! An append-only, access-controlled attestation registry: an admin
//! authorizes attestors, attestors record attestations about subjects, and
//! each payload hash can be recorded once.

pub mod errors;
pub mod types;
pub mod keys;
pub mod store;
pub mod storage;
pub mod events;
pub mod contract;
pub mod laws;

pub use contract::{AnchorKit, LedgerInfo};
pub use errors::Error;
pub use events::{AttestationRecorded, AttestorAdded, AttestorRemoved};
pub use keys::StorageKey;
pub use storage::Storage;
pub use types::{Address, Attestation};
