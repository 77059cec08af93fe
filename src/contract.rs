use vstd::prelude::*;

use crate::errors::Error;
use crate::events::{AttestationRecorded, AttestorAdded, AttestorRemoved};
use crate::keys::KeyView;
use crate::storage::{after_write, attestor_in, Storage, StorageView};
use crate::store::StoredView;
use crate::types::{copy_bytes, Address, Attestation, AttestationView};

verus! {

/// Length of a payload hash in bytes.
pub const HASH_LEN: usize = 32;

/// What the host tells a call about the ledger it runs in.
#[derive(Clone, Copy, Debug, PartialEq, Eq, Structural)]
pub struct LedgerInfo {
    /// The current time.
    pub timestamp: u64,
    /// The current ledger sequence number, in which expiry horizons count.
    pub sequence: u32,
}

/// Why `initialize` fails in state `s`, if it does.
pub open spec fn initialize_error(s: StorageView) -> Option<Error> {
    if s.admin is Some {
        Some(Error::AlreadyInitialized)
    } else {
        None
    }
}

/// The state after `initialize(admin)`.
pub open spec fn initialize_next(s: StorageView, admin: Seq<u8>, ledger: LedgerInfo) -> StorageView {
    if initialize_error(s) is None {
        after_write(s, KeyView::Admin, StoredView::Address(admin), ledger.sequence)
    } else {
        s
    }
}

/// Why a registry change by `caller` fails in state `s`, before the target's
/// own flag is looked at.
pub open spec fn admin_error(s: StorageView, caller: Seq<u8>) -> Option<Error> {
    if s.admin is None {
        Some(Error::NotInitialized)
    } else if s.admin != Some(caller) {
        Some(Error::UnauthorizedAttestor)
    } else {
        None
    }
}

/// Why `add_attestor(caller, target)` fails in state `s`, if it does.
pub open spec fn add_error(s: StorageView, caller: Seq<u8>, target: Seq<u8>) -> Option<Error> {
    if admin_error(s, caller) is Some {
        admin_error(s, caller)
    } else if attestor_in(s, target) {
        Some(Error::AttestorAlreadyRegistered)
    } else {
        None
    }
}

/// The state after `add_attestor(caller, target)`.
pub open spec fn add_next(s: StorageView, caller: Seq<u8>, target: Seq<u8>, ledger: LedgerInfo) -> StorageView {
    if add_error(s, caller, target) is None {
        after_write(s, KeyView::Attestor(target), StoredView::Flag(true), ledger.sequence)
    } else {
        s
    }
}

/// Why `remove_attestor(caller, target)` fails in state `s`, if it does.
pub open spec fn remove_error(s: StorageView, caller: Seq<u8>, target: Seq<u8>) -> Option<Error> {
    if admin_error(s, caller) is Some {
        admin_error(s, caller)
    } else if !attestor_in(s, target) {
        Some(Error::AttestorNotRegistered)
    } else {
        None
    }
}

/// The state after `remove_attestor(caller, target)`: the flag is kept, set
/// to false.
pub open spec fn remove_next(s: StorageView, caller: Seq<u8>, target: Seq<u8>, ledger: LedgerInfo) -> StorageView {
    if remove_error(s, caller, target) is None {
        after_write(s, KeyView::Attestor(target), StoredView::Flag(false), ledger.sequence)
    } else {
        s
    }
}

/// Why `record_attestation` fails in state `s`, if it does. The checks come
/// in this order: initialized, caller is an attestor, timestamp, hash length,
/// replay.
pub open spec fn record_error(
    s: StorageView,
    caller: Seq<u8>,
    timestamp: u64,
    payload_hash: Seq<u8>,
    ledger: LedgerInfo,
) -> Option<Error> {
    if s.admin is None {
        Some(Error::NotInitialized)
    } else if !attestor_in(s, caller) {
        Some(Error::UnauthorizedAttestor)
    } else if timestamp == 0 || timestamp > ledger.timestamp {
        Some(Error::InvalidTimestamp)
    } else if payload_hash.len() != HASH_LEN {
        Some(Error::InvalidPublicKey)
    } else if s.used_hashes.contains(payload_hash) {
        Some(Error::ReplayAttack)
    } else {
        None
    }
}

/// The attestation that a successful `record_attestation` in state `s` stores.
pub open spec fn new_attestation(
    s: StorageView,
    issuer: Seq<u8>,
    subject: Seq<u8>,
    timestamp: u64,
    payload_hash: Seq<u8>,
    signature: Seq<u8>,
) -> AttestationView {
    AttestationView { id: s.counter, issuer, subject, timestamp, payload_hash, signature }
}

/// The state after `record_attestation`: on success the counter advances,
/// the attestation is stored under the identifier it had, and the hash is
/// marked used.
pub open spec fn record_next(
    s: StorageView,
    caller: Seq<u8>,
    issuer: Seq<u8>,
    subject: Seq<u8>,
    timestamp: u64,
    payload_hash: Seq<u8>,
    signature: Seq<u8>,
    ledger: LedgerInfo,
) -> StorageView {
    if record_error(s, caller, timestamp, payload_hash, ledger) is None {
        let id = s.counter;
        let a = new_attestation(s, issuer, subject, timestamp, payload_hash, signature);
        let s1 = after_write(s, KeyView::Counter, StoredView::Counter((id + 1) as u64), ledger.sequence);
        let s2 = after_write(s1, KeyView::Attestation(id), StoredView::Record(a), ledger.sequence);
        after_write(s2, KeyView::UsedHash(payload_hash), StoredView::Flag(true), ledger.sequence)
    } else {
        s
    }
}

/// The attestation registry: an admin, the attestors it authorizes, and the
/// attestations they record, with replay protection on payload hashes.
pub struct AnchorKit {
    storage: Storage,
}

impl View for AnchorKit {
    type V = StorageView;

    closed spec fn view(&self) -> StorageView {
        self.storage@
    }
}

impl AnchorKit {
    pub closed spec fn wf(&self) -> bool {
        self.storage.wf()
    }

    /// A registry with no admin, no attestors and no attestations.
    pub fn new() -> (r: AnchorKit)
        ensures
            r.wf(),
            r@.admin is None,
            r@.counter == 0,
            r@.attestors == Map::<Seq<u8>, bool>::empty(),
            r@.attestations == Map::<u64, AttestationView>::empty(),
            r@.used_hashes == Set::<Seq<u8>>::empty(),
            r@.live_until == Map::<KeyView, u64>::empty(),
    {
        AnchorKit { storage: Storage::new() }
    }

    /// Sets the admin; fails with `AlreadyInitialized` where one is set.
    pub fn initialize(&mut self, admin: &Address, ledger: LedgerInfo) -> (r: Result<(), Error>)
        requires
            old(self).wf(),
        ensures
            final(self).wf(),
            final(self)@ == initialize_next(old(self)@, admin@, ledger),
            match initialize_error(old(self)@) {
                Some(e) => r == Err::<(), Error>(e) && *final(self) == *old(self),
                None => r is Ok,
            },
    {
        if self.storage.has_admin() {
            return Err(Error::AlreadyInitialized);
        }
        self.storage.set_admin(admin, ledger.sequence);
        Ok(())
    }

    fn check_admin(&self, caller: &Address) -> (r: Result<(), Error>)
        requires
            self.wf(),
        ensures
            match admin_error(self@, caller@) {
                Some(e) => r == Err::<(), Error>(e),
                None => r is Ok,
            },
    {
        let admin = self.storage.get_admin()?;
        if !admin.same_as(caller) {
            return Err(Error::UnauthorizedAttestor);
        }
        Ok(())
    }

    /// Makes `attestor` an attestor. Only the admin may; fails with
    /// `AttestorAlreadyRegistered` where it already is one.
    pub fn add_attestor(&mut self, caller: &Address, attestor: &Address, ledger: LedgerInfo) -> (r: Result<
        AttestorAdded,
        Error,
    >)
        requires
            old(self).wf(),
        ensures
            final(self).wf(),
            final(self)@ == add_next(old(self)@, caller@, attestor@, ledger),
            match add_error(old(self)@, caller@, attestor@) {
                Some(e) => r matches Err(x) && x == e && *final(self) == *old(self),
                None => r matches Ok(ev) && ev.attestor@ == attestor@,
            },
    {
        self.check_admin(caller)?;
        if self.storage.is_attestor(attestor) {
            return Err(Error::AttestorAlreadyRegistered);
        }
        self.storage.set_attestor(attestor, true, ledger.sequence);
        Ok(AttestorAdded { attestor: attestor.duplicate() })
    }

    /// Stops `attestor` being an attestor. Only the admin may; fails with
    /// `AttestorNotRegistered` where it is none.
    pub fn remove_attestor(&mut self, caller: &Address, attestor: &Address, ledger: LedgerInfo) -> (r: Result<
        AttestorRemoved,
        Error,
    >)
        requires
            old(self).wf(),
        ensures
            final(self).wf(),
            final(self)@ == remove_next(old(self)@, caller@, attestor@, ledger),
            match remove_error(old(self)@, caller@, attestor@) {
                Some(e) => r matches Err(x) && x == e && *final(self) == *old(self),
                None => r matches Ok(ev) && ev.attestor@ == attestor@,
            },
    {
        self.check_admin(caller)?;
        if !self.storage.is_attestor(attestor) {
            return Err(Error::AttestorNotRegistered);
        }
        self.storage.set_attestor(attestor, false, ledger.sequence);
        Ok(AttestorRemoved { attestor: attestor.duplicate() })
    }

    /// Records an attestation by `issuer` about `subject`, submitted by
    /// `caller`, and returns the announcement of it, with the identifier it
    /// was given.
    pub fn record_attestation(
        &mut self,
        caller: &Address,
        issuer: &Address,
        subject: &Address,
        timestamp: u64,
        payload_hash: &Vec<u8>,
        signature: &Vec<u8>,
        ledger: LedgerInfo,
    ) -> (r: Result<AttestationRecorded, Error>)
        requires
            old(self).wf(),
            old(self)@.counter < u64::MAX,
        ensures
            final(self).wf(),
            final(self)@ == record_next(
                old(self)@,
                caller@,
                issuer@,
                subject@,
                timestamp,
                payload_hash@,
                signature@,
                ledger,
            ),
            match record_error(old(self)@, caller@, timestamp, payload_hash@, ledger) {
                Some(e) => r matches Err(x) && x == e && *final(self) == *old(self),
                None => r matches Ok(ev) && ev.id == old(self)@.counter && ev.issuer@ == issuer@
                    && ev.subject@ == subject@ && ev.timestamp == timestamp && ev.payload_hash@
                    == payload_hash@,
            },
    {
        if !self.storage.has_admin() {
            return Err(Error::NotInitialized);
        }
        if !self.storage.is_attestor(caller) {
            return Err(Error::UnauthorizedAttestor);
        }
        if timestamp == 0 || timestamp > ledger.timestamp {
            return Err(Error::InvalidTimestamp);
        }
        if payload_hash.len() != HASH_LEN {
            return Err(Error::InvalidPublicKey);
        }
        if self.storage.is_hash_used(payload_hash) {
            return Err(Error::ReplayAttack);
        }
        let id = self.storage.get_and_increment_counter(ledger.sequence);
        let attestation = Attestation {
            id,
            issuer: issuer.duplicate(),
            subject: subject.duplicate(),
            timestamp,
            payload_hash: copy_bytes(payload_hash),
            signature: copy_bytes(signature),
        };
        self.storage.set_attestation(id, &attestation, ledger.sequence);
        self.storage.mark_hash_used(payload_hash, ledger.sequence);
        Ok(AttestationRecorded {
            id,
            issuer: attestation.issuer,
            subject: attestation.subject,
            timestamp,
            payload_hash: attestation.payload_hash,
        })
    }

    /// The attestation with identifier `id`, or `AttestationNotFound`.
    pub fn get_attestation(&self, id: u64) -> (r: Result<Attestation, Error>)
        requires
            self.wf(),
        ensures
            match r {
                Ok(x) => self@.attestations.contains_key(id) && x@ == self@.attestations[id],
                Err(e) => !self@.attestations.contains_key(id) && e == Error::AttestationNotFound,
            },
    {
        self.storage.get_attestation(id)
    }

    /// The admin, or `NotInitialized`.
    pub fn get_admin(&self) -> (r: Result<Address, Error>)
        requires
            self.wf(),
        ensures
            match self@.admin {
                Some(a) => r matches Ok(x) && x@ == a,
                None => r == Err::<Address, Error>(Error::NotInitialized),
            },
    {
        self.storage.get_admin()
    }

    /// The identifier that the next recorded attestation gets.
    pub fn next_id(&self) -> (r: u64)
        requires
            self.wf(),
        ensures
            r == self@.counter,
    {
        self.storage.peek_counter()
    }

    /// Whether `identity` is an authorized attestor.
    pub fn is_attestor(&self, identity: &Address) -> (r: bool)
        requires
            self.wf(),
        ensures
            r == attestor_in(self@, identity@),
    {
        self.storage.is_attestor(identity)
    }
}

} // verus!
