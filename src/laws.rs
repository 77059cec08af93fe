use vstd::prelude::*;

use crate::contract::{
    add_error, add_next, initialize_error, initialize_next, new_attestation, record_error,
    record_next, remove_error, remove_next, LedgerInfo,
};
use crate::errors::Error;
use crate::keys::KeyView;
use crate::storage::{after_write, attestor_in, StorageView};
use crate::store::StoredView;

verus! {

/// Identifiers handed out by successive allocations are strictly increasing,
/// hence pairwise distinct. `states[i]` is the state before the `i`-th
/// allocation, which returned `ids[i]` at ledger `ledgers[i]`.
pub proof fn lemma_allocations_increasing(states: Seq<StorageView>, ids: Seq<u64>, ledgers: Seq<u32>)
    requires
        states.len() == ids.len() + 1,
        ledgers.len() == ids.len(),
        forall|i: int|
            0 <= i < ids.len() ==> states[i].counter < u64::MAX && #[trigger] ids[i] == states[i].counter
                && states[i + 1] == after_write(
                states[i],
                KeyView::Counter,
                StoredView::Counter((ids[i] + 1) as u64),
                ledgers[i],
            ),
    ensures
        forall|i: int, j: int| 0 <= i < j < ids.len() ==> ids[i] < ids[j],
{
    assert forall|i: int, j: int| 0 <= i < j < ids.len() implies ids[i] < ids[j] by {
        lemma_allocations_step(states, ids, ledgers, i, j);
    }
}

proof fn lemma_allocations_step(states: Seq<StorageView>, ids: Seq<u64>, ledgers: Seq<u32>, i: int, j: int)
    requires
        states.len() == ids.len() + 1,
        ledgers.len() == ids.len(),
        forall|i: int|
            0 <= i < ids.len() ==> states[i].counter < u64::MAX && #[trigger] ids[i] == states[i].counter
                && states[i + 1] == after_write(
                states[i],
                KeyView::Counter,
                StoredView::Counter((ids[i] + 1) as u64),
                ledgers[i],
            ),
        0 <= i < j < ids.len(),
    ensures
        ids[i] < ids[j],
    decreases j - i,
{
    assert(ids[j - 1] == states[j - 1].counter);
    assert(ids[j] == states[j].counter);
    if i < j - 1 {
        lemma_allocations_step(states, ids, ledgers, i, j - 1);
    }
}

/// A payload hash is consumed by the first successful recording: a second
/// recording with the same hash fails, whatever its other fields, and with
/// `ReplayAttack` where its caller and timestamp pass the earlier checks.
/// A failed recording leaves the state as it was.
pub proof fn lemma_replay_rejected(
    s: StorageView,
    caller1: Seq<u8>,
    issuer1: Seq<u8>,
    subject1: Seq<u8>,
    timestamp1: u64,
    payload_hash: Seq<u8>,
    signature1: Seq<u8>,
    ledger1: LedgerInfo,
    caller2: Seq<u8>,
    issuer2: Seq<u8>,
    subject2: Seq<u8>,
    timestamp2: u64,
    signature2: Seq<u8>,
    ledger2: LedgerInfo,
)
    requires
        s.counter < u64::MAX,
        record_error(s, caller1, timestamp1, payload_hash, ledger1) is None,
    ensures
        ({
            let s1 = record_next(s, caller1, issuer1, subject1, timestamp1, payload_hash, signature1, ledger1);
            &&& record_error(s1, caller2, timestamp2, payload_hash, ledger2) is Some
            &&& record_next(s1, caller2, issuer2, subject2, timestamp2, payload_hash, signature2, ledger2) == s1
            &&& (attestor_in(s, caller2) && 0 < timestamp2 <= ledger2.timestamp) ==> record_error(
                s1,
                caller2,
                timestamp2,
                payload_hash,
                ledger2,
            ) == Some(Error::ReplayAttack)
        }),
{
    let s1 = record_next(s, caller1, issuer1, subject1, timestamp1, payload_hash, signature1, ledger1);
    assert(s1.used_hashes.contains(payload_hash));
    assert(s1.attestors == s.attestors);
    assert(s1.admin == s.admin);
}

/// The admin's `add_attestor(x)` makes `x` an attestor, and its
/// `remove_attestor(x)` makes `x` none. The same calls by anyone else fail
/// with `UnauthorizedAttestor` and leave the state as it was.
pub proof fn lemma_admin_controls_attestors(s: StorageView, admin: Seq<u8>, other: Seq<u8>, x: Seq<u8>, ledger: LedgerInfo)
    requires
        s.admin == Some(admin),
        other != admin,
    ensures
        attestor_in(add_next(s, admin, x, ledger), x),
        !attestor_in(remove_next(s, admin, x, ledger), x),
        add_error(s, other, x) == Some(Error::UnauthorizedAttestor),
        add_next(s, other, x, ledger) == s,
        remove_error(s, other, x) == Some(Error::UnauthorizedAttestor),
        remove_next(s, other, x, ledger) == s,
{
}

/// `initialize` succeeds at most once: after any `initialize`, another one
/// fails with `AlreadyInitialized`. Before it, every mutating call fails with
/// `NotInitialized`.
pub proof fn lemma_initialize_first(
    s: StorageView,
    admin1: Seq<u8>,
    admin2: Seq<u8>,
    ledger1: LedgerInfo,
    ledger2: LedgerInfo,
    caller: Seq<u8>,
    target: Seq<u8>,
    timestamp: u64,
    payload_hash: Seq<u8>,
)
    ensures
        initialize_error(initialize_next(s, admin1, ledger1)) == Some(Error::AlreadyInitialized),
        initialize_next(initialize_next(s, admin1, ledger1), admin2, ledger2) == initialize_next(s, admin1, ledger1),
        s.admin is None ==> add_error(s, caller, target) == Some(Error::NotInitialized),
        s.admin is None ==> remove_error(s, caller, target) == Some(Error::NotInitialized),
        s.admin is None ==> record_error(s, caller, timestamp, payload_hash, ledger1) == Some(
            Error::NotInitialized,
        ),
{
}

/// A zero timestamp, or one later than the ledger's time, is rejected with
/// `InvalidTimestamp` (for an authorized caller of an initialized registry,
/// where that check is reached), and the state is left as it was.
pub proof fn lemma_bad_timestamp_rejected(
    s: StorageView,
    caller: Seq<u8>,
    issuer: Seq<u8>,
    subject: Seq<u8>,
    timestamp: u64,
    payload_hash: Seq<u8>,
    signature: Seq<u8>,
    ledger: LedgerInfo,
)
    requires
        s.admin is Some,
        attestor_in(s, caller),
        timestamp == 0 || timestamp > ledger.timestamp,
    ensures
        record_error(s, caller, timestamp, payload_hash, ledger) == Some(Error::InvalidTimestamp),
        record_next(s, caller, issuer, subject, timestamp, payload_hash, signature, ledger) == s,
{
}

/// What a successful recording stores comes back unchanged from a lookup by
/// the identifier it was given; identifiers never handed out hold nothing.
pub proof fn lemma_record_round_trip(
    s: StorageView,
    caller: Seq<u8>,
    issuer: Seq<u8>,
    subject: Seq<u8>,
    timestamp: u64,
    payload_hash: Seq<u8>,
    signature: Seq<u8>,
    ledger: LedgerInfo,
)
    requires
        s.counter < u64::MAX,
        record_error(s, caller, timestamp, payload_hash, ledger) is None,
    ensures
        ({
            let s1 = record_next(s, caller, issuer, subject, timestamp, payload_hash, signature, ledger);
            &&& s1.attestations.contains_key(s.counter)
            &&& s1.attestations[s.counter] == new_attestation(
                s,
                issuer,
                subject,
                timestamp,
                payload_hash,
                signature,
            )
            &&& s1.counter == s.counter + 1
            &&& forall|id: u64| id != s.counter ==> s1.attestations.contains_key(id) == s.attestations.contains_key(id)
        }),
{
}

/// Every stored attestation sits under the identifier it carries, and that
/// identifier was handed out already (it is below the counter).
pub open spec fn ids_consistent(s: StorageView) -> bool {
    forall|id: u64| #[trigger] s.attestations.contains_key(id) ==> id < s.counter && s.attestations[id].id == id
}

/// Every operation keeps stored identifiers consistent with the counter, so a
/// new attestation never lands on a stored one; and no operation ever clears
/// a used payload hash or deletes an attestation.
pub proof fn lemma_operations_preserve_consistency(
    s: StorageView,
    caller: Seq<u8>,
    issuer: Seq<u8>,
    subject: Seq<u8>,
    timestamp: u64,
    payload_hash: Seq<u8>,
    signature: Seq<u8>,
    target: Seq<u8>,
    ledger: LedgerInfo,
)
    requires
        ids_consistent(s),
        s.counter < u64::MAX,
    ensures
        ids_consistent(initialize_next(s, caller, ledger)),
        ids_consistent(add_next(s, caller, target, ledger)),
        ids_consistent(remove_next(s, caller, target, ledger)),
        ids_consistent(record_next(s, caller, issuer, subject, timestamp, payload_hash, signature, ledger)),
        !s.attestations.contains_key(s.counter),
        s.used_hashes.subset_of(
            record_next(s, caller, issuer, subject, timestamp, payload_hash, signature, ledger).used_hashes,
        ),
        s.attestations.dom().subset_of(
            record_next(s, caller, issuer, subject, timestamp, payload_hash, signature, ledger).attestations.dom(),
        ),
{
    let s1 = record_next(s, caller, issuer, subject, timestamp, payload_hash, signature, ledger);
    if record_error(s, caller, timestamp, payload_hash, ledger) is None {
        assert forall|id: u64| #[trigger] s1.attestations.contains_key(id) implies id < s1.counter
            && s1.attestations[id].id == id by {
            if id != s.counter {
                assert(s.attestations.contains_key(id));
            }
        }
    }
}

} // verus!
