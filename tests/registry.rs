use anchorkit::contract::HASH_LEN;
use anchorkit::storage::{INSTANCE_LIFETIME, PERSISTENT_LIFETIME};
use anchorkit::{Address, AnchorKit, Error, LedgerInfo};

fn addr(tag: u8) -> Address {
    Address::new(vec![tag; 8])
}

fn hash(tag: u8) -> Vec<u8> {
    vec![tag; 32]
}

fn ledger(timestamp: u64) -> LedgerInfo {
    LedgerInfo { timestamp, sequence: 100 }
}

fn initialized(admin: &Address) -> AnchorKit {
    let mut kit = AnchorKit::new();
    kit.initialize(admin, ledger(2000)).unwrap();
    kit
}

#[test]
fn end_to_end_scenario() {
    let a = addr(1);
    let b = addr(2);
    let c = addr(3);
    let h = hash(7);
    let sig = vec![9u8, 8, 7];
    let mut kit = AnchorKit::new();
    assert!(kit.initialize(&a, ledger(2000)).is_ok());
    let added = kit.add_attestor(&a, &b, ledger(2000)).unwrap();
    assert_eq!(added.attestor.bytes, b.bytes);
    let ev = kit.record_attestation(&b, &b, &c, 1000, &h, &sig, ledger(2000)).unwrap();
    assert_eq!(ev.id, 0);
    assert_eq!(ev.issuer.bytes, b.bytes);
    assert_eq!(ev.subject.bytes, c.bytes);
    assert_eq!(ev.timestamp, 1000);
    assert_eq!(ev.payload_hash, h);
    let got = kit.get_attestation(0).unwrap();
    assert_eq!(got.id, 0);
    assert_eq!(got.issuer.bytes, b.bytes);
    assert_eq!(got.subject.bytes, c.bytes);
    assert_eq!(got.timestamp, 1000);
    assert_eq!(got.payload_hash, h);
    assert_eq!(got.signature, sig);
    let again = kit.record_attestation(&b, &b, &c, 1000, &h, &sig, ledger(2000));
    assert_eq!(again.unwrap_err(), Error::ReplayAttack);
}

#[test]
fn identifiers_increase_by_one() {
    let a = addr(1);
    let mut kit = initialized(&a);
    kit.add_attestor(&a, &a, ledger(2000)).unwrap();
    let mut prev: Option<u64> = None;
    for i in 0..5u8 {
        let ev = kit.record_attestation(&a, &a, &a, 10, &hash(i), &vec![], ledger(2000)).unwrap();
        assert_eq!(ev.id, i as u64);
        if let Some(p) = prev {
            assert!(ev.id > p);
        }
        prev = Some(ev.id);
    }
    assert_eq!(kit.next_id(), 5);
}

#[test]
fn replay_leaves_state_unchanged() {
    let a = addr(1);
    let b = addr(2);
    let mut kit = initialized(&a);
    kit.add_attestor(&a, &b, ledger(2000)).unwrap();
    kit.record_attestation(&b, &b, &addr(3), 5, &hash(1), &vec![1], ledger(2000)).unwrap();
    let r = kit.record_attestation(&b, &addr(4), &addr(5), 6, &hash(1), &vec![2, 3], ledger(2000));
    assert_eq!(r.unwrap_err(), Error::ReplayAttack);
    assert_eq!(kit.next_id(), 1);
    assert_eq!(kit.get_attestation(1).unwrap_err(), Error::AttestationNotFound);
    assert_eq!(kit.get_attestation(0).unwrap().signature, vec![1]);
}

#[test]
fn add_and_remove_attestor() {
    let a = addr(1);
    let x = addr(2);
    let mut kit = initialized(&a);
    assert!(!kit.is_attestor(&x));
    kit.add_attestor(&a, &x, ledger(2000)).unwrap();
    assert!(kit.is_attestor(&x));
    assert_eq!(kit.add_attestor(&a, &x, ledger(2000)).unwrap_err(), Error::AttestorAlreadyRegistered);
    let removed = kit.remove_attestor(&a, &x, ledger(2000)).unwrap();
    assert_eq!(removed.attestor.bytes, x.bytes);
    assert!(!kit.is_attestor(&x));
    assert_eq!(kit.remove_attestor(&a, &x, ledger(2000)).unwrap_err(), Error::AttestorNotRegistered);
    kit.add_attestor(&a, &x, ledger(2000)).unwrap();
    assert!(kit.is_attestor(&x));
}

#[test]
fn non_admin_cannot_change_attestors() {
    let a = addr(1);
    let x = addr(2);
    let mut kit = initialized(&a);
    assert_eq!(kit.add_attestor(&x, &x, ledger(2000)).unwrap_err(), Error::UnauthorizedAttestor);
    assert!(!kit.is_attestor(&x));
    kit.add_attestor(&a, &x, ledger(2000)).unwrap();
    assert_eq!(kit.remove_attestor(&x, &x, ledger(2000)).unwrap_err(), Error::UnauthorizedAttestor);
    assert!(kit.is_attestor(&x));
}

#[test]
fn initialize_twice_fails() {
    let a = addr(1);
    let mut kit = initialized(&a);
    assert_eq!(kit.initialize(&addr(2), ledger(2000)).unwrap_err(), Error::AlreadyInitialized);
    assert_eq!(kit.get_admin().unwrap().bytes, a.bytes);
}

#[test]
fn calls_before_initialize_fail() {
    let a = addr(1);
    let mut kit = AnchorKit::new();
    assert_eq!(kit.get_admin().unwrap_err(), Error::NotInitialized);
    assert_eq!(kit.add_attestor(&a, &a, ledger(2000)).unwrap_err(), Error::NotInitialized);
    assert_eq!(kit.remove_attestor(&a, &a, ledger(2000)).unwrap_err(), Error::NotInitialized);
    let r = kit.record_attestation(&a, &a, &a, 10, &hash(1), &vec![], ledger(2000));
    assert_eq!(r.unwrap_err(), Error::NotInitialized);
}

#[test]
fn unregistered_caller_cannot_record() {
    let a = addr(1);
    let mut kit = initialized(&a);
    let r = kit.record_attestation(&addr(2), &addr(2), &a, 10, &hash(1), &vec![], ledger(2000));
    assert_eq!(r.unwrap_err(), Error::UnauthorizedAttestor);
    assert_eq!(kit.next_id(), 0);
}

#[test]
fn timestamp_bounds() {
    let a = addr(1);
    let mut kit = initialized(&a);
    kit.add_attestor(&a, &a, ledger(2000)).unwrap();
    let zero = kit.record_attestation(&a, &a, &a, 0, &hash(1), &vec![], ledger(2000));
    assert_eq!(zero.unwrap_err(), Error::InvalidTimestamp);
    let future = kit.record_attestation(&a, &a, &a, 2001, &hash(1), &vec![], ledger(2000));
    assert_eq!(future.unwrap_err(), Error::InvalidTimestamp);
    assert_eq!(kit.next_id(), 0);
    assert_eq!(kit.get_attestation(0).unwrap_err(), Error::AttestationNotFound);
    let now = kit.record_attestation(&a, &a, &a, 2000, &hash(1), &vec![], ledger(2000)).unwrap();
    assert_eq!(now.id, 0);
}

#[test]
fn malformed_hash_rejected() {
    let a = addr(1);
    let mut kit = initialized(&a);
    kit.add_attestor(&a, &a, ledger(2000)).unwrap();
    let short = kit.record_attestation(&a, &a, &a, 10, &vec![1u8; 31], &vec![], ledger(2000));
    assert_eq!(short.unwrap_err(), Error::InvalidPublicKey);
    let long = kit.record_attestation(&a, &a, &a, 10, &vec![1u8; 33], &vec![], ledger(2000));
    assert_eq!(long.unwrap_err(), Error::InvalidPublicKey);
    let empty = kit.record_attestation(&a, &a, &a, 10, &vec![], &vec![], ledger(2000));
    assert_eq!(empty.unwrap_err(), Error::InvalidPublicKey);
    assert_eq!(HASH_LEN, 32);
}

#[test]
fn unknown_attestation_not_found() {
    let kit = AnchorKit::new();
    assert_eq!(kit.get_attestation(0).unwrap_err(), Error::AttestationNotFound);
    assert_eq!(kit.get_attestation(u64::MAX).unwrap_err(), Error::AttestationNotFound);
}

#[test]
fn error_codes() {
    assert_eq!(Error::AlreadyInitialized.code(), 100);
    assert_eq!(Error::NotInitialized.code(), 101);
    assert_eq!(Error::UnauthorizedAttestor.code(), 102);
    assert_eq!(Error::AttestorAlreadyRegistered.code(), 103);
    assert_eq!(Error::AttestorNotRegistered.code(), 104);
    assert_eq!(Error::ReplayAttack.code(), 105);
    assert_eq!(Error::InvalidTimestamp.code(), 106);
    assert_eq!(Error::AttestationNotFound.code(), 107);
    assert_eq!(Error::InvalidPublicKey.code(), 108);
}

#[test]
fn lifetimes_are_thirty_and_ninety_days() {
    assert_eq!(INSTANCE_LIFETIME, 30 * 17280);
    assert_eq!(PERSISTENT_LIFETIME, 90 * 17280);
}
