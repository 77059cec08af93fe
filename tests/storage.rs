use anchorkit::keys::{TAG_ADMIN, TAG_ATTESTATION, TAG_ATTESTOR, TAG_COUNTER, TAG_USED_HASH};
use anchorkit::store::{KvStore, Stored};
use anchorkit::storage::{INSTANCE_LIFETIME, PERSISTENT_LIFETIME};
use anchorkit::{Address, Attestation, Error, Storage, StorageKey};

fn addr(tag: u8) -> Address {
    Address::new(vec![tag, tag, tag])
}

#[test]
fn storage_keys_are_tagged() {
    assert_eq!(StorageKey::Admin.to_storage_key(), vec![TAG_ADMIN]);
    assert_eq!(StorageKey::Counter.to_storage_key(), vec![TAG_COUNTER]);
    assert_eq!(StorageKey::Attestor(addr(5)).to_storage_key(), vec![TAG_ATTESTOR, 5, 5, 5]);
    assert_eq!(
        StorageKey::Attestation(0x0102030405060708).to_storage_key(),
        vec![TAG_ATTESTATION, 1, 2, 3, 4, 5, 6, 7, 8]
    );
    assert_eq!(StorageKey::UsedHash(vec![9, 9]).to_storage_key(), vec![TAG_USED_HASH, 9, 9]);
}

#[test]
fn storage_keys_distinct_across_families() {
    let keys = vec![
        StorageKey::Admin.to_storage_key(),
        StorageKey::Counter.to_storage_key(),
        StorageKey::Attestor(Address::new(vec![])).to_storage_key(),
        StorageKey::Attestation(0).to_storage_key(),
        StorageKey::UsedHash(vec![]).to_storage_key(),
        StorageKey::Attestor(Address::new(vec![0; 8])).to_storage_key(),
        StorageKey::UsedHash(vec![0; 8]).to_storage_key(),
    ];
    for i in 0..keys.len() {
        for j in 0..keys.len() {
            if i != j {
                assert_ne!(keys[i], keys[j]);
            }
        }
    }
}

#[test]
fn kv_store_set_get_replace() {
    let mut s = KvStore::new();
    assert!(!s.has(&[1]));
    s.set(vec![1], Stored::Counter(4), 10);
    s.set(vec![2], Stored::Flag(true), 11);
    assert!(matches!(s.get(&[1]), Some(Stored::Counter(4))));
    assert_eq!(s.live_until(&[1]), Some(10));
    s.set(vec![1], Stored::Counter(5), 12);
    assert!(matches!(s.get(&[1]), Some(Stored::Counter(5))));
    assert_eq!(s.live_until(&[1]), Some(12));
    assert!(matches!(s.get(&[2]), Some(Stored::Flag(true))));
    assert!(s.get(&[3]).is_none());
    assert_eq!(s.live_until(&[3]), None);
}

#[test]
fn counter_defaults_to_zero_and_increments() {
    let mut s = Storage::new();
    assert_eq!(s.peek_counter(), 0);
    assert_eq!(s.get_and_increment_counter(1), 0);
    assert_eq!(s.get_and_increment_counter(1), 1);
    assert_eq!(s.get_and_increment_counter(1), 2);
    assert_eq!(s.peek_counter(), 3);
}

#[test]
fn admin_round_trip() {
    let mut s = Storage::new();
    assert!(!s.has_admin());
    assert_eq!(s.get_admin().unwrap_err(), Error::NotInitialized);
    s.set_admin(&addr(1), 5);
    assert!(s.has_admin());
    assert_eq!(s.get_admin().unwrap().bytes, vec![1, 1, 1]);
}

#[test]
fn attestor_flags_and_hashes_are_separate() {
    let mut s = Storage::new();
    s.set_attestor(&addr(1), true, 5);
    assert!(s.is_attestor(&addr(1)));
    assert!(!s.is_attestor(&addr(2)));
    assert!(!s.is_hash_used(&vec![1, 1, 1]));
    s.mark_hash_used(&vec![2, 2, 2], 5);
    assert!(s.is_hash_used(&vec![2, 2, 2]));
    assert!(!s.is_attestor(&addr(2)));
    s.set_attestor(&addr(1), false, 5);
    assert!(!s.is_attestor(&addr(1)));
}

#[test]
fn attestation_round_trip() {
    let mut s = Storage::new();
    let a = Attestation {
        id: 3,
        issuer: addr(1),
        subject: addr(2),
        timestamp: 77,
        payload_hash: vec![4; 32],
        signature: vec![5, 6],
    };
    assert_eq!(s.get_attestation(3).unwrap_err(), Error::AttestationNotFound);
    s.set_attestation(3, &a, 9);
    let got = s.get_attestation(3).unwrap();
    assert_eq!(got.id, 3);
    assert_eq!(got.issuer.bytes, vec![1, 1, 1]);
    assert_eq!(got.subject.bytes, vec![2, 2, 2]);
    assert_eq!(got.timestamp, 77);
    assert_eq!(got.payload_hash, vec![4; 32]);
    assert_eq!(got.signature, vec![5, 6]);
    assert_eq!(s.get_attestation(4).unwrap_err(), Error::AttestationNotFound);
}

#[test]
fn address_equality_and_copy() {
    let a = Address::new(vec![1, 2, 3]);
    assert!(a.same_as(&Address::new(vec![1, 2, 3])));
    assert!(!a.same_as(&Address::new(vec![1, 2])));
    assert!(!a.same_as(&Address::new(vec![1, 2, 4])));
    assert_eq!(a.duplicate().bytes, vec![1, 2, 3]);
}

#[test]
fn lifetime_constants() {
    assert_eq!(INSTANCE_LIFETIME, 518400);
    assert_eq!(PERSISTENT_LIFETIME, 1555200);
}

#[test]
fn writes_refresh_expiry_by_class() {
    let mut s = Storage::new();
    assert_eq!(s.live_until(&StorageKey::Admin), None);
    s.set_admin(&addr(1), 100);
    assert_eq!(s.live_until(&StorageKey::Admin), Some(100 + INSTANCE_LIFETIME as u64));
    s.get_and_increment_counter(200);
    assert_eq!(s.live_until(&StorageKey::Counter), Some(200 + INSTANCE_LIFETIME as u64));
    s.set_attestor(&addr(2), true, 300);
    assert_eq!(s.live_until(&StorageKey::Attestor(addr(2))), Some(300 + PERSISTENT_LIFETIME as u64));
    s.mark_hash_used(&vec![7; 32], 400);
    assert_eq!(s.live_until(&StorageKey::UsedHash(vec![7; 32])), Some(400 + PERSISTENT_LIFETIME as u64));
    assert_eq!(s.live_until(&StorageKey::Attestation(0)), None);
    s.set_attestor(&addr(2), false, 50);
    assert_eq!(s.live_until(&StorageKey::Attestor(addr(2))), Some(300 + PERSISTENT_LIFETIME as u64));
    s.set_attestor(&addr(2), true, u32::MAX);
    assert_eq!(
        s.live_until(&StorageKey::Attestor(addr(2))),
        Some(u32::MAX as u64 + PERSISTENT_LIFETIME as u64)
    );
}
