use vstd::prelude::*;

use crate::types::Address;

verus! {

/// The logical key of a stored record.
pub enum StorageKey {
    Admin,
    Attestor(Address),
    Counter,
    Attestation(u64),
    UsedHash(Vec<u8>),
}

/// The mathematical value of a [`StorageKey`].
pub enum KeyView {
    Admin,
    Attestor(Seq<u8>),
    Counter,
    Attestation(u64),
    UsedHash(Seq<u8>),
}

impl View for StorageKey {
    type V = KeyView;

    open spec fn view(&self) -> KeyView {
        match self {
            StorageKey::Admin => KeyView::Admin,
            StorageKey::Attestor(a) => KeyView::Attestor(a@),
            StorageKey::Counter => KeyView::Counter,
            StorageKey::Attestation(id) => KeyView::Attestation(*id),
            StorageKey::UsedHash(h) => KeyView::UsedHash(h@),
        }
    }
}

pub const TAG_ADMIN: u8 = 0;
pub const TAG_ATTESTOR: u8 = 1;
pub const TAG_COUNTER: u8 = 2;
pub const TAG_ATTESTATION: u8 = 3;
pub const TAG_USED_HASH: u8 = 4;

/// The eight bytes of `n`, most significant first.
pub open spec fn u64_be(n: u64) -> Seq<u8> {
    seq![
        (n >> 56u64) as u8,
        (n >> 48u64) as u8,
        (n >> 40u64) as u8,
        (n >> 32u64) as u8,
        (n >> 24u64) as u8,
        (n >> 16u64) as u8,
        (n >> 8u64) as u8,
        n as u8,
    ]
}

/// The storage key of a logical key: a tag byte for the family, followed by
/// the parameter's bytes.
pub open spec fn key_bytes(k: KeyView) -> Seq<u8> {
    match k {
        KeyView::Admin => seq![TAG_ADMIN],
        KeyView::Attestor(a) => seq![TAG_ATTESTOR] + a,
        KeyView::Counter => seq![TAG_COUNTER],
        KeyView::Attestation(id) => seq![TAG_ATTESTATION] + u64_be(id),
        KeyView::UsedHash(h) => seq![TAG_USED_HASH] + h,
    }
}

proof fn lemma_u64_be_injective(a: u64, b: u64)
    requires
        u64_be(a) == u64_be(b),
    ensures
        a == b,
{
    assert(u64_be(a)[0] == u64_be(b)[0]);
    assert(u64_be(a)[1] == u64_be(b)[1]);
    assert(u64_be(a)[2] == u64_be(b)[2]);
    assert(u64_be(a)[3] == u64_be(b)[3]);
    assert(u64_be(a)[4] == u64_be(b)[4]);
    assert(u64_be(a)[5] == u64_be(b)[5]);
    assert(u64_be(a)[6] == u64_be(b)[6]);
    assert(u64_be(a)[7] == u64_be(b)[7]);
    assert(a == b) by (bit_vector)
        requires
            (a >> 56u64) as u8 == (b >> 56u64) as u8,
            (a >> 48u64) as u8 == (b >> 48u64) as u8,
            (a >> 40u64) as u8 == (b >> 40u64) as u8,
            (a >> 32u64) as u8 == (b >> 32u64) as u8,
            (a >> 24u64) as u8 == (b >> 24u64) as u8,
            (a >> 16u64) as u8 == (b >> 16u64) as u8,
            (a >> 8u64) as u8 == (b >> 8u64) as u8,
            a as u8 == b as u8,
    ;
}

/// Distinct logical keys have distinct storage keys: no two records of the
/// store can collide, whatever their family or parameter.
pub proof fn lemma_key_bytes_injective(a: KeyView, b: KeyView)
    ensures
        key_bytes(a) == key_bytes(b) ==> a == b,
{
    if key_bytes(a) == key_bytes(b) {
        let s = key_bytes(a);
        assert(key_bytes(a)[0] == key_bytes(b)[0]);
        match (a, b) {
            (KeyView::Attestor(x), KeyView::Attestor(y)) => {
                assert(x =~= s.subrange(1, s.len() as int));
                assert(y =~= s.subrange(1, s.len() as int));
            },
            (KeyView::Attestation(x), KeyView::Attestation(y)) => {
                assert(u64_be(x) =~= s.subrange(1, 9));
                assert(u64_be(y) =~= s.subrange(1, 9));
                lemma_u64_be_injective(x, y);
            },
            (KeyView::UsedHash(x), KeyView::UsedHash(y)) => {
                assert(x =~= s.subrange(1, s.len() as int));
                assert(y =~= s.subrange(1, s.len() as int));
            },
            _ => {},
        }
    }
}

fn push_all(out: &mut Vec<u8>, b: &Vec<u8>)
    ensures
        final(out)@ == old(out)@ + b@,
{
    let mut i: usize = 0;
    while i < b.len()
        invariant
            i <= b@.len(),
            out@ == old(out)@ + b@.subrange(0, i as int),
        decreases b@.len() - i,
    {
        out.push(b[i]);
        i += 1;
        assert(out@ =~= old(out)@ + b@.subrange(0, i as int));
    }
    assert(b@.subrange(0, b@.len() as int) =~= b@);
}

impl StorageKey {
    /// The storage key of this logical key (see [`key_bytes`]).
    pub fn to_storage_key(&self) -> (r: Vec<u8>)
        ensures
            r@ == key_bytes(self@),
    {
        let mut out: Vec<u8> = Vec::new();
        match self {
            StorageKey::Admin => {
                out.push(TAG_ADMIN);
            },
            StorageKey::Attestor(addr) => {
                out.push(TAG_ATTESTOR);
                push_all(&mut out, &addr.bytes);
            },
            StorageKey::Counter => {
                out.push(TAG_COUNTER);
            },
            StorageKey::Attestation(id) => {
                let n: u64 = *id;
                out.push(TAG_ATTESTATION);
                out.push((n >> 56u64) as u8);
                out.push((n >> 48u64) as u8);
                out.push((n >> 40u64) as u8);
                out.push((n >> 32u64) as u8);
                out.push((n >> 24u64) as u8);
                out.push((n >> 16u64) as u8);
                out.push((n >> 8u64) as u8);
                out.push(n as u8);
            },
            StorageKey::UsedHash(hash) => {
                out.push(TAG_USED_HASH);
                push_all(&mut out, hash);
            },
        }
        assert(out@ =~= key_bytes(self@));
        out
    }
}

} // verus!
