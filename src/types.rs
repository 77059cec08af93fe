use vstd::prelude::*;

verus! {

/// An identity: the canonical bytes of a principal as the host supplies it.
/// Two addresses are the same identity exactly when their bytes are equal.
#[derive(Debug)]
pub struct Address {
    pub bytes: Vec<u8>,
}

impl View for Address {
    type V = Seq<u8>;

    open spec fn view(&self) -> Seq<u8> {
        self.bytes@
    }
}

/// Copies a byte vector.
pub fn copy_bytes(b: &Vec<u8>) -> (r: Vec<u8>)
    ensures
        r@ == b@,
{
    let mut r: Vec<u8> = Vec::with_capacity(b.len());
    let mut i: usize = 0;
    while i < b.len()
        invariant
            i <= b@.len(),
            r@ == b@.subrange(0, i as int),
        decreases b@.len() - i,
    {
        r.push(b[i]);
        i += 1;
        assert(r@ =~= b@.subrange(0, i as int));
    }
    assert(r@ =~= b@);
    r
}

/// Compares two byte sequences.
pub fn bytes_equal(a: &[u8], b: &[u8]) -> (r: bool)
    ensures
        r == (a@ == b@),
{
    if a.len() != b.len() {
        return false;
    }
    let mut i: usize = 0;
    while i < a.len()
        invariant
            a@.len() == b@.len(),
            i <= a@.len(),
            forall|j: int| 0 <= j < i ==> a@[j] == b@[j],
        decreases a@.len() - i,
    {
        if a[i] != b[i] {
            return false;
        }
        i += 1;
    }
    assert(a@ =~= b@);
    true
}

impl Address {
    pub fn new(bytes: Vec<u8>) -> (r: Address)
        ensures
            r@ == bytes@,
    {
        Address { bytes }
    }

    /// Whether `self` and `other` are the same identity.
    pub fn same_as(&self, other: &Address) -> (r: bool)
        ensures
            r == (self@ == other@),
    {
        bytes_equal(self.bytes.as_slice(), other.bytes.as_slice())
    }

    pub fn duplicate(&self) -> (r: Address)
        ensures
            r@ == self@,
    {
        Address { bytes: copy_bytes(&self.bytes) }
    }
}

/// The mathematical value of an [`Attestation`].
pub struct AttestationView {
    pub id: u64,
    pub issuer: Seq<u8>,
    pub subject: Seq<u8>,
    pub timestamp: u64,
    pub payload_hash: Seq<u8>,
    pub signature: Seq<u8>,
}

/// A signed statement by an issuer about a subject. Never changed once stored.
#[derive(Debug)]
pub struct Attestation {
    pub id: u64,
    pub issuer: Address,
    pub subject: Address,
    pub timestamp: u64,
    pub payload_hash: Vec<u8>,
    pub signature: Vec<u8>,
}

impl View for Attestation {
    type V = AttestationView;

    open spec fn view(&self) -> AttestationView {
        AttestationView {
            id: self.id,
            issuer: self.issuer@,
            subject: self.subject@,
            timestamp: self.timestamp,
            payload_hash: self.payload_hash@,
            signature: self.signature@,
        }
    }
}

impl Attestation {
    pub fn duplicate(&self) -> (r: Attestation)
        ensures
            r@ == self@,
    {
        Attestation {
            id: self.id,
            issuer: self.issuer.duplicate(),
            subject: self.subject.duplicate(),
            timestamp: self.timestamp,
            payload_hash: copy_bytes(&self.payload_hash),
            signature: copy_bytes(&self.signature),
        }
    }
}

} // verus!
