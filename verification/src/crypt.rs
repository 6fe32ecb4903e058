//! Identities as this node handles them: the raw key material, and the
//! fingerprint by which every node is addressed.
use crate::text::{hex_encode, hex_of};
use vstd::prelude::*;

verus! {

/// Number of bytes in a fingerprint.
pub const FINGERPRINT_LEN: usize = 20;

/// Number of bytes in a signing key, secret or public.
pub const KEY_LEN: usize = 32;

/// Number of bytes in a signature.
pub const SIGNATURE_LEN: usize = 64;

/// Strict lexicographic order on byte strings: `a` sorts before `b` when the
/// first byte at which they differ is smaller in `a`, or when `a` is a proper
/// prefix of `b`.
pub open spec fn lex_lt(a: Seq<u8>, b: Seq<u8>) -> bool {
    ||| exists|i: int|
        0 <= i < a.len() && i < b.len() && a[i] < b[i] && (forall|j: int|
            0 <= j < i ==> a[j] == b[j])
    ||| (a.len() < b.len() && (forall|j: int| 0 <= j < a.len() ==> a[j] == b[j]))
}

/// The order is irreflexive.
pub proof fn lemma_lex_lt_irreflexive(a: Seq<u8>)
    ensures
        !lex_lt(a, a),
{
}

/// The order is asymmetric: two byte strings never sort before each other.
pub proof fn lemma_lex_lt_asymmetric(a: Seq<u8>, b: Seq<u8>)
    requires
        lex_lt(a, b),
    ensures
        !lex_lt(b, a),
{
    if lex_lt(b, a) && (exists|i: int|
        0 <= i < a.len() && i < b.len() && a[i] < b[i] && (forall|j: int|
            0 <= j < i ==> a[j] == b[j])) && (exists|k: int|
        0 <= k < b.len() && k < a.len() && b[k] < a[k] && (forall|j: int|
            0 <= j < k ==> b[j] == a[j])) {
        let i = choose|i: int|
            0 <= i < a.len() && i < b.len() && a[i] < b[i] && (forall|j: int|
                0 <= j < i ==> a[j] == b[j]);
        let k = choose|k: int|
            0 <= k < b.len() && k < a.len() && b[k] < a[k] && (forall|j: int|
                0 <= j < k ==> b[j] == a[j]);
        // at the earlier of the two positions both strings agree
        assert(i < k ==> b[i] == a[i]);
        assert(k < i ==> a[k] == b[k]);
    }
}

/// Two byte strings of the same length are equal, or one sorts before the
/// other.
pub proof fn lemma_lex_lt_total(a: Seq<u8>, b: Seq<u8>)
    requires
        a.len() == b.len(),
    ensures
        a == b || lex_lt(a, b) || lex_lt(b, a),
    decreases a.len(),
{
    if a != b {
        assert(!(a =~= b));
        let d = choose|d: int| 0 <= d < a.len() && a[d] != b[d];
        lemma_first_difference(a, b, d);
    }
}

/// Below any index at which two byte strings differ lies a first such index,
/// and it decides their order.
proof fn lemma_first_difference(a: Seq<u8>, b: Seq<u8>, d: int)
    requires
        0 <= d < a.len(),
        d < b.len(),
        a[d] != b[d],
    ensures
        lex_lt(a, b) || lex_lt(b, a),
    decreases d,
{
    if !(forall|j: int| 0 <= j < d ==> a[j] == b[j]) {
        let e = choose|e: int| 0 <= e < d && a[e] != b[e];
        lemma_first_difference(a, b, e);
    }
}

/// Whether two byte arrays hold the same bytes.
pub fn bytes_equal<const N: usize>(a: &[u8; N], b: &[u8; N]) -> (r: bool)
    ensures
        r == (a@ == b@),
        r == (*a == *b),
{
    let mut i: usize = 0;
    while i < N
        invariant
            i <= N,
            a@.len() == N,
            b@.len() == N,
            forall|j: int| 0 <= j < i ==> a@[j] == b@[j],
        decreases N - i,
    {
        if a[i] != b[i] {
            return false;
        }
        i += 1;
    }
    proof {
        assert(*a == *b);
    }
    true
}

/// The 20-byte identifier of a long-term identity public key.
#[derive(Clone, Copy, Debug, PartialEq, Eq, PartialOrd, Ord, Hash)]
pub struct Fingerprint {
    bytes: [u8; 20],
}

impl View for Fingerprint {
    type V = Seq<u8>;

    closed spec fn view(&self) -> Seq<u8> {
        self.bytes@
    }
}

impl Fingerprint {
    /// Every fingerprint is 20 bytes long.
    pub proof fn lemma_len(self)
        ensures
            self@.len() == 20,
    {
    }

    /// Two fingerprints with the same bytes are the same fingerprint.
    pub proof fn lemma_view_injective(self, other: Fingerprint)
        requires
            self@ == other@,
        ensures
            self == other,
    {
        assert(self.bytes == other.bytes);
    }

    /// The fingerprint with the given bytes.
    pub fn from_bytes(b: &[u8; 20]) -> (r: Fingerprint)
        ensures
            r@ == b@,
    {
        Fingerprint { bytes: *b }
    }

    /// The bytes of this fingerprint.
    pub fn as_bytes(&self) -> (r: &[u8; 20])
        ensures
            r@ == self@,
    {
        &self.bytes
    }

    /// Whether both fingerprints hold the same bytes.
    pub fn same(&self, other: &Fingerprint) -> (r: bool)
        ensures
            r == (self@ == other@),
            r == (*self == *other),
    {
        bytes_equal(&self.bytes, &other.bytes)
    }

    /// The fingerprint in lowercase hexadecimal: 40 digits.
    pub fn to_hex(&self) -> (r: String)
        ensures
            r@ == hex_of(self@),
            r@.len() == 40,
    {
        hex_encode(&self.bytes)
    }

    /// Whether this fingerprint sorts strictly before `other` in the total
    /// order on fingerprints: the lexicographic order of their bytes.
    pub fn precedes(&self, other: &Fingerprint) -> (r: bool)
        ensures
            r == lex_lt(self@, other@),
    {
        let mut i: usize = 0;
        while i < 20
            invariant
                i <= 20,
                forall|j: int| 0 <= j < i ==> self.bytes@[j] == other.bytes@[j],
            decreases 20 - i,
        {
            if self.bytes[i] < other.bytes[i] {
                return true;
            }
            if self.bytes[i] > other.bytes[i] {
                proof {
                    lemma_lex_lt_asymmetric(other@, self@);
                }
                return false;
            }
            i += 1;
        }
        proof {
            lemma_lex_lt_irreflexive(self@);
        }
        false
    }
}

/// A long-term signing secret.
#[derive(Clone, Copy, Debug, PartialEq, Eq)]
pub struct IdentitySecret {
    bytes: [u8; 32],
}

impl View for IdentitySecret {
    type V = Seq<u8>;

    closed spec fn view(&self) -> Seq<u8> {
        self.bytes@
    }
}

impl IdentitySecret {
    /// The secret with the given bytes.
    pub fn from_bytes(b: &[u8; 32]) -> (r: IdentitySecret)
        ensures
            r@ == b@,
    {
        IdentitySecret { bytes: *b }
    }

    /// The bytes of this secret.
    pub fn as_bytes(&self) -> (r: &[u8; 32])
        ensures
            r@ == self@,
    {
        &self.bytes
    }
}

/// A long-term signing public key.
#[derive(Clone, Copy, Debug, PartialEq, Eq)]
pub struct IdentityPublic {
    bytes: [u8; 32],
}

impl View for IdentityPublic {
    type V = Seq<u8>;

    closed spec fn view(&self) -> Seq<u8> {
        self.bytes@
    }
}

impl IdentityPublic {
    /// The public key with the given bytes.
    pub fn from_bytes(b: &[u8; 32]) -> (r: IdentityPublic)
        ensures
            r@ == b@,
    {
        IdentityPublic { bytes: *b }
    }

    /// The bytes of this public key.
    pub fn as_bytes(&self) -> (r: &[u8; 32])
        ensures
            r@ == self@,
    {
        &self.bytes
    }
}

impl IdentityPublic {
    /// Whether both keys hold the same bytes.
    pub fn same(&self, other: &IdentityPublic) -> (r: bool)
        ensures
            r == (*self == *other),
    {
        bytes_equal(&self.bytes, &other.bytes)
    }
}

/// A signature made with a long-term signing secret.
#[derive(Clone, Copy, Debug, PartialEq, Eq)]
pub struct Signature {
    bytes: [u8; 64],
}

impl View for Signature {
    type V = Seq<u8>;

    closed spec fn view(&self) -> Seq<u8> {
        self.bytes@
    }
}

impl Signature {
    /// The signature with the given bytes.
    pub fn from_bytes(b: &[u8; 64]) -> (r: Signature)
        ensures
            r@ == b@,
    {
        Signature { bytes: *b }
    }

    /// The bytes of this signature.
    pub fn as_bytes(&self) -> (r: &[u8; 64])
        ensures
            r@ == self@,
    {
        &self.bytes
    }

    /// Whether both signatures hold the same bytes.
    pub fn same(&self, other: &Signature) -> (r: bool)
        ensures
            r == (*self == *other),
    {
        bytes_equal(&self.bytes, &other.bytes)
    }
}

} // verus!
