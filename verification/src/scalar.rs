use vstd::prelude::*;

verus! {

/// The order of the Ristretto group, 2^252 + 27742317777372353535851937790883648493.
pub open spec fn group_order() -> nat {
    7237005577332262213973186563042994240857116359379907606001950938285454250989nat
}

/// The number that a byte string encodes, least significant byte first.
pub open spec fn le_value(bytes: Seq<u8>) -> nat
    decreases bytes.len(),
{
    if bytes.len() == 0 {
        0
    } else {
        bytes[0] as nat + 256 * le_value(bytes.drop_first())
    }
}

/// An element of the scalar field, held as its 32-byte little-endian encoding.
#[derive(Clone, Copy, Debug, PartialEq, Eq)]
pub struct Scalar {
    pub bytes: [u8; 32],
}

impl View for Scalar {
    type V = Seq<u8>;

    open spec fn view(&self) -> Seq<u8> {
        self.bytes@
    }
}

/// `<Scalar as From<u64>>::from` of curve25519-dalek: the scalar whose
/// little-endian encoding is the given integer.
#[verifier::external_body]
fn scalar_of_u64(x: u64) -> (r: Scalar)
    ensures
        r.value() == x,
{
    Scalar { bytes: curve25519_dalek::scalar::Scalar::from(x).to_bytes() }
}

/// Addition of curve25519-dalek scalars, each operand first reduced from its
/// 32 bytes by `Scalar::from_bytes_mod_order`: the sum modulo the group order,
/// in its reduced little-endian encoding.
#[verifier::external_body]
fn scalar_sum(a: &Scalar, b: &Scalar) -> (r: Scalar)
    ensures
        r.value() == (a.value() + b.value()) % group_order(),
{
    let x = curve25519_dalek::scalar::Scalar::from_bytes_mod_order(a.bytes);
    let y = curve25519_dalek::scalar::Scalar::from_bytes_mod_order(b.bytes);
    Scalar { bytes: (x + y).to_bytes() }
}

/// Multiplication of curve25519-dalek scalars, each operand first reduced from
/// its 32 bytes by `Scalar::from_bytes_mod_order`: the product modulo the group
/// order, in its reduced little-endian encoding.
#[verifier::external_body]
fn scalar_product(a: &Scalar, b: &Scalar) -> (r: Scalar)
    ensures
        r.value() == (a.value() * b.value()) % group_order(),
{
    let x = curve25519_dalek::scalar::Scalar::from_bytes_mod_order(a.bytes);
    let y = curve25519_dalek::scalar::Scalar::from_bytes_mod_order(b.bytes);
    Scalar { bytes: (x * y).to_bytes() }
}

/// The value of a suffix of a byte string is its first byte plus 256 times
/// the value of the rest.
pub(crate) proof fn lemma_suffix_step(s: Seq<u8>, k: int)
    requires
        0 <= k < s.len(),
    ensures
        le_value(s.subrange(k, s.len() as int)) == s[k] as nat + 256 * le_value(
            s.subrange(k + 1, s.len() as int),
        ),
{
    let suffix = s.subrange(k, s.len() as int);
    assert(suffix.drop_first() =~= s.subrange(k + 1, s.len() as int));
}

/// A suffix that holds a non-zero byte has a value of at least one, and so
/// has every longer suffix.
proof fn lemma_suffix_positive(s: Seq<u8>, i: int, j: int)
    requires
        0 <= i <= j < s.len(),
        s[j] != 0,
    ensures
        le_value(s.subrange(i, s.len() as int)) >= 1,
    decreases j - i,
{
    lemma_suffix_step(s, i);
    if i < j {
        lemma_suffix_positive(s, i + 1, j);
    }
}

/// The value of 32 bytes, written out over the low eight bytes and the
/// value of the other 24.
proof fn lemma_low_eight(s: Seq<u8>)
    requires
        s.len() == 32,
    ensures
        le_value(s) == s[0] + 256 * (s[1] + 256 * (s[2] + 256 * (s[3] + 256 * (s[4] + 256 * (s[5]
            + 256 * (s[6] + 256 * (s[7] + 256 * le_value(s.subrange(8, 32))))))))),
{
    lemma_suffix_step(s, 0);
    lemma_suffix_step(s, 1);
    lemma_suffix_step(s, 2);
    lemma_suffix_step(s, 3);
    lemma_suffix_step(s, 4);
    lemma_suffix_step(s, 5);
    lemma_suffix_step(s, 6);
    lemma_suffix_step(s, 7);
    assert(s.subrange(0, 32) =~= s);
}

impl Scalar {
    /// The integer that the scalar's bytes encode.
    pub open spec fn value(&self) -> nat {
        le_value(self.bytes@)
    }

    /// Whether the scalar is the reduced representative of its residue class.
    pub open spec fn is_canonical(&self) -> bool {
        self.value() < group_order()
    }

    /// The scalar with the given 32-byte little-endian encoding.
    pub fn from_bytes(bytes: [u8; 32]) -> (r: Scalar)
        ensures
            r.bytes == bytes,
    {
        Scalar { bytes }
    }

    /// The 32-byte little-endian encoding of the scalar.
    pub fn to_bytes(&self) -> (bytes: [u8; 32])
        ensures
            bytes == self.bytes,
    {
        self.bytes
    }

    /// The scalar that stands for an unsigned 64-bit integer.
    pub fn from_u64(x: u64) -> (r: Scalar)
        ensures
            r.value() == x,
            r.is_canonical(),
    {
        scalar_of_u64(x)
    }

    /// The integer that the scalar stands for, where it fits in 64 bits.
    pub fn to_u64(&self) -> (r: Option<u64>)
        ensures
            match r {
                Some(x) => self.value() == x,
                None => self.value() > u64::MAX,
            },
    {
        let ghost s = self.bytes@;
        let mut i: usize = 32;
        while i > 8
            invariant
                8 <= i <= 32,
                s == self.bytes@,
                le_value(s.subrange(i as int, 32)) == 0,
            decreases i,
        {
            i = i - 1;
            if self.bytes[i] != 0 {
                proof {
                    lemma_suffix_positive(s, 8, i as int);
                    lemma_low_eight(s);
                }
                return None;
            }
            proof {
                lemma_suffix_step(s, i as int);
            }
        }
        proof {
            lemma_low_eight(s);
        }
        let b7: u64 = self.bytes[7] as u64;
        let b6: u64 = self.bytes[6] as u64 + 256 * b7;
        let b5: u64 = self.bytes[5] as u64 + 256 * b6;
        let b4: u64 = self.bytes[4] as u64 + 256 * b5;
        let b3: u64 = self.bytes[3] as u64 + 256 * b4;
        let b2: u64 = self.bytes[2] as u64 + 256 * b3;
        let b1: u64 = self.bytes[1] as u64 + 256 * b2;
        let b0: u64 = self.bytes[0] as u64 + 256 * b1;
        Some(b0)
    }

    /// The sum of two scalars in the field.
    pub fn add_mod(&self, other: &Scalar) -> (r: Scalar)
        ensures
            r.value() == (self.value() + other.value()) % group_order(),
            r.is_canonical(),
    {
        scalar_sum(self, other)
    }

    /// The product of two scalars in the field.
    pub fn mul_mod(&self, other: &Scalar) -> (r: Scalar)
        ensures
            r.value() == (self.value() * other.value()) % group_order(),
            r.is_canonical(),
    {
        scalar_product(self, other)
    }
}

} // verus!
