use crate::error::SolvencyError;
use crate::scalar::Scalar;
use vstd::prelude::*;

verus! {

/// Whether 32 bytes are the canonical Ristretto encoding of a group element:
/// what `CompressedRistretto::decompress` accepts.
pub uninterp spec fn ristretto_decodes(encoding: Seq<u8>) -> bool;

/// The encoding of the sum of the two group elements with the given encodings.
pub uninterp spec fn ristretto_sum(p: Seq<u8>, q: Seq<u8>) -> Seq<u8>;

/// The encoding of the group element with the given encoding, multiplied by
/// the scalar with the given value.
pub uninterp spec fn ristretto_scale(p: Seq<u8>, k: nat) -> Seq<u8>;

/// The encoding of the Pedersen commitment to a value under a blinding
/// factor, over the default generators.
pub uninterp spec fn pedersen_commitment(value: nat, blinding: nat) -> Seq<u8>;

/// A group element in compressed wire format, as a ledger publishes it.
#[derive(Clone, Copy, Debug, PartialEq, Eq)]
pub struct CompressedPoint {
    pub bytes: [u8; 32],
}

impl View for CompressedPoint {
    type V = Seq<u8>;

    open spec fn view(&self) -> Seq<u8> {
        self.bytes@
    }
}

/// A group element that was decompressed, known by its canonical encoding.
#[derive(Clone, Copy, Debug)]
pub struct GroupPoint {
    encoding: [u8; 32],
}

impl View for GroupPoint {
    type V = Seq<u8>;

    closed spec fn view(&self) -> Seq<u8> {
        self.encoding@
    }
}

/// `CompressedRistretto::decompress` of curve25519-dalek, asked only whether
/// it returns a point: it does exactly on the canonical encodings.
#[verifier::external_body]
fn point_decodes(c: &CompressedPoint) -> (ok: bool)
    ensures
        ok == ristretto_decodes(c@),
{
    curve25519_dalek::ristretto::CompressedRistretto(c.bytes).decompress().is_some()
}

/// Addition of curve25519-dalek Ristretto points, from and to their canonical
/// encodings. The encoding of a point is canonical, so it decompresses again.
#[verifier::external_body]
fn point_sum(p: &GroupPoint, q: &GroupPoint) -> (r: GroupPoint)
    requires
        p.valid(),
        q.valid(),
    ensures
        r@ == ristretto_sum(p@, q@),
        r.valid(),
{
    let a = curve25519_dalek::ristretto::CompressedRistretto(p.encoding).decompress().unwrap();
    let b = curve25519_dalek::ristretto::CompressedRistretto(q.encoding).decompress().unwrap();
    GroupPoint { encoding: (a + b).compress().to_bytes() }
}

/// Multiplication of a curve25519-dalek Ristretto point by a scalar, the point
/// from and to its canonical encoding, the scalar reduced from its 32 bytes by
/// `Scalar::from_bytes_mod_order`. The encoding of the product is canonical,
/// so it decompresses again.
#[verifier::external_body]
fn point_scale(p: &GroupPoint, k: &Scalar) -> (r: GroupPoint)
    requires
        p.valid(),
    ensures
        r@ == ristretto_scale(p@, k.value()),
        r.valid(),
{
    let a = curve25519_dalek::ristretto::CompressedRistretto(p.encoding).decompress().unwrap();
    let s = curve25519_dalek::scalar::Scalar::from_bytes_mod_order(k.bytes);
    GroupPoint { encoding: (a * s).compress().to_bytes() }
}

/// `PedersenGens::commit` of bulletproofs on its default generators, the two
/// scalars reduced from their 32 bytes, the commitment compressed.
#[verifier::external_body]
fn pedersen_commit(value: &Scalar, blinding: &Scalar) -> (r: CompressedPoint)
    ensures
        r@ == pedersen_commitment(value.value(), blinding.value()),
{
    let v = curve25519_dalek_ng::scalar::Scalar::from_bytes_mod_order(value.bytes);
    let b = curve25519_dalek_ng::scalar::Scalar::from_bytes_mod_order(blinding.bytes);
    CompressedPoint { bytes: bulletproofs::PedersenGens::default().commit(v, b).compress().to_bytes() }
}

impl CompressedPoint {
    /// The compressed point with the given 32 bytes.
    pub fn from_bytes(bytes: [u8; 32]) -> (r: CompressedPoint)
        ensures
            r.bytes == bytes,
    {
        CompressedPoint { bytes }
    }

    /// The 32 bytes of the compressed point.
    pub fn to_bytes(&self) -> (bytes: [u8; 32])
        ensures
            bytes == self.bytes,
    {
        self.bytes
    }

    /// The commitment to `value` that `blinding` opens.
    pub fn commit(value: &Scalar, blinding: &Scalar) -> (r: CompressedPoint)
        ensures
            r@ == pedersen_commitment(value.value(), blinding.value()),
    {
        pedersen_commit(value, blinding)
    }
}

impl GroupPoint {
    /// Whether the encoding held is one that decompresses.
    pub closed spec fn valid(&self) -> bool {
        ristretto_decodes(self.encoding@)
    }

    /// The sum of two group elements.
    pub fn plus(&self, other: &GroupPoint) -> (r: GroupPoint)
        requires
            self.valid(),
            other.valid(),
        ensures
            r@ == ristretto_sum(self@, other@),
            r.valid(),
    {
        point_sum(self, other)
    }

    /// The group element multiplied by a scalar.
    pub fn scaled(&self, k: &Scalar) -> (r: GroupPoint)
        requires
            self.valid(),
        ensures
            r@ == ristretto_scale(self@, k.value()),
            r.valid(),
    {
        point_scale(self, k)
    }

    /// The wire format of the group element.
    pub fn compress(&self) -> (c: CompressedPoint)
        ensures
            c@ == self@,
    {
        CompressedPoint { bytes: self.encoding }
    }
}

/// Decompresses a commitment, or says that it is no group element.
pub fn get_decompressed_commitment(commitment: &CompressedPoint) -> (r: Result<
    GroupPoint,
    SolvencyError,
>)
    ensures
        r is Ok <==> ristretto_decodes(commitment@),
        r matches Ok(p) ==> p@ == commitment@ && p.valid(),
        r matches Err(e) ==> e == SolvencyError::DecompressElement,
{
    if point_decodes(commitment) {
        Ok(GroupPoint { encoding: commitment.bytes })
    } else {
        Err(SolvencyError::DecompressElement)
    }
}

} // verus!
