use vstd::prelude::*;

verus! {

/// Whether a byte string is the encoding of a constraint-system proof: what
/// `R1CSProof::from_bytes` parses.
pub uninterp spec fn r1cs_proof_decodes(bytes: Seq<u8>) -> bool;

/// `R1CSProof::from_bytes` of bulletproofs, asked only whether it returns a
/// proof or a format error.
#[verifier::external_body]
fn proof_parses(bytes: &Vec<u8>) -> (ok: bool)
    ensures
        ok == r1cs_proof_decodes(bytes@),
{
    bulletproofs::r1cs::R1CSProof::from_bytes(bytes).is_ok()
}

/// Whether the bytes can be read back as a solvency proof.
pub fn is_proof_encoding(bytes: &Vec<u8>) -> (ok: bool)
    ensures
        ok == r1cs_proof_decodes(bytes@),
{
    proof_parses(bytes)
}

} // verus!
