//! Confidential solvency accounting.
//!
//! An [`AssetAndLiabilityAccount`] collects the assets and liabilities of an
//! account holder from ledger outputs: amounts in the clear as public entries,
//! confidential amounts as hidden entries with the blinding factors and the
//! commitments that go with them. A [`SolvencyAudit`] holds the conversion
//! rates and decides whether a proof of solvency can be asked of a prover,
//! what the prover and the verifier are handed, and how a proving or a
//! verifying run ends. The prover and the verifier themselves stand outside:
//! their outcome is handed in. Accounts and audits have a stored form in
//! bytes, from which they are read back as they were.
//!
//! Scalars and group elements are held as their 32-byte encodings. Field and
//! group arithmetic is that of `curve25519-dalek`, commitments are those of
//! `bulletproofs`; the contracts of these calls are stated, not proved.

pub mod account;
pub mod audit;
pub mod error;
pub mod laws;
pub mod persist;
pub mod point;
pub mod r1cs;
pub mod rates;
pub mod scalar;
pub mod statement;
pub mod storage;
mod wide;

pub use crate::account::{
    get_amount_and_code_blinds, AmountAndCodeBlinds, AmountAndCodeCommitment, AmountAndCodeScalar,
    AmountType, AssetAndLiabilityAccount, LimbBlinds, XfrAmount,
};
pub use crate::audit::{ProverInput, SolvencyAudit, VerifierInput};
pub use crate::error::SolvencyError;
pub use crate::point::{get_decompressed_commitment, CompressedPoint, GroupPoint};
pub use crate::rates::{CodeAndRate, RateTable};
pub use crate::scalar::Scalar;
