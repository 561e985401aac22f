use vstd::prelude::*;

verus! {

/// Why an operation on an account or an audit did not go through.
#[derive(Clone, Copy, Debug, PartialEq, Eq, Structural)]
pub enum SolvencyError {
    /// The claimed amount differs from the plaintext amount of the ledger output.
    InputMismatch,
    /// The ledger output is confidential and no opening factors were supplied.
    MissingBlinds,
    /// A commitment is not the canonical encoding of a group element.
    DecompressElement,
    /// An entry of the account names a code that the rate table does not hold.
    MissingConversionRate,
    /// The solvency statement is false, or the prover could not produce a proof.
    ProveFailed,
    /// The account holds no proof.
    MissingProof,
    /// The stored proof bytes are not the encoding of a proof.
    DeserializeProof,
    /// The verifier turned the proof down.
    VerifyFailed,
}

impl SolvencyError {
    /// A short description of the error, one for each kind.
    pub fn message(&self) -> (text: &'static str)
        ensures
            text@ == Self::message_of(*self)@,
    {
        match self {
            SolvencyError::InputMismatch => "Incorrect amount.",
            SolvencyError::MissingBlinds => "Missing blinds for confidential amount.",
            SolvencyError::DecompressElement => "Commitment is not a group element.",
            SolvencyError::MissingConversionRate => "Missing conversion rate.",
            SolvencyError::ProveFailed => "Solvency could not be proved.",
            SolvencyError::MissingProof => "Prove the solvency first.",
            SolvencyError::DeserializeProof => "Malformed solvency proof.",
            SolvencyError::VerifyFailed => "Solvency proof rejected.",
        }
    }

    /// The description that belongs to each kind of error.
    pub open spec fn message_of(e: SolvencyError) -> &'static str {
        match e {
            SolvencyError::InputMismatch => "Incorrect amount.",
            SolvencyError::MissingBlinds => "Missing blinds for confidential amount.",
            SolvencyError::DecompressElement => "Commitment is not a group element.",
            SolvencyError::MissingConversionRate => "Missing conversion rate.",
            SolvencyError::ProveFailed => "Solvency could not be proved.",
            SolvencyError::MissingProof => "Prove the solvency first.",
            SolvencyError::DeserializeProof => "Malformed solvency proof.",
            SolvencyError::VerifyFailed => "Solvency proof rejected.",
        }
    }
}

} // verus!
