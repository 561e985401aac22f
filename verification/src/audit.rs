use crate::account::{
    AmountAndCodeBlinds, AmountAndCodeCommitment, AmountAndCodeScalar, AssetAndLiabilityAccount,
};
use crate::error::SolvencyError;
use crate::r1cs::{is_proof_encoding, r1cs_proof_decodes};
use crate::rates::{lemma_rate_map_is_rate_of, rate_map, rate_of, CodeAndRate, RateTable};
use crate::scalar::Scalar;
use crate::statement::{
    account_covered, add_weighted, is_solvent, lemma_length_bound, rates_in_range,
    records_have_rates,
};
use crate::wide::WideSum;
use vstd::prelude::*;

verus! {

/// The error with which proving ends, if it ends with one. `produced` says
/// whether the prover handed back a proof.
pub open spec fn proving_error(
    table: Seq<CodeAndRate>,
    account: AssetAndLiabilityAccount,
    produced: bool,
) -> Option<SolvencyError> {
    if !account_covered(account, table) {
        Some(SolvencyError::MissingConversionRate)
    } else if !is_solvent(account, table) {
        Some(SolvencyError::ProveFailed)
    } else if !produced {
        Some(SolvencyError::ProveFailed)
    } else {
        None
    }
}

/// The error with which verifying ends, if it ends with one. `accepted` says
/// whether the verifier took the proof.
pub open spec fn verification_error(
    table: Seq<CodeAndRate>,
    account: AssetAndLiabilityAccount,
    accepted: bool,
) -> Option<SolvencyError> {
    match account.proof {
        None => Some(SolvencyError::MissingProof),
        Some(bytes) => if !r1cs_proof_decodes(bytes@) {
            Some(SolvencyError::DeserializeProof)
        } else if !account_covered(account, table) {
            Some(SolvencyError::MissingConversionRate)
        } else if !accepted {
            Some(SolvencyError::VerifyFailed)
        } else {
            None
        },
    }
}

/// Success where there is no error, the error where there is one.
pub open spec fn outcome_of(error: Option<SolvencyError>) -> Result<(), SolvencyError> {
    match error {
        Some(e) => Err(e),
        None => Ok(()),
    }
}

/// What the prover is handed: the hidden entries with the blinding factors
/// that open their commitments, the public entries, and the rates.
#[derive(Clone, Debug, PartialEq, Eq)]
pub struct ProverInput {
    pub hidden_assets: Vec<AmountAndCodeScalar>,
    pub hidden_assets_blinds: Vec<AmountAndCodeBlinds>,
    pub public_assets: Vec<AmountAndCodeScalar>,
    pub hidden_liabilities: Vec<AmountAndCodeScalar>,
    pub hidden_liabilities_blinds: Vec<AmountAndCodeBlinds>,
    pub public_liabilities: Vec<AmountAndCodeScalar>,
    pub conversion_rates: Vec<CodeAndRate>,
}

/// What the verifier is handed: the commitments to the hidden entries, the
/// public entries, the rates and the proof. No hidden amount is among it.
#[derive(Clone, Debug, PartialEq, Eq)]
pub struct VerifierInput {
    pub hidden_assets_commitments: Vec<AmountAndCodeCommitment>,
    pub public_assets: Vec<AmountAndCodeScalar>,
    pub hidden_liabilities_commitments: Vec<AmountAndCodeCommitment>,
    pub public_liabilities: Vec<AmountAndCodeScalar>,
    pub conversion_rates: Vec<CodeAndRate>,
    pub proof: Vec<u8>,
}

impl ProverInput {
    /// The input holds the witnesses and public entries of the account, and
    /// the table of rates.
    pub open spec fn is_for(
        &self,
        account: AssetAndLiabilityAccount,
        table: Seq<CodeAndRate>,
    ) -> bool {
        &&& self.hidden_assets@ == account.hidden_assets@
        &&& self.hidden_assets_blinds@ == account.hidden_assets_blinds@
        &&& self.public_assets@ == account.public_assets@
        &&& self.hidden_liabilities@ == account.hidden_liabilities@
        &&& self.hidden_liabilities_blinds@ == account.hidden_liabilities_blinds@
        &&& self.public_liabilities@ == account.public_liabilities@
        &&& self.conversion_rates@ == table
    }
}

impl VerifierInput {
    /// The input holds the commitments, the public entries and the proof of
    /// the account, and the table of rates.
    pub open spec fn is_for(
        &self,
        account: AssetAndLiabilityAccount,
        table: Seq<CodeAndRate>,
    ) -> bool {
        &&& self.hidden_assets_commitments@ == account.hidden_assets_commitments@
        &&& self.public_assets@ == account.public_assets@
        &&& self.hidden_liabilities_commitments@ == account.hidden_liabilities_commitments@
        &&& self.public_liabilities@ == account.public_liabilities@
        &&& self.conversion_rates@ == table
        &&& account.proof matches Some(bytes) && self.proof@ == bytes@
    }
}

/// A copy of a list.
fn copy_of<T: Copy>(list: &Vec<T>) -> (r: Vec<T>)
    ensures
        r@ == list@,
{
    let mut r: Vec<T> = Vec::new();
    let mut i: usize = 0;
    while i < list.len()
        invariant
            i <= list.len(),
            r@ == list@.subrange(0, i as int),
        decreases list.len() - i,
    {
        r.push(list[i]);
        assert(r@ =~= list@.subrange(0, i + 1));
        i = i + 1;
    }
    assert(list@.subrange(0, i as int) =~= list@);
    r
}

/// The conversion rates under which solvency is audited.
#[derive(Clone, Debug, PartialEq, Eq)]
pub struct SolvencyAudit {
    /// Each asset code with its conversion rate, in the order in which the
    /// rates were set.
    pub conversion_rates: Vec<CodeAndRate>,
}

impl SolvencyAudit {
    /// Every rate fits in 64 bits.
    pub open spec fn well_formed(&self) -> bool {
        rates_in_range(self.conversion_rates@)
    }

    /// An audit without rates.
    pub fn new() -> (audit: SolvencyAudit)
        ensures
            audit.conversion_rates@.len() == 0,
            audit.well_formed(),
    {
        SolvencyAudit { conversion_rates: Vec::new() }
    }

    /// Whether every rate fits in 64 bits.
    pub fn is_well_formed(&self) -> (r: bool)
        ensures
            r == self.well_formed(),
    {
        let mut i: usize = 0;
        while i < self.conversion_rates.len()
            invariant
                i <= self.conversion_rates.len(),
                forall|j: int|
                    0 <= j < i ==> (#[trigger] self.conversion_rates[j]).1.value() <= u64::MAX,
            decreases self.conversion_rates.len() - i,
        {
            if self.conversion_rates[i].1.to_u64().is_none() {
                return false;
            }
            i = i + 1;
        }
        true
    }

    /// Sets the conversion rate of an asset code. A rate set later for the
    /// same code takes its place.
    pub fn set_rate(&mut self, code: Scalar, rate: u64)
        ensures
            final(self).conversion_rates@.len() == old(self).conversion_rates@.len() + 1,
            final(self).conversion_rates@.drop_last() == old(self).conversion_rates@,
            final(self).conversion_rates@.last().0 == code,
            final(self).conversion_rates@.last().1.value() == rate,
            rate_of(final(self).conversion_rates@, code@) == Some(
                final(self).conversion_rates@.last().1@,
            ),
            forall|other: Seq<u8>|
                other != code@ ==> #[trigger] rate_of(final(self).conversion_rates@, other)
                    == rate_of(old(self).conversion_rates@, other),
            old(self).well_formed() ==> final(self).well_formed(),
    {
        self.conversion_rates.push((code, Scalar::from_u64(rate)));
        assert(self.conversion_rates@.drop_last() =~= old(self).conversion_rates@);
    }

    /// The lookup structure over the rates.
    pub fn rates(&self) -> (table: RateTable)
        ensures
            table@ == rate_map(self.conversion_rates@),
    {
        RateTable::from_entries(&self.conversion_rates)
    }

    /// The rate in force for a code, if one was set.
    pub fn get_rate(&self, code: &Scalar) -> (r: Option<Scalar>)
        ensures
            match r {
                Some(rate) => rate_of(self.conversion_rates@, code@) == Some(rate@),
                None => rate_of(self.conversion_rates@, code@) is None,
            },
    {
        let table = self.rates();
        proof {
            lemma_rate_map_is_rate_of(self.conversion_rates@, code@);
        }
        table.get(code)
    }

    /// Whether every entry of the account has a rate.
    pub fn covers(&self, account: &AssetAndLiabilityAccount) -> (r: bool)
        ensures
            r == account_covered(*account, self.conversion_rates@),
    {
        let rates = self.rates();
        self.covers_with(account, &rates)
    }

    /// Whether every entry of the account has a rate in the lookup structure.
    fn covers_with(&self, account: &AssetAndLiabilityAccount, rates: &RateTable) -> (r: bool)
        requires
            rates@ == rate_map(self.conversion_rates@),
        ensures
            r == account_covered(*account, self.conversion_rates@),
    {
        let ghost table = self.conversion_rates@;
        proof {
            assert forall|code: Seq<u8>|
                rates@.contains_key(code) <==> #[trigger] rate_of(table, code) is Some by {
                lemma_rate_map_is_rate_of(table, code);
            }
        }
        records_have_rates(&account.hidden_assets, rates) && records_have_rates(
            &account.public_assets,
            rates,
        ) && records_have_rates(&account.hidden_liabilities, rates) && records_have_rates(
            &account.public_liabilities,
            rates,
        )
    }

    /// Whether the weighted assets of the account are at least its weighted
    /// liabilities, under the rates of the lookup structure.
    fn solvent_with(&self, account: &AssetAndLiabilityAccount, rates: &RateTable) -> (r: bool)
        requires
            rates@ == rate_map(self.conversion_rates@),
            self.well_formed(),
            account.well_formed(),
            account_covered(*account, self.conversion_rates@),
        ensures
            r == is_solvent(*account, self.conversion_rates@),
    {
        proof {
            lemma_length_bound(
                account.hidden_assets.len() as nat,
                account.public_assets.len() as nat,
            );
            lemma_length_bound(
                account.hidden_liabilities.len() as nat,
                account.public_liabilities.len() as nat,
            );
        }
        let mut assets = WideSum::zero();
        add_weighted(&mut assets, &account.hidden_assets, &self.conversion_rates, rates);
        add_weighted(&mut assets, &account.public_assets, &self.conversion_rates, rates);
        let mut liabilities = WideSum::zero();
        add_weighted(&mut liabilities, &account.hidden_liabilities, &self.conversion_rates, rates);
        add_weighted(&mut liabilities, &account.public_liabilities, &self.conversion_rates, rates);
        assets.at_least(&liabilities)
    }

    /// Says whether a proof can be asked of the prover: every entry has a
    /// rate, and the solvency statement holds.
    pub fn check_provable(&self, account: &AssetAndLiabilityAccount) -> (r: Result<
        (),
        SolvencyError,
    >)
        requires
            self.well_formed(),
            account.well_formed(),
        ensures
            r == outcome_of(proving_error(self.conversion_rates@, *account, true)),
    {
        let rates = self.rates();
        if !self.covers_with(account, &rates) {
            return Err(SolvencyError::MissingConversionRate);
        }
        if !self.solvent_with(account, &rates) {
            return Err(SolvencyError::ProveFailed);
        }
        Ok(())
    }

    /// What to hand to the prover, where a proof can be asked of it.
    pub fn prover_input(&self, account: &AssetAndLiabilityAccount) -> (r: Result<
        ProverInput,
        SolvencyError,
    >)
        requires
            self.well_formed(),
            account.well_formed(),
        ensures
            match r {
                Ok(input) => proving_error(self.conversion_rates@, *account, true) is None
                    && input.is_for(*account, self.conversion_rates@),
                Err(e) => proving_error(self.conversion_rates@, *account, true) == Some(e),
            },
    {
        match self.check_provable(account) {
            Err(e) => Err(e),
            Ok(()) => Ok(
                ProverInput {
                    hidden_assets: copy_of(&account.hidden_assets),
                    hidden_assets_blinds: copy_of(&account.hidden_assets_blinds),
                    public_assets: copy_of(&account.public_assets),
                    hidden_liabilities: copy_of(&account.hidden_liabilities),
                    hidden_liabilities_blinds: copy_of(&account.hidden_liabilities_blinds),
                    public_liabilities: copy_of(&account.public_liabilities),
                    conversion_rates: copy_of(&self.conversion_rates),
                },
            ),
        }
    }

    /// Concludes a proving run: stores the proof that the prover produced.
    ///
    /// `outcome` is what the prover handed back for this account under these
    /// rates: the serialized proof, or `None` where it failed. Where an entry
    /// has no rate, where the statement is false or where the prover failed,
    /// the account stays as it was.
    pub fn prove_solvency_and_store(
        &self,
        account: &mut AssetAndLiabilityAccount,
        outcome: Option<Vec<u8>>,
    ) -> (r: Result<(), SolvencyError>)
        requires
            self.well_formed(),
            old(account).well_formed(),
        ensures
            r == outcome_of(proving_error(self.conversion_rates@, *old(account), outcome is Some)),
            r is Err ==> *final(account) == *old(account),
            r is Ok ==> *final(account) == (AssetAndLiabilityAccount {
                proof: outcome,
                ..*old(account)
            }),
            final(account).well_formed(),
    {
        match self.check_provable(account) {
            Err(e) => Err(e),
            Ok(()) => match outcome {
                None => Err(SolvencyError::ProveFailed),
                Some(bytes) => {
                    account.proof = Some(bytes);
                    Ok(())
                },
            },
        }
    }

    /// Says whether the stored proof can be handed to the verifier: there is
    /// one, it can be read back, and every entry has a rate.
    pub fn check_verifiable(&self, account: &AssetAndLiabilityAccount) -> (r: Result<
        (),
        SolvencyError,
    >)
        ensures
            r == outcome_of(verification_error(self.conversion_rates@, *account, true)),
    {
        let stored = &account.proof;
        match stored {
            None => Err(SolvencyError::MissingProof),
            Some(bytes) => {
                if !is_proof_encoding(bytes) {
                    return Err(SolvencyError::DeserializeProof);
                }
                if !self.covers(account) {
                    return Err(SolvencyError::MissingConversionRate);
                }
                Ok(())
            },
        }
    }

    /// What to hand to the verifier, where the stored proof can be verified.
    pub fn verifier_input(&self, account: &AssetAndLiabilityAccount) -> (r: Result<
        VerifierInput,
        SolvencyError,
    >)
        ensures
            match r {
                Ok(input) => verification_error(self.conversion_rates@, *account, true) is None
                    && input.is_for(*account, self.conversion_rates@),
                Err(e) => verification_error(self.conversion_rates@, *account, true) == Some(e),
            },
    {
        match self.check_verifiable(account) {
            Err(e) => Err(e),
            Ok(()) => {
                let stored = &account.proof;
                match stored {
                    None => Err(SolvencyError::MissingProof),
                    Some(bytes) => Ok(
                        VerifierInput {
                            hidden_assets_commitments: copy_of(&account.hidden_assets_commitments),
                            public_assets: copy_of(&account.public_assets),
                            hidden_liabilities_commitments: copy_of(
                                &account.hidden_liabilities_commitments,
                            ),
                            public_liabilities: copy_of(&account.public_liabilities),
                            conversion_rates: copy_of(&self.conversion_rates),
                            proof: copy_of(bytes),
                        },
                    ),
                }
            },
        }
    }

    /// Concludes a verification: `accepted` is the verifier's verdict on the
    /// stored proof, for this account's commitments and public entries under
    /// these rates.
    pub fn verify_solvency(&self, account: &AssetAndLiabilityAccount, accepted: bool) -> (r: Result<
        (),
        SolvencyError,
    >)
        ensures
            r == outcome_of(verification_error(self.conversion_rates@, *account, accepted)),
    {
        match self.check_verifiable(account) {
            Err(e) => Err(e),
            Ok(()) => if accepted {
                Ok(())
            } else {
                Err(SolvencyError::VerifyFailed)
            },
        }
    }
}

impl Default for SolvencyAudit {
    fn default() -> (audit: SolvencyAudit)
        ensures
            audit.conversion_rates@.len() == 0,
            audit.well_formed(),
    {
        SolvencyAudit::new()
    }
}

} // verus!
