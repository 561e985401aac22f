use crate::error::SolvencyError;
use crate::point::{
    get_decompressed_commitment, pedersen_commitment, ristretto_decodes, ristretto_scale,
    ristretto_sum, CompressedPoint,
};
use crate::scalar::{group_order, Scalar};
use vstd::arithmetic::div_mod::lemma_add_mod_noop_right;
use vstd::prelude::*;

verus! {

/// The amount and the type code of an asset or liability, as scalars.
pub type AmountAndCodeScalar = (Scalar, Scalar);

/// The commitments to the amount and to the type code of a hidden entry.
pub type AmountAndCodeCommitment = (CompressedPoint, CompressedPoint);

/// The blinding factors of the amount and of the type code of a hidden entry.
pub type AmountAndCodeBlinds = (Scalar, Scalar);

/// The blinding factors as a ledger hands them out: those of the low and of
/// the high 32-bit limb of the amount, and that of the type code.
pub type LimbBlinds = ((Scalar, Scalar), Scalar);

/// The weight of the high limb of an amount: 2^32.
pub const LIMB_BASE: u64 = 0x1_0000_0000;

/// Says whether an amount counts on the asset side or on the liability side.
#[derive(Clone, Copy, Debug, PartialEq, Eq, Structural)]
pub enum AmountType {
    Asset,
    Liability,
}

/// What a ledger output resolves to: an amount in the clear, or the
/// commitments to the low and to the high 32-bit limb of a hidden amount.
#[derive(Clone, Copy, Debug, PartialEq, Eq)]
pub enum XfrAmount {
    NonConfidential(u64),
    Confidential(CompressedPoint, CompressedPoint),
}

/// The value of the blinding factor that opens the commitment to a whole
/// amount, from the values of the blinding factors of its two limbs.
pub open spec fn combined_blind_value(low: nat, high: nat) -> nat {
    (low + LIMB_BASE as nat * high) % group_order()
}

/// The commitment to a whole amount, from the commitments to its two limbs.
pub open spec fn combined_commitment(low: Seq<u8>, high: Seq<u8>) -> Seq<u8> {
    ristretto_sum(low, ristretto_scale(high, LIMB_BASE as nat))
}

/// The blinding factor of a whole amount: `low + 2^32 * high` in the field.
pub fn combine_amount_blinds(low: &Scalar, high: &Scalar) -> (r: Scalar)
    ensures
        r.value() == combined_blind_value(low.value(), high.value()),
        r.is_canonical(),
{
    let base = Scalar::from_u64(LIMB_BASE);
    let shifted = base.mul_mod(high);
    let r = low.add_mod(&shifted);
    proof {
        lemma_add_mod_noop_right(
            low.value() as int,
            LIMB_BASE as int * high.value() as int,
            group_order() as int,
        );
    }
    r
}

/// Combines the limb blinding factors of each triple, keeping the blinding
/// factor of the code.
pub fn get_amount_and_code_blinds(blinds: Vec<LimbBlinds>) -> (r: Vec<AmountAndCodeBlinds>)
    ensures
        r.len() == blinds.len(),
        forall|i: int|
            0 <= i < r.len() ==> {
                &&& (#[trigger] r[i]).0.value() == combined_blind_value(
                    blinds[i].0.0.value(),
                    blinds[i].0.1.value(),
                )
                &&& r[i].1 == blinds[i].1
            },
{
    let mut amount_and_code_blinds: Vec<AmountAndCodeBlinds> = Vec::new();
    let mut i: usize = 0;
    while i < blinds.len()
        invariant
            i <= blinds.len(),
            amount_and_code_blinds.len() == i,
            forall|j: int|
                0 <= j < i ==> {
                    &&& (#[trigger] amount_and_code_blinds[j]).0.value() == combined_blind_value(
                        blinds[j].0.0.value(),
                        blinds[j].0.1.value(),
                    )
                    &&& amount_and_code_blinds[j].1 == blinds[j].1
                },
        decreases blinds.len() - i,
    {
        let ((low, high), code_blind) = blinds[i];
        amount_and_code_blinds.push((combine_amount_blinds(&low, &high), code_blind));
        i = i + 1;
    }
    amount_and_code_blinds
}

/// Every amount of the records fits in 64 bits.
pub open spec fn amounts_in_range(records: Seq<AmountAndCodeScalar>) -> bool {
    forall|i: int| 0 <= i < records.len() ==> (#[trigger] records[i]).0.value() <= u64::MAX
}

/// Whether every amount of the records fits in 64 bits.
pub fn amounts_fit(records: &Vec<AmountAndCodeScalar>) -> (r: bool)
    ensures
        r == amounts_in_range(records@),
{
    let mut i: usize = 0;
    while i < records.len()
        invariant
            i <= records.len(),
            forall|j: int| 0 <= j < i ==> (#[trigger] records[j]).0.value() <= u64::MAX,
        decreases records.len() - i,
    {
        if records[i].0.to_u64().is_none() {
            return false;
        }
        i = i + 1;
    }
    true
}

/// `after` is `before` with one more record at its end, for the given amount
/// and code.
pub open spec fn record_pushed(
    before: Seq<AmountAndCodeScalar>,
    after: Seq<AmountAndCodeScalar>,
    amount: u64,
    code: Scalar,
) -> bool {
    &&& after.len() == before.len() + 1
    &&& after.drop_last() == before
    &&& after.last().0.value() == amount
    &&& after.last().1 == code
}

/// `after` is `before` with one more pair of blinding factors at its end:
/// the combination of the limb blinds, and the blind of the code.
pub open spec fn blinds_pushed(
    before: Seq<AmountAndCodeBlinds>,
    after: Seq<AmountAndCodeBlinds>,
    blinds: LimbBlinds,
) -> bool {
    &&& after.len() == before.len() + 1
    &&& after.drop_last() == before
    &&& after.last().0.value() == combined_blind_value(blinds.0.0.value(), blinds.0.1.value())
    &&& after.last().1 == blinds.1
}

/// `after` is `before` with one more pair of commitments at its end: the
/// combination of the limb commitments, and the commitment to the code.
pub open spec fn commitment_pushed(
    before: Seq<AmountAndCodeCommitment>,
    after: Seq<AmountAndCodeCommitment>,
    low: CompressedPoint,
    high: CompressedPoint,
    code: Scalar,
    code_blind: Scalar,
) -> bool {
    &&& after.len() == before.len() + 1
    &&& after.drop_last() == before
    &&& after.last().0@ == combined_commitment(low@, high@)
    &&& after.last().1@ == pedersen_commitment(code.value(), code_blind.value())
}

/// The error with which an update ends, if it ends with one.
pub open spec fn update_error(
    amount: u64,
    blinds: Option<LimbBlinds>,
    resolved: XfrAmount,
) -> Option<SolvencyError> {
    match resolved {
        XfrAmount::NonConfidential(fetched) => if fetched != amount {
            Some(SolvencyError::InputMismatch)
        } else {
            None
        },
        XfrAmount::Confidential(low, high) => if blinds is None {
            Some(SolvencyError::MissingBlinds)
        } else if !ristretto_decodes(low@) || !ristretto_decodes(high@) {
            Some(SolvencyError::DecompressElement)
        } else {
            None
        },
    }
}

/// The assets and liabilities of an account holder, with the solvency proof
/// where one is in force.
#[derive(Clone, Debug, PartialEq, Eq)]
pub struct AssetAndLiabilityAccount {
    /// Public asset amounts and their codes.
    pub public_assets: Vec<AmountAndCodeScalar>,
    /// Hidden asset amounts and their codes.
    pub hidden_assets: Vec<AmountAndCodeScalar>,
    /// Blinding factors of the hidden assets.
    pub hidden_assets_blinds: Vec<AmountAndCodeBlinds>,
    /// Commitments to the hidden assets.
    pub hidden_assets_commitments: Vec<AmountAndCodeCommitment>,
    /// Public liability amounts and their codes.
    pub public_liabilities: Vec<AmountAndCodeScalar>,
    /// Hidden liability amounts and their codes.
    pub hidden_liabilities: Vec<AmountAndCodeScalar>,
    /// Blinding factors of the hidden liabilities.
    pub hidden_liabilities_blinds: Vec<AmountAndCodeBlinds>,
    /// Commitments to the hidden liabilities.
    pub hidden_liabilities_commitments: Vec<AmountAndCodeCommitment>,
    /// The serialized solvency proof. `None` where solvency was not proved,
    /// or where an asset or liability was added since.
    pub proof: Option<Vec<u8>>,
}

impl AssetAndLiabilityAccount {
    /// Each hidden list runs index for index with its blinds and its
    /// commitments, and every amount fits in 64 bits.
    pub open spec fn well_formed(&self) -> bool {
        &&& self.hidden_assets@.len() == self.hidden_assets_blinds@.len()
        &&& self.hidden_assets@.len() == self.hidden_assets_commitments@.len()
        &&& self.hidden_liabilities@.len() == self.hidden_liabilities_blinds@.len()
        &&& self.hidden_liabilities@.len() == self.hidden_liabilities_commitments@.len()
        &&& amounts_in_range(self.public_assets@)
        &&& amounts_in_range(self.hidden_assets@)
        &&& amounts_in_range(self.public_liabilities@)
        &&& amounts_in_range(self.hidden_liabilities@)
    }

    /// The account holds no entry and no proof.
    pub open spec fn is_empty(&self) -> bool {
        &&& self.public_assets@.len() == 0
        &&& self.hidden_assets@.len() == 0
        &&& self.hidden_assets_blinds@.len() == 0
        &&& self.hidden_assets_commitments@.len() == 0
        &&& self.public_liabilities@.len() == 0
        &&& self.hidden_liabilities@.len() == 0
        &&& self.hidden_liabilities_blinds@.len() == 0
        &&& self.hidden_liabilities_commitments@.len() == 0
        &&& self.proof is None
    }

    /// `after` differs from `self` by one public entry on the side that
    /// `amount_type` names, and holds no proof.
    pub open spec fn public_entry_added(
        &self,
        after: &AssetAndLiabilityAccount,
        amount_type: AmountType,
        amount: u64,
        code: Scalar,
    ) -> bool {
        &&& after.proof is None
        &&& after.hidden_assets@ == self.hidden_assets@
        &&& after.hidden_assets_blinds@ == self.hidden_assets_blinds@
        &&& after.hidden_assets_commitments@ == self.hidden_assets_commitments@
        &&& after.hidden_liabilities@ == self.hidden_liabilities@
        &&& after.hidden_liabilities_blinds@ == self.hidden_liabilities_blinds@
        &&& after.hidden_liabilities_commitments@ == self.hidden_liabilities_commitments@
        &&& match amount_type {
            AmountType::Asset => {
                &&& record_pushed(self.public_assets@, after.public_assets@, amount, code)
                &&& after.public_liabilities@ == self.public_liabilities@
            },
            AmountType::Liability => {
                &&& record_pushed(self.public_liabilities@, after.public_liabilities@, amount, code)
                &&& after.public_assets@ == self.public_assets@
            },
        }
    }

    /// `after` differs from `self` by one hidden entry on the side that
    /// `amount_type` names, with its blinds and its commitments at the same
    /// index, and holds no proof.
    pub open spec fn hidden_entry_added(
        &self,
        after: &AssetAndLiabilityAccount,
        amount_type: AmountType,
        amount: u64,
        code: Scalar,
        blinds: LimbBlinds,
        low: CompressedPoint,
        high: CompressedPoint,
    ) -> bool {
        &&& after.proof is None
        &&& after.public_assets@ == self.public_assets@
        &&& after.public_liabilities@ == self.public_liabilities@
        &&& match amount_type {
            AmountType::Asset => {
                &&& record_pushed(self.hidden_assets@, after.hidden_assets@, amount, code)
                &&& blinds_pushed(self.hidden_assets_blinds@, after.hidden_assets_blinds@, blinds)
                &&& commitment_pushed(
                    self.hidden_assets_commitments@,
                    after.hidden_assets_commitments@,
                    low,
                    high,
                    code,
                    blinds.1,
                )
                &&& after.hidden_liabilities@ == self.hidden_liabilities@
                &&& after.hidden_liabilities_blinds@ == self.hidden_liabilities_blinds@
                &&& after.hidden_liabilities_commitments@ == self.hidden_liabilities_commitments@
            },
            AmountType::Liability => {
                &&& record_pushed(self.hidden_liabilities@, after.hidden_liabilities@, amount, code)
                &&& blinds_pushed(
                    self.hidden_liabilities_blinds@,
                    after.hidden_liabilities_blinds@,
                    blinds,
                )
                &&& commitment_pushed(
                    self.hidden_liabilities_commitments@,
                    after.hidden_liabilities_commitments@,
                    low,
                    high,
                    code,
                    blinds.1,
                )
                &&& after.hidden_assets@ == self.hidden_assets@
                &&& after.hidden_assets_blinds@ == self.hidden_assets_blinds@
                &&& after.hidden_assets_commitments@ == self.hidden_assets_commitments@
            },
        }
    }

    /// An account without entries and without a proof.
    pub fn new() -> (account: AssetAndLiabilityAccount)
        ensures
            account.is_empty(),
            account.well_formed(),
    {
        AssetAndLiabilityAccount {
            public_assets: Vec::new(),
            hidden_assets: Vec::new(),
            hidden_assets_blinds: Vec::new(),
            hidden_assets_commitments: Vec::new(),
            public_liabilities: Vec::new(),
            hidden_liabilities: Vec::new(),
            hidden_liabilities_blinds: Vec::new(),
            hidden_liabilities_commitments: Vec::new(),
            proof: None,
        }
    }

    /// Whether the account is well formed.
    pub fn is_well_formed(&self) -> (r: bool)
        ensures
            r == self.well_formed(),
    {
        self.hidden_assets.len() == self.hidden_assets_blinds.len()
            && self.hidden_assets.len() == self.hidden_assets_commitments.len()
            && self.hidden_liabilities.len() == self.hidden_liabilities_blinds.len()
            && self.hidden_liabilities.len() == self.hidden_liabilities_commitments.len()
            && amounts_fit(&self.public_assets) && amounts_fit(&self.hidden_assets) && amounts_fit(
            &self.public_liabilities,
        ) && amounts_fit(&self.hidden_liabilities)
    }

    /// Takes in a ledger output, given what the ledger resolved it to.
    ///
    /// A plaintext output must carry the claimed amount, and adds a public
    /// entry. A confidential output needs the blinding factors, and adds a
    /// hidden entry with the combined blinding factor and the combined
    /// commitment of its two limbs. A successful update drops the proof; a
    /// failed one leaves the account as it was.
    pub fn update(
        &mut self,
        amount_type: AmountType,
        amount: u64,
        code: Scalar,
        blinds: Option<LimbBlinds>,
        resolved: XfrAmount,
    ) -> (r: Result<(), SolvencyError>)
        ensures
            update_error(amount, blinds, resolved) matches Some(e) ==> r == Err::<
                (),
                SolvencyError,
            >(e) && *final(self) == *old(self),
            update_error(amount, blinds, resolved) is None ==> r is Ok,
            r is Ok ==> final(self).proof is None,
            r is Ok ==> match resolved {
                XfrAmount::NonConfidential(_) => old(self).public_entry_added(
                    final(self),
                    amount_type,
                    amount,
                    code,
                ),
                XfrAmount::Confidential(low, high) => blinds is Some && old(
                    self,
                ).hidden_entry_added(
                    final(self),
                    amount_type,
                    amount,
                    code,
                    blinds->Some_0,
                    low,
                    high,
                ),
            },
            old(self).well_formed() ==> final(self).well_formed(),
    {
        match resolved {
            XfrAmount::NonConfidential(fetched_amount) => {
                if fetched_amount != amount {
                    return Err(SolvencyError::InputMismatch);
                }
                let record = (Scalar::from_u64(amount), code);
                match amount_type {
                    AmountType::Asset => {
                        self.public_assets.push(record);
                        assert(self.public_assets@.drop_last() =~= old(self).public_assets@);
                    },
                    AmountType::Liability => {
                        self.public_liabilities.push(record);
                        assert(self.public_liabilities@.drop_last() =~= old(
                            self,
                        ).public_liabilities@);
                    },
                }
            },
            XfrAmount::Confidential(amount_commitment_low, amount_commitment_high) => {
                let ((amount_blind_low, amount_blind_high), code_blind) = match blinds {
                    Some(b) => b,
                    None => {
                        return Err(SolvencyError::MissingBlinds);
                    },
                };
                let amount_and_code_blinds = (
                    combine_amount_blinds(&amount_blind_low, &amount_blind_high),
                    code_blind,
                );
                let point_low = match get_decompressed_commitment(&amount_commitment_low) {
                    Ok(p) => p,
                    Err(e) => {
                        return Err(e);
                    },
                };
                let point_high = match get_decompressed_commitment(&amount_commitment_high) {
                    Ok(p) => p,
                    Err(e) => {
                        return Err(e);
                    },
                };
                let base = Scalar::from_u64(LIMB_BASE);
                let amount_commitment = point_low.plus(&point_high.scaled(&base)).compress();
                let code_commitment = CompressedPoint::commit(&code, &code_blind);
                let commitment = (amount_commitment, code_commitment);
                let record = (Scalar::from_u64(amount), code);
                match amount_type {
                    AmountType::Asset => {
                        self.hidden_assets.push(record);
                        self.hidden_assets_blinds.push(amount_and_code_blinds);
                        self.hidden_assets_commitments.push(commitment);
                        assert(self.hidden_assets@.drop_last() =~= old(self).hidden_assets@);
                        assert(self.hidden_assets_blinds@.drop_last() =~= old(
                            self,
                        ).hidden_assets_blinds@);
                        assert(self.hidden_assets_commitments@.drop_last() =~= old(
                            self,
                        ).hidden_assets_commitments@);
                    },
                    AmountType::Liability => {
                        self.hidden_liabilities.push(record);
                        self.hidden_liabilities_blinds.push(amount_and_code_blinds);
                        self.hidden_liabilities_commitments.push(commitment);
                        assert(self.hidden_liabilities@.drop_last() =~= old(
                            self,
                        ).hidden_liabilities@);
                        assert(self.hidden_liabilities_blinds@.drop_last() =~= old(
                            self,
                        ).hidden_liabilities_blinds@);
                        assert(self.hidden_liabilities_commitments@.drop_last() =~= old(
                            self,
                        ).hidden_liabilities_commitments@);
                    },
                }
            },
        }
        self.proof = None;
        Ok(())
    }
}

impl Default for AssetAndLiabilityAccount {
    fn default() -> (account: AssetAndLiabilityAccount)
        ensures
            account.is_empty(),
            account.well_formed(),
    {
        AssetAndLiabilityAccount::new()
    }
}

} // verus!
