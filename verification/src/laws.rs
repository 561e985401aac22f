use crate::account::{AmountAndCodeScalar, AssetAndLiabilityAccount};
use crate::audit::{proving_error, verification_error};
use crate::error::SolvencyError;
use crate::r1cs::r1cs_proof_decodes;
use crate::rates::{lemma_rate_of_is_some, rate_of, CodeAndRate};
use crate::scalar::{le_value, Scalar};
use crate::statement::{account_covered, is_solvent, records_covered};
use vstd::prelude::*;

verus! {

/// No entry of the table has the code of record `i`.
pub open spec fn record_unrated(
    records: Seq<AmountAndCodeScalar>,
    table: Seq<CodeAndRate>,
    i: int,
) -> bool {
    &&& 0 <= i < records.len()
    &&& forall|j: int| 0 <= j < table.len() ==> (#[trigger] table[j]).0@ != records[i].1@
}

/// Some entry of the account has a code for which the table has no entry.
pub open spec fn has_unrated_entry(
    account: AssetAndLiabilityAccount,
    table: Seq<CodeAndRate>,
) -> bool {
    exists|i: int|
        {
            ||| #[trigger] record_unrated(account.hidden_assets@, table, i)
            ||| record_unrated(account.public_assets@, table, i)
            ||| record_unrated(account.hidden_liabilities@, table, i)
            ||| record_unrated(account.public_liabilities@, table, i)
        }
}

/// The account with the given proof in place of its own.
pub open spec fn with_proof(
    account: AssetAndLiabilityAccount,
    proof_bytes: Option<Vec<u8>>,
) -> AssetAndLiabilityAccount {
    AssetAndLiabilityAccount { proof: proof_bytes, ..account }
}

/// A list with a record whose code has no rate is not covered.
proof fn lemma_unrated_record_uncovered(
    records: Seq<AmountAndCodeScalar>,
    table: Seq<CodeAndRate>,
    i: int,
)
    requires
        record_unrated(records, table, i),
    ensures
        !records_covered(records, table),
{
    lemma_rate_of_is_some(table, records[i].1@);
    assert(rate_of(table, records[i].1@) is None);
}

/// An account with an entry whose code has no rate is not covered.
pub proof fn lemma_unrated_entry_uncovered(
    account: AssetAndLiabilityAccount,
    table: Seq<CodeAndRate>,
)
    requires
        has_unrated_entry(account, table),
    ensures
        !account_covered(account, table),
{
    let i = choose|i: int|
        {
            ||| #[trigger] record_unrated(account.hidden_assets@, table, i)
            ||| record_unrated(account.public_assets@, table, i)
            ||| record_unrated(account.hidden_liabilities@, table, i)
            ||| record_unrated(account.public_liabilities@, table, i)
        };
    if record_unrated(account.hidden_assets@, table, i) {
        lemma_unrated_record_uncovered(account.hidden_assets@, table, i);
    } else if record_unrated(account.public_assets@, table, i) {
        lemma_unrated_record_uncovered(account.public_assets@, table, i);
    } else if record_unrated(account.hidden_liabilities@, table, i) {
        lemma_unrated_record_uncovered(account.hidden_liabilities@, table, i);
    } else {
        lemma_unrated_record_uncovered(account.public_liabilities@, table, i);
    }
}

/// Where an entry of the account has a code without a rate, proving fails
/// with `MissingConversionRate` whatever the prover did, and so does
/// verifying a stored proof that can be read back, whatever the verifier
/// said: no entry is passed over.
pub proof fn lemma_missing_rate_fails(
    account: AssetAndLiabilityAccount,
    table: Seq<CodeAndRate>,
    produced: bool,
    accepted: bool,
)
    requires
        has_unrated_entry(account, table),
    ensures
        proving_error(table, account, produced) == Some(SolvencyError::MissingConversionRate),
        account.proof matches Some(bytes) && r1cs_proof_decodes(bytes@) ==> verification_error(
            table,
            account,
            accepted,
        ) == Some(SolvencyError::MissingConversionRate),
{
    lemma_unrated_entry_uncovered(account, table);
}

/// Where every entry has a rate and the weighted liabilities exceed the
/// weighted assets, proving fails with `ProveFailed` whatever the prover did.
pub proof fn lemma_insolvent_is_not_proved(
    account: AssetAndLiabilityAccount,
    table: Seq<CodeAndRate>,
    produced: bool,
)
    requires
        account_covered(account, table),
        !is_solvent(account, table),
    ensures
        proving_error(table, account, produced) == Some(SolvencyError::ProveFailed),
{
}

/// Where every entry has a rate and the weighted assets are at least the
/// weighted liabilities, proving succeeds as soon as the prover produces a
/// proof; verifying the account with that proof stored then ends as the
/// reading of the proof and the verifier decide, and with no other error.
pub proof fn lemma_prove_then_verify(
    account: AssetAndLiabilityAccount,
    table: Seq<CodeAndRate>,
    proof_bytes: Vec<u8>,
    accepted: bool,
)
    requires
        account_covered(account, table),
        is_solvent(account, table),
    ensures
        proving_error(table, account, true) is None,
        verification_error(table, with_proof(account, Some(proof_bytes)), accepted) == (
        if !r1cs_proof_decodes(proof_bytes@) {
            Some(SolvencyError::DeserializeProof)
        } else if !accepted {
            Some(SolvencyError::VerifyFailed)
        } else {
            None
        }),
{
}

/// Verifying the same account under the same rates twice ends the same way
/// both times, given the same verdict of the verifier.
pub proof fn lemma_verify_is_repeatable(
    account: AssetAndLiabilityAccount,
    table: Seq<CodeAndRate>,
    first_verdict: bool,
    second_verdict: bool,
)
    requires
        first_verdict == second_verdict,
    ensures
        verification_error(table, account, first_verdict) == verification_error(
            table,
            account,
            second_verdict,
        ),
{
}

/// An account without a stored proof fails verification with `MissingProof`.
pub proof fn lemma_no_proof_no_verification(
    account: AssetAndLiabilityAccount,
    table: Seq<CodeAndRate>,
    accepted: bool,
)
    requires
        account.proof is None,
    ensures
        verification_error(table, account, accepted) == Some(SolvencyError::MissingProof),
{
}

/// Byte strings of one length that encode the same number are the same.
pub proof fn lemma_le_value_injective(a: Seq<u8>, b: Seq<u8>)
    requires
        a.len() == b.len(),
        le_value(a) == le_value(b),
    ensures
        a == b,
    decreases a.len(),
{
    if a.len() > 0 {
        let x = le_value(a.drop_first());
        let y = le_value(b.drop_first());
        assert(a[0] as int + 256 * x == b[0] as int + 256 * y);
        assert(x == y && a[0] == b[0]);
        lemma_le_value_injective(a.drop_first(), b.drop_first());
        assert(a =~= seq![a[0]] + a.drop_first());
        assert(b =~= seq![b[0]] + b.drop_first());
    } else {
        assert(a =~= b);
    }
}

/// Scalars with the same value are the same.
pub proof fn lemma_value_fixes_scalar(a: Scalar, b: Scalar)
    requires
        a.value() == b.value(),
    ensures
        a == b,
{
    lemma_le_value_injective(a.bytes@, b.bytes@);
    assert(a.bytes =~= b.bytes);
}

} // verus!
