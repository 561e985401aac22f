use crate::account::{amounts_in_range, AmountAndCodeScalar, AssetAndLiabilityAccount};
use crate::rates::{lemma_rate_map_is_rate_of, rate_map, rate_of, CodeAndRate, RateTable};
use crate::scalar::le_value;
use crate::wide::{half_weight, lemma_product_bound, WideSum};
use vstd::prelude::*;

verus! {

/// Every rate of the table fits in 64 bits.
pub open spec fn rates_in_range(table: Seq<CodeAndRate>) -> bool {
    forall|i: int| 0 <= i < table.len() ==> (#[trigger] table[i]).1.value() <= u64::MAX
}

/// The table gives a rate to the code of every record.
pub open spec fn records_covered(records: Seq<AmountAndCodeScalar>, table: Seq<CodeAndRate>) -> bool {
    forall|i: int| 0 <= i < records.len() ==> rate_of(table, (#[trigger] records[i]).1@) is Some
}

/// The table gives a rate to the code of every entry of the account.
pub open spec fn account_covered(account: AssetAndLiabilityAccount, table: Seq<CodeAndRate>) -> bool {
    &&& records_covered(account.hidden_assets@, table)
    &&& records_covered(account.public_assets@, table)
    &&& records_covered(account.hidden_liabilities@, table)
    &&& records_covered(account.public_liabilities@, table)
}

/// The value of the rate that the table gives a code, 0 where it gives none.
pub open spec fn rate_value(table: Seq<CodeAndRate>, code: Seq<u8>) -> nat {
    match rate_of(table, code) {
        Some(rate) => le_value(rate),
        None => 0,
    }
}

/// The sum over the records of amount times rate.
pub open spec fn weighted_total(records: Seq<AmountAndCodeScalar>, table: Seq<CodeAndRate>) -> nat
    decreases records.len(),
{
    if records.len() == 0 {
        0
    } else {
        weighted_total(records.drop_last(), table) + records.last().0.value() * rate_value(
            table,
            records.last().1@,
        )
    }
}

/// The weighted value of all assets of the account, hidden and public.
pub open spec fn assets_total(account: AssetAndLiabilityAccount, table: Seq<CodeAndRate>) -> nat {
    weighted_total(account.hidden_assets@, table) + weighted_total(account.public_assets@, table)
}

/// The weighted value of all liabilities of the account, hidden and public.
pub open spec fn liabilities_total(
    account: AssetAndLiabilityAccount,
    table: Seq<CodeAndRate>,
) -> nat {
    weighted_total(account.hidden_liabilities@, table) + weighted_total(
        account.public_liabilities@,
        table,
    )
}

/// The solvency statement: the assets weigh at least as much as the
/// liabilities.
pub open spec fn is_solvent(account: AssetAndLiabilityAccount, table: Seq<CodeAndRate>) -> bool {
    assets_total(account, table) >= liabilities_total(account, table)
}

/// A rate that the table gives stands in one of its entries.
proof fn lemma_rate_of_in_table(table: Seq<CodeAndRate>, code: Seq<u8>)
    requires
        rate_of(table, code) is Some,
    ensures
        exists|i: int| 0 <= i < table.len() && (#[trigger] table[i]).1@ == rate_of(table, code)->Some_0,
    decreases table.len(),
{
    if table.last().0@ == code {
        assert(table[table.len() - 1].1@ == rate_of(table, code)->Some_0);
    } else {
        let front = table.drop_last();
        lemma_rate_of_in_table(front, code);
        let i = choose|i: int| 0 <= i < front.len() && (#[trigger] front[i]).1@ == rate_of(front, code)->Some_0;
        assert(table[i] == front[i]);
    }
}

/// Whether the table holds the code of every record.
pub(crate) fn records_have_rates(records: &Vec<AmountAndCodeScalar>, rates: &RateTable) -> (r: bool)
    ensures
        r == forall|i: int| 0 <= i < records.len() ==> rates@.contains_key((#[trigger] records[i]).1@),
{
    let mut i: usize = 0;
    while i < records.len()
        invariant
            i <= records.len(),
            forall|j: int| 0 <= j < i ==> rates@.contains_key((#[trigger] records[j]).1@),
        decreases records.len() - i,
    {
        if rates.get(&records[i].1).is_none() {
            return false;
        }
        i = i + 1;
    }
    true
}

/// Adds to `total` the amount of each record times the rate of its code.
pub(crate) fn add_weighted(
    total: &mut WideSum,
    records: &Vec<AmountAndCodeScalar>,
    table: &Vec<CodeAndRate>,
    rates: &RateTable,
)
    requires
        rates@ == rate_map(table@),
        rates_in_range(table@),
        amounts_in_range(records@),
        records_covered(records@, table@),
        old(total)@ + records.len() * half_weight() < (u128::MAX as nat) * half_weight(),
    ensures
        final(total)@ == old(total)@ + weighted_total(records@, table@),
        weighted_total(records@, table@) <= records.len() * half_weight(),
{
    let mut i: usize = 0;
    while i < records.len()
        invariant
            i <= records.len(),
            rates@ == rate_map(table@),
            rates_in_range(table@),
            amounts_in_range(records@),
            records_covered(records@, table@),
            old(total)@ + records.len() * half_weight() < (u128::MAX as nat) * half_weight(),
            total@ == old(total)@ + weighted_total(records@.subrange(0, i as int), table@),
            weighted_total(records@.subrange(0, i as int), table@) <= i * half_weight(),
        decreases records.len() - i,
    {
        let ghost code = records@[i as int].1@;
        proof {
            lemma_rate_map_is_rate_of(table@, code);
            lemma_rate_of_in_table(table@, code);
        }
        let amount: u64 = records[i].0.to_u64().unwrap();
        let rate: u64 = rates.get(&records[i].1).unwrap().to_u64().unwrap();
        proof {
            lemma_product_bound(amount, rate);
            let next = records@.subrange(0, i + 1);
            assert(next.drop_last() =~= records@.subrange(0, i as int));
            assert(next.last() == records@[i as int]);
            assert((i + 1) * half_weight() == i * half_weight() + half_weight()) by (nonlinear_arith);
            assert((i + 1) * half_weight() <= records.len() * half_weight()) by (nonlinear_arith)
                requires
                    i + 1 <= records.len(),
            ;
        }
        total.add_product(amount, rate);
        i = i + 1;
    }
    proof {
        assert(records@.subrange(0, i as int) =~= records@);
    }
}

/// Two lists that fit in memory hold fewer than 2^65 records together.
pub(crate) proof fn lemma_length_bound(a: nat, b: nat)
    requires
        a <= usize::MAX,
        b <= usize::MAX,
    ensures
        a * half_weight() + b * half_weight() < (u128::MAX as nat) * half_weight(),
{
    assert(a * half_weight() + b * half_weight() == (a + b) * half_weight()) by (nonlinear_arith);
    assert((a + b) * half_weight() < (u128::MAX as nat) * half_weight()) by (nonlinear_arith)
        requires
            a + b < u128::MAX,
    ;
}

} // verus!
