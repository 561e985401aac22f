use crate::scalar::Scalar;
use linear_map::LinearMap;
use vstd::prelude::*;

verus! {

/// An asset code and the conversion rate set for it.
pub type CodeAndRate = (Scalar, Scalar);

/// `LinearMap` of linear-map, a map that searches its entries one by one.
#[verifier::external_type_specification]
#[verifier::external_body]
#[verifier::reject_recursive_types(K)]
#[verifier::reject_recursive_types(V)]
pub struct ExLinearMap<K, V>(linear_map::LinearMap<K, V>);

/// A linear map from the bytes of a code to the bytes of its rate.
pub type CodeRateMap = LinearMap<[u8; 32], [u8; 32]>;

/// What a linear map from codes to rates holds: under the bytes of each code,
/// the bytes of its rate.
pub uninterp spec fn rate_entries(m: CodeRateMap) -> Map<Seq<u8>, Seq<u8>>;

/// The map that holds no code.
pub open spec fn no_rates() -> Map<Seq<u8>, Seq<u8>> {
    Map::empty()
}

/// `LinearMap::new`: a map that holds nothing.
#[verifier::external_body]
fn linear_map_new() -> (m: CodeRateMap)
    ensures
        rate_entries(m) == no_rates(),
{
    LinearMap::new()
}

/// `LinearMap::insert`: the value is stored under the key, in place of the
/// value that an equal key had.
#[verifier::external_body]
fn linear_map_insert(m: &mut CodeRateMap, code: [u8; 32], rate: [u8; 32])
    ensures
        rate_entries(*final(m)) == rate_entries(*old(m)).insert(code@, rate@),
{
    m.insert(code, rate);
}

/// `LinearMap::get`: the value stored under a key equal to the given one, if
/// there is such a key.
#[verifier::external_body]
fn linear_map_get(m: &CodeRateMap, code: &[u8; 32]) -> (r: Option<[u8; 32]>)
    ensures
        match r {
            Some(rate) => rate_entries(*m).contains_key(code@) && rate_entries(*m)[code@] == rate@,
            None => !rate_entries(*m).contains_key(code@),
        },
{
    m.get(code).copied()
}

/// The rate that a table of conversion entries gives a code: where the code
/// was set more than once, the rate that was set last. Codes are told apart
/// by their 32 bytes.
pub open spec fn rate_of(table: Seq<CodeAndRate>, code: Seq<u8>) -> Option<Seq<u8>>
    decreases table.len(),
{
    if table.len() == 0 {
        None
    } else if table.last().0@ == code {
        Some(table.last().1@)
    } else {
        rate_of(table.drop_last(), code)
    }
}

/// The table as a map, filled entry by entry in the table's order.
pub open spec fn rate_map(table: Seq<CodeAndRate>) -> Map<Seq<u8>, Seq<u8>>
    decreases table.len(),
{
    if table.len() == 0 {
        Map::empty()
    } else {
        rate_map(table.drop_last()).insert(table.last().0@, table.last().1@)
    }
}

/// The map holds a code exactly where the table gives it a rate, and holds
/// that rate.
pub proof fn lemma_rate_map_is_rate_of(table: Seq<CodeAndRate>, code: Seq<u8>)
    ensures
        rate_map(table).contains_key(code) <==> rate_of(table, code) is Some,
        rate_of(table, code) matches Some(rate) ==> rate_map(table)[code] == rate,
    decreases table.len(),
{
    if table.len() > 0 {
        lemma_rate_map_is_rate_of(table.drop_last(), code);
    }
}

/// A table gives a code a rate exactly where one of its entries has that code.
pub proof fn lemma_rate_of_is_some(table: Seq<CodeAndRate>, code: Seq<u8>)
    ensures
        rate_of(table, code) is Some <==> exists|i: int|
            0 <= i < table.len() && (#[trigger] table[i]).0@ == code,
    decreases table.len(),
{
    if table.len() > 0 {
        let front = table.drop_last();
        lemma_rate_of_is_some(front, code);
        if table.last().0@ == code {
            assert(table[table.len() - 1].0@ == code);
        } else if rate_of(front, code) is Some {
            let i = choose|i: int| 0 <= i < front.len() && (#[trigger] front[i]).0@ == code;
            assert(table[i].0@ == code);
        } else {
            assert forall|i: int| 0 <= i < table.len() implies (#[trigger] table[i]).0@ != code by {
                if i < front.len() {
                    assert(front[i] == table[i]);
                }
            }
        }
    }
}

/// The rate of a code is that of the last entry with that code.
pub proof fn lemma_rate_of_is_last_match(table: Seq<CodeAndRate>, code: Seq<u8>, i: int)
    requires
        0 <= i < table.len(),
        table[i].0@ == code,
        forall|j: int| i < j < table.len() ==> (#[trigger] table[j]).0@ != code,
    ensures
        rate_of(table, code) == Some(table[i].1@),
    decreases table.len(),
{
    if i < table.len() - 1 {
        let front = table.drop_last();
        assert(table[table.len() - 1].0@ != code);
        assert forall|j: int| i < j < front.len() implies (#[trigger] front[j]).0@ != code by {
            assert(front[j] == table[j]);
        }
        lemma_rate_of_is_last_match(front, code, i);
    }
}

/// A lookup structure over a table of conversion rates.
pub struct RateTable {
    map: CodeRateMap,
}

impl View for RateTable {
    type V = Map<Seq<u8>, Seq<u8>>;

    closed spec fn view(&self) -> Map<Seq<u8>, Seq<u8>> {
        rate_entries(self.map)
    }
}

impl RateTable {
    /// A table without entries.
    pub fn new() -> (t: RateTable)
        ensures
            t@ == no_rates(),
    {
        RateTable { map: linear_map_new() }
    }

    /// Sets the rate of a code, in place of the rate that the code had.
    pub fn insert(&mut self, code: &Scalar, rate: &Scalar)
        ensures
            final(self)@ == old(self)@.insert(code@, rate@),
    {
        linear_map_insert(&mut self.map, code.bytes, rate.bytes);
    }

    /// The rate of a code, if the table holds the code.
    pub fn get(&self, code: &Scalar) -> (r: Option<Scalar>)
        ensures
            match r {
                Some(rate) => self@.contains_key(code@) && self@[code@] == rate@,
                None => !self@.contains_key(code@),
            },
    {
        match linear_map_get(&self.map, &code.bytes) {
            Some(bytes) => Some(Scalar { bytes }),
            None => None,
        }
    }

    /// The lookup structure of a table of conversion entries.
    pub fn from_entries(entries: &Vec<CodeAndRate>) -> (t: RateTable)
        ensures
            t@ == rate_map(entries@),
    {
        let mut table = RateTable::new();
        let mut i: usize = 0;
        while i < entries.len()
            invariant
                i <= entries.len(),
                table@ == rate_map(entries@.subrange(0, i as int)),
            decreases entries.len() - i,
        {
            table.insert(&entries[i].0, &entries[i].1);
            proof {
                let next = entries@.subrange(0, i + 1);
                assert(next.drop_last() =~= entries@.subrange(0, i as int));
                assert(next.last() == entries@[i as int]);
            }
            i = i + 1;
        }
        proof {
            assert(entries@.subrange(0, i as int) =~= entries@);
        }
        table
    }
}

} // verus!
