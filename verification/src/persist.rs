use crate::account::{AmountAndCodeCommitment, AmountAndCodeScalar, AssetAndLiabilityAccount};
use crate::audit::SolvencyAudit;
use crate::point::CompressedPoint;
use crate::scalar::Scalar;
use crate::storage::{
    le_bytes, lemma_parse_stored_lists, lemma_parse_stored_pairs, lemma_parse_stored_proof,
    lemma_parsed_lists_are_stored, lemma_parsed_pairs_are_stored, lemma_parsed_proof_is_stored,
    lists_storable, pairs_storable, parse_lists, parse_pairs, parse_proof, proof_storable,
    raw_pairs, read_pairs, read_u64, stored_lists, stored_pairs, stored_proof, write_pairs,
    write_u64, BytePair, RawPair,
};
use vstd::prelude::*;

verus! {

/// The bytes of a list of pairs of scalars.
pub open spec fn scalar_pairs(list: Seq<AmountAndCodeScalar>) -> Seq<BytePair> {
    Seq::new(list.len(), |i: int| (list[i].0@, list[i].1@))
}

/// The bytes of a list of pairs of commitments.
pub open spec fn point_pairs(list: Seq<AmountAndCodeCommitment>) -> Seq<BytePair> {
    Seq::new(list.len(), |i: int| (list[i].0@, list[i].1@))
}

/// Lists of scalars with the same bytes are the same.
proof fn lemma_scalar_pairs_injective(a: Seq<AmountAndCodeScalar>, b: Seq<AmountAndCodeScalar>)
    requires
        scalar_pairs(a) == scalar_pairs(b),
    ensures
        a == b,
{
    assert(a.len() == scalar_pairs(a).len());
    assert(b.len() == scalar_pairs(b).len());
    assert forall|i: int| 0 <= i < a.len() implies a[i] == b[i] by {
        assert(scalar_pairs(a)[i] == scalar_pairs(b)[i]);
        assert(a[i].0.bytes =~= b[i].0.bytes);
        assert(a[i].1.bytes =~= b[i].1.bytes);
    }
    assert(a =~= b);
}

/// Lists of commitments with the same bytes are the same.
proof fn lemma_point_pairs_injective(
    a: Seq<AmountAndCodeCommitment>,
    b: Seq<AmountAndCodeCommitment>,
)
    requires
        point_pairs(a) == point_pairs(b),
    ensures
        a == b,
{
    assert(a.len() == point_pairs(a).len());
    assert(b.len() == point_pairs(b).len());
    assert forall|i: int| 0 <= i < a.len() implies a[i] == b[i] by {
        assert(point_pairs(a)[i] == point_pairs(b)[i]);
        assert(a[i].0.bytes =~= b[i].0.bytes);
        assert(a[i].1.bytes =~= b[i].1.bytes);
    }
    assert(a =~= b);
}

/// The pairs of scalars as pairs of 32 bytes.
fn raw_of_scalars(list: &Vec<AmountAndCodeScalar>) -> (r: Vec<RawPair>)
    ensures
        raw_pairs(r@) == scalar_pairs(list@),
{
    let mut r: Vec<RawPair> = Vec::new();
    let mut i: usize = 0;
    while i < list.len()
        invariant
            i <= list.len(),
            r@.len() == i,
            forall|j: int| 0 <= j < i ==> (#[trigger] r@[j]).0 == list@[j].0.bytes && r@[j].1 == list@[j].1.bytes,
        decreases list.len() - i,
    {
        r.push((list[i].0.bytes, list[i].1.bytes));
        i = i + 1;
    }
    assert(raw_pairs(r@) =~= scalar_pairs(list@));
    r
}

/// The pairs of commitments as pairs of 32 bytes.
fn raw_of_points(list: &Vec<AmountAndCodeCommitment>) -> (r: Vec<RawPair>)
    ensures
        raw_pairs(r@) == point_pairs(list@),
{
    let mut r: Vec<RawPair> = Vec::new();
    let mut i: usize = 0;
    while i < list.len()
        invariant
            i <= list.len(),
            r@.len() == i,
            forall|j: int| 0 <= j < i ==> (#[trigger] r@[j]).0 == list@[j].0.bytes && r@[j].1 == list@[j].1.bytes,
        decreases list.len() - i,
    {
        r.push((list[i].0.bytes, list[i].1.bytes));
        i = i + 1;
    }
    assert(raw_pairs(r@) =~= point_pairs(list@));
    r
}

/// The pairs of 32 bytes as pairs of scalars.
fn scalars_of_raw(raw: &Vec<RawPair>) -> (r: Vec<AmountAndCodeScalar>)
    ensures
        scalar_pairs(r@) == raw_pairs(raw@),
{
    let mut r: Vec<AmountAndCodeScalar> = Vec::new();
    let mut i: usize = 0;
    while i < raw.len()
        invariant
            i <= raw.len(),
            r@.len() == i,
            forall|j: int| 0 <= j < i ==> (#[trigger] r@[j]).0.bytes == raw@[j].0 && r@[j].1.bytes == raw@[j].1,
        decreases raw.len() - i,
    {
        r.push((Scalar::from_bytes(raw[i].0), Scalar::from_bytes(raw[i].1)));
        i = i + 1;
    }
    assert(scalar_pairs(r@) =~= raw_pairs(raw@));
    r
}

/// The pairs of 32 bytes as pairs of commitments.
fn points_of_raw(raw: &Vec<RawPair>) -> (r: Vec<AmountAndCodeCommitment>)
    ensures
        point_pairs(r@) == raw_pairs(raw@),
{
    let mut r: Vec<AmountAndCodeCommitment> = Vec::new();
    let mut i: usize = 0;
    while i < raw.len()
        invariant
            i <= raw.len(),
            r@.len() == i,
            forall|j: int| 0 <= j < i ==> (#[trigger] r@[j]).0.bytes == raw@[j].0 && r@[j].1.bytes == raw@[j].1,
        decreases raw.len() - i,
    {
        r.push((CompressedPoint::from_bytes(raw[i].0), CompressedPoint::from_bytes(raw[i].1)));
        i = i + 1;
    }
    assert(point_pairs(r@) =~= raw_pairs(raw@));
    r
}

/// Appends the stored form of a list of pairs of scalars.
fn write_scalars(out: &mut Vec<u8>, list: &Vec<AmountAndCodeScalar>)
    ensures
        final(out)@ == old(out)@ + stored_pairs(scalar_pairs(list@)),
{
    let raw = raw_of_scalars(list);
    write_pairs(out, &raw);
}

/// Appends the stored form of a list of pairs of commitments.
fn write_points(out: &mut Vec<u8>, list: &Vec<AmountAndCodeCommitment>)
    ensures
        final(out)@ == old(out)@ + stored_pairs(point_pairs(list@)),
{
    let raw = raw_of_points(list);
    write_pairs(out, &raw);
}

/// Reads the stored list of pairs of scalars that begins at `pos`.
fn read_scalars(bytes: &Vec<u8>, pos: usize) -> (r: Option<(Vec<AmountAndCodeScalar>, usize)>)
    requires
        pos <= bytes.len(),
    ensures
        match parse_pairs(bytes@.subrange(pos as int, bytes.len() as int)) {
            None => r is None,
            Some((list, rest)) => r matches Some((v, next)) && scalar_pairs(v@) == list && pos
                <= next <= bytes.len() && bytes@.subrange(next as int, bytes.len() as int) == rest,
        },
{
    match read_pairs(bytes, pos) {
        None => None,
        Some((raw, next)) => Some((scalars_of_raw(&raw), next)),
    }
}

/// Reads the stored list of pairs of commitments that begins at `pos`.
fn read_points(bytes: &Vec<u8>, pos: usize) -> (r: Option<(Vec<AmountAndCodeCommitment>, usize)>)
    requires
        pos <= bytes.len(),
    ensures
        match parse_pairs(bytes@.subrange(pos as int, bytes.len() as int)) {
            None => r is None,
            Some((list, rest)) => r matches Some((v, next)) && point_pairs(v@) == list && pos
                <= next <= bytes.len() && bytes@.subrange(next as int, bytes.len() as int) == rest,
        },
{
    match read_pairs(bytes, pos) {
        None => None,
        Some((raw, next)) => Some((points_of_raw(&raw), next)),
    }
}

/// Appends the stored form of a proof slot.
fn write_proof(out: &mut Vec<u8>, slot: &Option<Vec<u8>>)
    ensures
        final(out)@ == old(out)@ + stored_proof(proof_view(*slot)),
{
    match slot {
        None => {
            out.push(0u8);
            assert(out@ =~= old(out)@ + stored_proof(None));
        },
        Some(bytes) => {
            out.push(1u8);
            write_u64(out, bytes.len() as u64);
            let mut i: usize = 0;
            while i < bytes.len()
                invariant
                    i <= bytes.len(),
                    out@ == old(out)@ + seq![1u8] + le_bytes(bytes.len() as nat, 8)
                        + bytes@.subrange(0, i as int),
                decreases bytes.len() - i,
            {
                out.push(bytes[i]);
                assert(out@ =~= old(out)@ + seq![1u8] + le_bytes(bytes.len() as nat, 8)
                    + bytes@.subrange(0, i + 1));
                i = i + 1;
            }
            assert(bytes@.subrange(0, i as int) =~= bytes@);
            assert(out@ =~= old(out)@ + stored_proof(Some(bytes@)));
        },
    }
}

/// Reads the stored proof slot that runs from `pos` to the end.
fn read_proof(bytes: &Vec<u8>, pos: usize) -> (r: Option<Option<Vec<u8>>>)
    requires
        pos <= bytes.len(),
    ensures
        match parse_proof(bytes@.subrange(pos as int, bytes.len() as int)) {
            None => r is None,
            Some(slot) => r matches Some(v) && proof_view(v) == slot,
        },
{
    let ghost b = bytes@.subrange(pos as int, bytes.len() as int);
    let room: usize = bytes.len() - pos;
    if room == 0 {
        return None;
    }
    let tag: u8 = bytes[pos];
    assert(b[0] == tag);
    if tag == 0 {
        if room == 1 {
            return Some(None);
        }
        return None;
    }
    if tag != 1 || room < 9 {
        return None;
    }
    let n: u64 = read_u64(bytes, pos + 1);
    assert(b.subrange(1, 9) =~= bytes@.subrange(pos + 1, pos + 9));
    if n != (room - 9) as u64 {
        return None;
    }
    let start: usize = pos + 9;
    let mut v: Vec<u8> = Vec::new();
    let mut i: usize = start;
    while i < bytes.len()
        invariant
            start <= i <= bytes.len(),
            v@ == bytes@.subrange(start as int, i as int),
        decreases bytes.len() - i,
    {
        v.push(bytes[i]);
        assert(v@ =~= bytes@.subrange(start as int, i + 1));
        i = i + 1;
    }
    assert(v@ =~= b.subrange(9, b.len() as int));
    Some(Some(v))
}

/// The bytes of a proof slot.
pub open spec fn proof_view(slot: Option<Vec<u8>>) -> Option<Seq<u8>> {
    match slot {
        Some(bytes) => Some(bytes@),
        None => None,
    }
}

/// Reads a stored account that makes up the whole of `b`: its eight lists
/// and its proof slot.
spec fn parse_account(b: Seq<u8>) -> Option<(Seq<Seq<BytePair>>, Option<Seq<u8>>)> {
    match parse_lists(b, 8) {
        None => None,
        Some((lists, tail)) => match parse_proof(tail) {
            None => None,
            Some(slot) => Some((lists, slot)),
        },
    }
}

impl AssetAndLiabilityAccount {
    /// The bytes of the eight lists of the account, in the order in which
    /// they are stored.
    pub open spec fn entry_lists(&self) -> Seq<Seq<BytePair>> {
        seq![
            scalar_pairs(self.public_assets@),
            scalar_pairs(self.hidden_assets@),
            scalar_pairs(self.hidden_assets_blinds@),
            point_pairs(self.hidden_assets_commitments@),
            scalar_pairs(self.public_liabilities@),
            scalar_pairs(self.hidden_liabilities@),
            scalar_pairs(self.hidden_liabilities_blinds@),
            point_pairs(self.hidden_liabilities_commitments@),
        ]
    }

    /// The stored form of the account: its eight lists, each as the number
    /// of its entries and the entries, and then the proof slot.
    pub open spec fn stored_form(&self) -> Seq<u8> {
        stored_lists(self.entry_lists(), stored_proof(proof_view(self.proof)))
    }

    /// The two accounts hold the same entries, blinds and commitments in the
    /// same order, and the same proof or none.
    pub open spec fn same_content(&self, other: &AssetAndLiabilityAccount) -> bool {
        &&& self.public_assets@ == other.public_assets@
        &&& self.hidden_assets@ == other.hidden_assets@
        &&& self.hidden_assets_blinds@ == other.hidden_assets_blinds@
        &&& self.hidden_assets_commitments@ == other.hidden_assets_commitments@
        &&& self.public_liabilities@ == other.public_liabilities@
        &&& self.hidden_liabilities@ == other.hidden_liabilities@
        &&& self.hidden_liabilities_blinds@ == other.hidden_liabilities_blinds@
        &&& self.hidden_liabilities_commitments@ == other.hidden_liabilities_commitments@
        &&& proof_view(self.proof) == proof_view(other.proof)
    }

    /// The account in its stored form.
    pub fn to_bytes(&self) -> (bytes: Vec<u8>)
        ensures
            bytes@ == self.stored_form(),
    {
        let mut out: Vec<u8> = Vec::new();
        write_scalars(&mut out, &self.public_assets);
        write_scalars(&mut out, &self.hidden_assets);
        write_scalars(&mut out, &self.hidden_assets_blinds);
        write_points(&mut out, &self.hidden_assets_commitments);
        write_scalars(&mut out, &self.public_liabilities);
        write_scalars(&mut out, &self.hidden_liabilities);
        write_scalars(&mut out, &self.hidden_liabilities_blinds);
        write_points(&mut out, &self.hidden_liabilities_commitments);
        write_proof(&mut out, &self.proof);
        proof {
            lemma_stored_lists_of_eight(self.entry_lists(), stored_proof(proof_view(self.proof)));
            assert(out@ =~= self.stored_form());
        }
        out
    }

    /// `r` is what reading `bytes` gives: an account that the bytes are the
    /// stored form of, or `None` where they are the stored form of none.
    pub open spec fn is_read_from(bytes: Seq<u8>, r: Option<AssetAndLiabilityAccount>) -> bool {
        match r {
            Some(account) => account.stored_form() == bytes,
            None => forall|account: AssetAndLiabilityAccount|
                #[trigger] account.stored_form() != bytes,
        }
    }

    /// The account that the bytes are the stored form of, if there is one.
    pub fn from_bytes(bytes: &Vec<u8>) -> (r: Option<AssetAndLiabilityAccount>)
        ensures
            Self::is_read_from(bytes@, r),
    {
        let r = read_account(bytes);
        proof {
            if r is Some {
                lemma_parsed_account_is_stored(bytes@);
            } else {
                assert forall|account: AssetAndLiabilityAccount| #[trigger]
                    account.stored_form() != bytes@ by {
                    lemma_stored_account_parses(account);
                }
            }
        }
        r
    }
}

/// Eight stored lists and a tail, written out.
proof fn lemma_stored_lists_of_eight(lists: Seq<Seq<BytePair>>, tail: Seq<u8>)
    requires
        lists.len() == 8,
    ensures
        stored_lists(lists, tail) == stored_pairs(lists[0]) + stored_pairs(lists[1]) + stored_pairs(
            lists[2],
        ) + stored_pairs(lists[3]) + stored_pairs(lists[4]) + stored_pairs(lists[5]) + stored_pairs(
            lists[6],
        ) + stored_pairs(lists[7]) + tail,
{
    let l1 = lists.drop_first();
    let l2 = l1.drop_first();
    let l3 = l2.drop_first();
    let l4 = l3.drop_first();
    let l5 = l4.drop_first();
    let l6 = l5.drop_first();
    let l7 = l6.drop_first();
    let l8 = l7.drop_first();
    assert(stored_lists(l8, tail) == tail);
    assert(stored_lists(l7, tail) == stored_pairs(lists[7]) + tail);
    assert(stored_lists(l6, tail) == stored_pairs(lists[6]) + stored_lists(l7, tail));
    assert(stored_lists(l5, tail) == stored_pairs(lists[5]) + stored_lists(l6, tail));
    assert(stored_lists(l4, tail) == stored_pairs(lists[4]) + stored_lists(l5, tail));
    assert(stored_lists(l3, tail) == stored_pairs(lists[3]) + stored_lists(l4, tail));
    assert(stored_lists(l2, tail) == stored_pairs(lists[2]) + stored_lists(l3, tail));
    assert(stored_lists(l1, tail) == stored_pairs(lists[1]) + stored_lists(l2, tail));
    assert(stored_lists(lists, tail) == stored_pairs(lists[0]) + stored_lists(l1, tail));
    assert(stored_lists(lists, tail) =~= stored_pairs(lists[0]) + stored_pairs(lists[1])
        + stored_pairs(lists[2]) + stored_pairs(lists[3]) + stored_pairs(lists[4]) + stored_pairs(
        lists[5],
    ) + stored_pairs(lists[6]) + stored_pairs(lists[7]) + tail);
}

/// Every list of pairs of scalars can be stored.
proof fn lemma_scalars_storable(list: &Vec<AmountAndCodeScalar>)
    ensures
        pairs_storable(scalar_pairs(list@)),
{
    assert(list@.len() == list.len());
}

/// Every list of pairs of commitments can be stored.
proof fn lemma_points_storable(list: &Vec<AmountAndCodeCommitment>)
    ensures
        pairs_storable(point_pairs(list@)),
{
    assert(list@.len() == list.len());
}

/// The lists and the proof slot of every account can be stored.
proof fn lemma_account_storable(account: AssetAndLiabilityAccount)
    ensures
        account.entry_lists().len() == 8,
        lists_storable(account.entry_lists()),
        proof_storable(proof_view(account.proof)),
{
    lemma_scalars_storable(&account.public_assets);
    lemma_scalars_storable(&account.hidden_assets);
    lemma_scalars_storable(&account.hidden_assets_blinds);
    lemma_points_storable(&account.hidden_assets_commitments);
    lemma_scalars_storable(&account.public_liabilities);
    lemma_scalars_storable(&account.hidden_liabilities);
    lemma_scalars_storable(&account.hidden_liabilities_blinds);
    lemma_points_storable(&account.hidden_liabilities_commitments);
    match account.proof {
        Some(bytes) => {
            assert(bytes@.len() == bytes.len());
        },
        None => {},
    }
}

/// The stored form of an account is read back as its lists and its proof
/// slot.
proof fn lemma_stored_account_parses(account: AssetAndLiabilityAccount)
    ensures
        parse_account(account.stored_form()) == Some(
            (account.entry_lists(), proof_view(account.proof)),
        ),
{
    lemma_account_storable(account);
    lemma_parse_stored_lists(account.entry_lists(), stored_proof(proof_view(account.proof)));
    lemma_parse_stored_proof(proof_view(account.proof));
}

/// Bytes that are read as an account are the stored form of what was read.
proof fn lemma_parsed_account_is_stored(b: Seq<u8>)
    requires
        parse_account(b) is Some,
    ensures
        parse_account(b)->Some_0.0.len() == 8,
        stored_lists(parse_account(b)->Some_0.0, stored_proof(parse_account(b)->Some_0.1)) == b,
{
    lemma_parsed_lists_are_stored(b, 8);
    lemma_parsed_proof_is_stored(parse_lists(b, 8)->Some_0.1);
}

/// The bytes of some lists of raw pairs.
spec fn raw_lists(raws: Seq<Vec<RawPair>>) -> Seq<Seq<BytePair>> {
    Seq::new(raws.len(), |k: int| raw_pairs(raws[k]@))
}

/// What was read of some lists, with the lists read before them in front.
spec fn after_lists(
    done: Seq<Seq<BytePair>>,
    r: Option<(Seq<Seq<BytePair>>, Seq<u8>)>,
) -> Option<(Seq<Seq<BytePair>>, Seq<u8>)> {
    match r {
        None => None,
        Some((lists, tail)) => Some((done + lists, tail)),
    }
}

/// Reads `count` stored lists from the front of the bytes: the lists and the
/// position behind them.
fn read_lists(bytes: &Vec<u8>, count: usize) -> (r: Option<(Vec<Vec<RawPair>>, usize)>)
    ensures
        match parse_lists(bytes@, count as nat) {
            None => r is None,
            Some((lists, tail)) => r matches Some((raws, next)) && raw_lists(raws@) == lists
                && next <= bytes.len() && bytes@.subrange(next as int, bytes.len() as int) == tail,
        },
{
    let mut raws: Vec<Vec<RawPair>> = Vec::new();
    let mut pos: usize = 0;
    let mut k: usize = 0;
    proof {
        assert(bytes@.subrange(0, bytes.len() as int) =~= bytes@);
        assert(raw_lists(raws@) =~= Seq::<Seq<BytePair>>::empty());
        let r = parse_lists(bytes@, count as nat);
        if r is Some {
            assert(raw_lists(raws@) + r->Some_0.0 =~= r->Some_0.0);
        }
    }
    while k < count
        invariant
            k <= count,
            pos <= bytes.len(),
            raws@.len() == k,
            parse_lists(bytes@, count as nat) == after_lists(
                raw_lists(raws@),
                parse_lists(bytes@.subrange(pos as int, bytes.len() as int), (count - k) as nat),
            ),
        decreases count - k,
    {
        let ghost b = bytes@.subrange(pos as int, bytes.len() as int);
        let ghost done = raw_lists(raws@);
        match read_pairs(bytes, pos) {
            None => {
                return None;
            },
            Some((raw, next)) => {
                let ghost list = raw_pairs(raw@);
                raws.push(raw);
                proof {
                    let rest = bytes@.subrange(next as int, bytes.len() as int);
                    let inner = parse_lists(rest, (count - k - 1) as nat);
                    assert(raw_lists(raws@) =~= done + seq![list]);
                    if inner is Some {
                        assert(done + (seq![list] + inner->Some_0.0) =~= raw_lists(raws@)
                            + inner->Some_0.0);
                    }
                }
                pos = next;
                k = k + 1;
            },
        }
    }
    proof {
        assert(raw_lists(raws@) + Seq::<Seq<BytePair>>::empty() =~= raw_lists(raws@));
    }
    Some((raws, pos))
}

/// Reads a stored account.
fn read_account(bytes: &Vec<u8>) -> (r: Option<AssetAndLiabilityAccount>)
    ensures
        match parse_account(bytes@) {
            None => r is None,
            Some((lists, slot)) => r matches Some(account) && account.entry_lists() == lists
                && proof_view(account.proof) == slot,
        },
{
    let (mut raws, next) = match read_lists(bytes, 8) {
        Some(x) => x,
        None => {
            return None;
        },
    };
    let slot = match read_proof(bytes, next) {
        Some(x) => x,
        None => {
            return None;
        },
    };
    proof {
        lemma_parsed_lists_are_stored(bytes@, 8);
    }
    let ghost lists = raw_lists(raws@);
    let raw7 = raws.pop().unwrap();
    let raw6 = raws.pop().unwrap();
    let raw5 = raws.pop().unwrap();
    let raw4 = raws.pop().unwrap();
    let raw3 = raws.pop().unwrap();
    let raw2 = raws.pop().unwrap();
    let raw1 = raws.pop().unwrap();
    let raw0 = raws.pop().unwrap();
    let account = AssetAndLiabilityAccount {
        public_assets: scalars_of_raw(&raw0),
        hidden_assets: scalars_of_raw(&raw1),
        hidden_assets_blinds: scalars_of_raw(&raw2),
        hidden_assets_commitments: points_of_raw(&raw3),
        public_liabilities: scalars_of_raw(&raw4),
        hidden_liabilities: scalars_of_raw(&raw5),
        hidden_liabilities_blinds: scalars_of_raw(&raw6),
        hidden_liabilities_commitments: points_of_raw(&raw7),
        proof: slot,
    };
    proof {
        assert(account.entry_lists() =~= lists);
    }
    Some(account)
}

/// Two accounts with the same stored form have the same content.
pub proof fn lemma_stored_form_fixes_account(
    account: AssetAndLiabilityAccount,
    other: AssetAndLiabilityAccount,
)
    requires
        other.stored_form() == account.stored_form(),
    ensures
        other.same_content(&account),
{
    lemma_stored_account_parses(account);
    lemma_stored_account_parses(other);
    let a = account.entry_lists();
    let b = other.entry_lists();
    assert(a == b);
    assert(a[0] == b[0] && a[1] == b[1] && a[2] == b[2] && a[3] == b[3]);
    assert(a[4] == b[4] && a[5] == b[5] && a[6] == b[6] && a[7] == b[7]);
    lemma_scalar_pairs_injective(other.public_assets@, account.public_assets@);
    lemma_scalar_pairs_injective(other.hidden_assets@, account.hidden_assets@);
    lemma_scalar_pairs_injective(other.hidden_assets_blinds@, account.hidden_assets_blinds@);
    lemma_point_pairs_injective(
        other.hidden_assets_commitments@,
        account.hidden_assets_commitments@,
    );
    lemma_scalar_pairs_injective(other.public_liabilities@, account.public_liabilities@);
    lemma_scalar_pairs_injective(other.hidden_liabilities@, account.hidden_liabilities@);
    lemma_scalar_pairs_injective(
        other.hidden_liabilities_blinds@,
        account.hidden_liabilities_blinds@,
    );
    lemma_point_pairs_injective(
        other.hidden_liabilities_commitments@,
        account.hidden_liabilities_commitments@,
    );
}

/// Storing an account and reading the bytes back gives an account, and it
/// has the same entries, blinds and commitments in the same order, and the
/// same proof or none.
pub proof fn lemma_stored_account_round_trip(
    account: AssetAndLiabilityAccount,
    read_back: Option<AssetAndLiabilityAccount>,
)
    requires
        AssetAndLiabilityAccount::is_read_from(account.stored_form(), read_back),
    ensures
        read_back matches Some(other) && other.same_content(&account),
{
    match read_back {
        Some(other) => {
            lemma_stored_form_fixes_account(account, other);
        },
        None => {
            assert(account.stored_form() == account.stored_form());
        },
    }
}

impl SolvencyAudit {
    /// The stored form of the audit: the number of its rates, then each code
    /// with its rate.
    pub open spec fn stored_form(&self) -> Seq<u8> {
        stored_pairs(scalar_pairs(self.conversion_rates@))
    }

    /// `r` is what reading `bytes` gives: an audit that the bytes are the
    /// stored form of, or `None` where they are the stored form of none.
    pub open spec fn is_read_from(bytes: Seq<u8>, r: Option<SolvencyAudit>) -> bool {
        match r {
            Some(audit) => audit.stored_form() == bytes,
            None => forall|audit: SolvencyAudit| #[trigger] audit.stored_form() != bytes,
        }
    }

    /// The audit in its stored form.
    pub fn to_bytes(&self) -> (bytes: Vec<u8>)
        ensures
            bytes@ == self.stored_form(),
    {
        let mut out: Vec<u8> = Vec::new();
        write_scalars(&mut out, &self.conversion_rates);
        assert(out@ =~= self.stored_form());
        out
    }

    /// The audit that the bytes are the stored form of, if there is one.
    pub fn from_bytes(bytes: &Vec<u8>) -> (r: Option<SolvencyAudit>)
        ensures
            Self::is_read_from(bytes@, r),
    {
        proof {
            assert(bytes@.subrange(0, bytes.len() as int) =~= bytes@);
            assert forall|audit: SolvencyAudit| audit.stored_form() == bytes@ implies parse_pairs(
                bytes@,
            ) == Some((scalar_pairs(audit.conversion_rates@), Seq::<u8>::empty())) by {
                lemma_scalars_storable(&audit.conversion_rates);
                lemma_parse_stored_pairs(scalar_pairs(audit.conversion_rates@), Seq::empty());
                assert(audit.stored_form() + Seq::<u8>::empty() =~= audit.stored_form());
            }
        }
        match read_scalars(bytes, 0) {
            None => None,
            Some((conversion_rates, next)) => {
                if next != bytes.len() {
                    return None;
                }
                proof {
                    lemma_parsed_pairs_are_stored(bytes@);
                    let rest = bytes@.subrange(next as int, bytes.len() as int);
                    assert(stored_pairs(scalar_pairs(conversion_rates@)) + rest =~= stored_pairs(
                        scalar_pairs(conversion_rates@),
                    ));
                }
                Some(SolvencyAudit { conversion_rates })
            },
        }
    }
}

/// Storing an audit and reading the bytes back gives an audit with the same
/// codes and rates in the same order.
pub proof fn lemma_stored_audit_round_trip(audit: SolvencyAudit, read_back: Option<SolvencyAudit>)
    requires
        SolvencyAudit::is_read_from(audit.stored_form(), read_back),
    ensures
        read_back matches Some(other) && other.conversion_rates@ == audit.conversion_rates@,
{
    match read_back {
        Some(other) => {
            lemma_scalars_storable(&audit.conversion_rates);
            lemma_scalars_storable(&other.conversion_rates);
            lemma_parse_stored_pairs(scalar_pairs(audit.conversion_rates@), Seq::empty());
            lemma_parse_stored_pairs(scalar_pairs(other.conversion_rates@), Seq::empty());
            lemma_scalar_pairs_injective(other.conversion_rates@, audit.conversion_rates@);
        },
        None => {
            assert(audit.stored_form() == audit.stored_form());
        },
    }
}

} // verus!
