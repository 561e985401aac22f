use crate::scalar::{le_value, lemma_suffix_step};
use vstd::prelude::*;

verus! {

/// The first `len` bytes of a number, least significant byte first.
pub open spec fn le_bytes(n: nat, len: nat) -> Seq<u8>
    decreases len,
{
    if len == 0 {
        Seq::empty()
    } else {
        seq![(n % 256) as u8] + le_bytes(n / 256, (len - 1) as nat)
    }
}

/// The number of values that `len` bytes tell apart: 256 to the power `len`.
pub(crate) open spec fn capacity(len: nat) -> nat
    decreases len,
{
    if len == 0 {
        1
    } else {
        256 * capacity((len - 1) as nat)
    }
}

/// A number is written in as many bytes as asked for.
pub(crate) proof fn lemma_le_bytes_len(n: nat, len: nat)
    ensures
        le_bytes(n, len).len() == len,
    decreases len,
{
    if len > 0 {
        lemma_le_bytes_len(n / 256, (len - 1) as nat);
    }
}

/// A number below the capacity of its bytes is read back from them.
pub(crate) proof fn lemma_le_value_of_le_bytes(n: nat, len: nat)
    requires
        n < capacity(len),
    ensures
        le_value(le_bytes(n, len)) == n,
    decreases len,
{
    if len > 0 {
        let rest = le_bytes(n / 256, (len - 1) as nat);
        lemma_le_value_of_le_bytes(n / 256, (len - 1) as nat);
        let s = le_bytes(n, len);
        assert(s.drop_first() =~= rest);
        assert(s[0] == (n % 256) as u8);
    }
}

/// Bytes are the encoding of the number that they encode.
pub(crate) proof fn lemma_le_bytes_of_le_value(s: Seq<u8>)
    ensures
        le_bytes(le_value(s), s.len()) == s,
        le_value(s) < capacity(s.len()),
    decreases s.len(),
{
    if s.len() > 0 {
        lemma_le_bytes_of_le_value(s.drop_first());
        let v = le_value(s.drop_first());
        assert(le_value(s) == s[0] as nat + 256 * v);
        assert(le_value(s) % 256 == s[0] as nat);
        assert(le_value(s) / 256 == v);
        assert(le_bytes(le_value(s), s.len()) =~= s);
    } else {
        assert(le_bytes(le_value(s), s.len()) =~= s);
    }
}

/// Eight bytes encode the 64-bit numbers.
pub(crate) proof fn lemma_capacity_of_eight()
    ensures
        capacity(8) == 0x1_0000_0000_0000_0000,
{
    reveal_with_fuel(capacity, 9);
}

/// Appends the eight bytes of a number.
pub(crate) fn write_u64(out: &mut Vec<u8>, n: u64)
    ensures
        final(out)@ == old(out)@ + le_bytes(n as nat, 8),
{
    let mut rest: u64 = n;
    let mut i: usize = 0;
    while i < 8
        invariant
            i <= 8,
            out@ + le_bytes(rest as nat, (8 - i) as nat) == old(out)@ + le_bytes(n as nat, 8),
        decreases 8 - i,
    {
        let ghost before = out@;
        out.push((rest % 256) as u8);
        proof {
            assert(before + le_bytes(rest as nat, (8 - i) as nat) =~= out@ + le_bytes(
                (rest / 256) as nat,
                (8 - i - 1) as nat,
            ));
        }
        rest = rest / 256;
        i = i + 1;
    }
    assert(out@ + le_bytes(rest as nat, 0) =~= out@);
}

/// The number that the eight bytes at `pos` encode.
pub(crate) fn read_u64(bytes: &Vec<u8>, pos: usize) -> (n: u64)
    requires
        pos + 8 <= bytes.len(),
    ensures
        n == le_value(bytes@.subrange(pos as int, pos + 8)),
        le_bytes(n as nat, 8) == bytes@.subrange(pos as int, pos + 8),
{
    let ghost s = bytes@.subrange(pos as int, pos + 8);
    proof {
        lemma_suffix_step(s, 0);
        lemma_suffix_step(s, 1);
        lemma_suffix_step(s, 2);
        lemma_suffix_step(s, 3);
        lemma_suffix_step(s, 4);
        lemma_suffix_step(s, 5);
        lemma_suffix_step(s, 6);
        lemma_suffix_step(s, 7);
        assert(s.subrange(0, 8) =~= s);
        assert(le_value(s.subrange(8, 8)) == 0);
        lemma_le_bytes_of_le_value(s);
    }
    let b7: u64 = bytes[pos + 7] as u64;
    let b6: u64 = bytes[pos + 6] as u64 + 256 * b7;
    let b5: u64 = bytes[pos + 5] as u64 + 256 * b6;
    let b4: u64 = bytes[pos + 4] as u64 + 256 * b5;
    let b3: u64 = bytes[pos + 3] as u64 + 256 * b4;
    let b2: u64 = bytes[pos + 2] as u64 + 256 * b3;
    let b1: u64 = bytes[pos + 1] as u64 + 256 * b2;
    let b0: u64 = bytes[pos] as u64 + 256 * b1;
    b0
}

/// Two byte strings side by side, as the two halves of an entry are stored.
pub type BytePair = (Seq<u8>, Seq<u8>);

/// Two 32-byte values as they are read and written.
pub(crate) type RawPair = ([u8; 32], [u8; 32]);

/// The byte strings of a list of raw pairs.
pub(crate) open spec fn raw_pairs(list: Seq<RawPair>) -> Seq<BytePair> {
    Seq::new(list.len(), |i: int| (list[i].0@, list[i].1@))
}

/// A list that can be stored: it has fewer than 2^64 pairs, and each half of
/// a pair has 32 bytes.
pub open spec fn pairs_storable(list: Seq<BytePair>) -> bool {
    &&& list.len() <= u64::MAX
    &&& forall|i: int|
        0 <= i < list.len() ==> (#[trigger] list[i]).0.len() == 32 && list[i].1.len() == 32
}

/// The pairs of a list one after the other.
pub open spec fn flat(list: Seq<BytePair>) -> Seq<u8>
    decreases list.len(),
{
    if list.len() == 0 {
        Seq::empty()
    } else {
        flat(list.drop_last()) + list.last().0 + list.last().1
    }
}

/// The stored form of a list: the number of its pairs in eight bytes, then
/// the pairs.
pub open spec fn stored_pairs(list: Seq<BytePair>) -> Seq<u8> {
    le_bytes(list.len(), 8) + flat(list)
}

/// The pair that stands at index `i` of a stored list.
pub(crate) open spec fn pair_at(b: Seq<u8>, i: int) -> BytePair {
    (b.subrange(8 + 64 * i, 8 + 64 * i + 32), b.subrange(8 + 64 * i + 32, 8 + 64 * i + 64))
}

/// The first `n` pairs of a stored list.
pub(crate) open spec fn pairs_in(b: Seq<u8>, n: nat) -> Seq<BytePair> {
    Seq::new(n, |i: int| pair_at(b, i))
}

/// Reads a stored list from the front of `b`: the list and the bytes that
/// follow it, or `None` where `b` does not begin with a stored list.
pub(crate) open spec fn parse_pairs(b: Seq<u8>) -> Option<(Seq<BytePair>, Seq<u8>)> {
    if b.len() < 8 {
        None
    } else {
        let n = le_value(b.subrange(0, 8));
        if b.len() < 8 + 64 * n {
            None
        } else {
            Some((pairs_in(b, n), b.subrange((8 + 64 * n) as int, b.len() as int)))
        }
    }
}

/// Each pair of a list takes 64 bytes.
pub(crate) proof fn lemma_flat_len(list: Seq<BytePair>)
    requires
        pairs_storable(list),
    ensures
        flat(list).len() == 64 * list.len(),
    decreases list.len(),
{
    if list.len() > 0 {
        lemma_flat_len(list.drop_last());
    }
}

/// Each pair of a list stands in the flat form at 64 times its index.
pub(crate) proof fn lemma_flat_index(list: Seq<BytePair>, i: int)
    requires
        pairs_storable(list),
        0 <= i < list.len(),
    ensures
        flat(list).len() == 64 * list.len(),
        flat(list).subrange(64 * i, 64 * i + 32) == list[i].0,
        flat(list).subrange(64 * i + 32, 64 * i + 64) == list[i].1,
    decreases list.len(),
{
    let front = list.drop_last();
    lemma_flat_len(list);
    lemma_flat_len(front);
    if i == list.len() - 1 {
        assert(flat(list).subrange(64 * i, 64 * i + 32) =~= list[i].0);
        assert(flat(list).subrange(64 * i + 32, 64 * i + 64) =~= list[i].1);
    } else {
        lemma_flat_index(front, i);
        assert(flat(list).subrange(64 * i, 64 * i + 32) =~= flat(front).subrange(
            64 * i,
            64 * i + 32,
        ));
        assert(flat(list).subrange(64 * i + 32, 64 * i + 64) =~= flat(front).subrange(
            64 * i + 32,
            64 * i + 64,
        ));
    }
}

/// The flat form of the pairs read from a stored list is the stretch of
/// bytes that they were read from.
pub(crate) proof fn lemma_flat_of_pairs_in(b: Seq<u8>, n: nat)
    requires
        8 + 64 * n <= b.len(),
    ensures
        flat(pairs_in(b, n)) == b.subrange(8, (8 + 64 * n) as int),
    decreases n,
{
    if n > 0 {
        let m = (n - 1) as nat;
        lemma_flat_of_pairs_in(b, m);
        assert(pairs_in(b, n).drop_last() =~= pairs_in(b, m));
        assert(flat(pairs_in(b, n)) =~= b.subrange(8, (8 + 64 * n) as int));
    } else {
        assert(flat(pairs_in(b, n)) =~= b.subrange(8, (8 + 64 * n) as int));
    }
}

/// A stored list is read back from the front of any bytes that begin with
/// it, together with the bytes that follow.
pub(crate) proof fn lemma_parse_stored_pairs(list: Seq<BytePair>, rest: Seq<u8>)
    requires
        pairs_storable(list),
    ensures
        parse_pairs(stored_pairs(list) + rest) == Some((list, rest)),
{
    let b = stored_pairs(list) + rest;
    let n = list.len();
    lemma_le_bytes_len(n, 8);
    lemma_flat_len(list);
    lemma_capacity_of_eight();
    lemma_le_value_of_le_bytes(n, 8);
    assert(b.subrange(0, 8) =~= le_bytes(n, 8));
    assert(b.subrange((8 + 64 * n) as int, b.len() as int) =~= rest);
    assert forall|i: int| 0 <= i < n implies pair_at(b, i) == list[i] by {
        lemma_flat_index(list, i);
        assert(b.subrange(8 + 64 * i, 8 + 64 * i + 32) =~= flat(list).subrange(
            64 * i,
            64 * i + 32,
        ));
        assert(b.subrange(8 + 64 * i + 32, 8 + 64 * i + 64) =~= flat(list).subrange(
            64 * i + 32,
            64 * i + 64,
        ));
    }
    assert(pairs_in(b, n) =~= list);
}

/// What is read from the front of some bytes is a list that can be stored,
/// and the bytes are its stored form and what follows.
pub(crate) proof fn lemma_parsed_pairs_are_stored(b: Seq<u8>)
    requires
        parse_pairs(b) is Some,
    ensures
        pairs_storable(parse_pairs(b)->Some_0.0),
        stored_pairs(parse_pairs(b)->Some_0.0) + parse_pairs(b)->Some_0.1 == b,
{
    let head = b.subrange(0, 8);
    let n = le_value(head);
    lemma_le_bytes_of_le_value(head);
    lemma_capacity_of_eight();
    lemma_flat_of_pairs_in(b, n);
    let list = pairs_in(b, n);
    assert(stored_pairs(list) + b.subrange((8 + 64 * n) as int, b.len() as int) =~= b);
}

/// Appends 32 bytes.
fn write_array(out: &mut Vec<u8>, a: &[u8; 32])
    ensures
        final(out)@ == old(out)@ + a@,
{
    let mut i: usize = 0;
    while i < 32
        invariant
            i <= 32,
            out@ == old(out)@ + a@.subrange(0, i as int),
        decreases 32 - i,
    {
        out.push(a[i]);
        assert(out@ =~= old(out)@ + a@.subrange(0, i + 1));
        i = i + 1;
    }
    assert(a@.subrange(0, 32) =~= a@);
}

/// The 32 bytes at `pos`.
fn read_array(bytes: &Vec<u8>, pos: usize) -> (a: [u8; 32])
    requires
        pos + 32 <= bytes.len(),
    ensures
        a@ == bytes@.subrange(pos as int, pos + 32),
{
    let mut a: [u8; 32] = [0u8; 32];
    let mut i: usize = 0;
    while i < 32
        invariant
            i <= 32,
            pos + 32 <= bytes.len(),
            forall|j: int| 0 <= j < i ==> a@[j] == bytes@[pos + j],
        decreases 32 - i,
    {
        a[i] = bytes[pos + i];
        i = i + 1;
    }
    assert(a@ =~= bytes@.subrange(pos as int, pos + 32));
    a
}

/// Appends the stored form of a list.
pub(crate) fn write_pairs(out: &mut Vec<u8>, list: &Vec<RawPair>)
    ensures
        final(out)@ == old(out)@ + stored_pairs(raw_pairs(list@)),
{
    let ghost pairs = raw_pairs(list@);
    write_u64(out, list.len() as u64);
    let mut i: usize = 0;
    assert(flat(pairs.subrange(0, 0)) =~= Seq::<u8>::empty());
    assert(out@ =~= old(out)@ + le_bytes(list.len() as nat, 8) + flat(pairs.subrange(0, 0)));
    while i < list.len()
        invariant
            i <= list.len(),
            pairs == raw_pairs(list@),
            out@ == old(out)@ + le_bytes(list.len() as nat, 8) + flat(pairs.subrange(0, i as int)),
        decreases list.len() - i,
    {
        let ghost before = out@;
        write_array(out, &list[i].0);
        write_array(out, &list[i].1);
        proof {
            let next = pairs.subrange(0, i + 1);
            assert(next.drop_last() =~= pairs.subrange(0, i as int));
            assert(next.last() == (list@[i as int].0@, list@[i as int].1@));
            assert(out@ =~= old(out)@ + le_bytes(list.len() as nat, 8) + flat(next));
        }
        i = i + 1;
    }
    proof {
        assert(pairs.subrange(0, i as int) =~= pairs);
        assert(out@ =~= old(out)@ + stored_pairs(pairs));
    }
}

/// Reads the stored list that begins at `pos`: the list and the position
/// behind it, or `None` where no stored list begins there.
pub(crate) fn read_pairs(bytes: &Vec<u8>, pos: usize) -> (r: Option<(Vec<RawPair>, usize)>)
    requires
        pos <= bytes.len(),
    ensures
        match parse_pairs(bytes@.subrange(pos as int, bytes.len() as int)) {
            None => r is None,
            Some((list, rest)) => r matches Some((v, next)) && raw_pairs(v@) == list && pos <= next
                <= bytes.len() && bytes@.subrange(next as int, bytes.len() as int) == rest,
        },
{
    let ghost b = bytes@.subrange(pos as int, bytes.len() as int);
    if bytes.len() - pos < 8 {
        return None;
    }
    let n: u64 = read_u64(bytes, pos);
    assert(b.subrange(0, 8) =~= bytes@.subrange(pos as int, pos + 8));
    let room: usize = bytes.len() - pos - 8;
    if n > (room / 64) as u64 {
        return None;
    }
    let count: usize = n as usize;
    let start: usize = pos + 8;
    let mut v: Vec<RawPair> = Vec::new();
    let mut i: usize = 0;
    while i < count
        invariant
            i <= count,
            start == pos + 8,
            start + 64 * count <= bytes.len(),
            b == bytes@.subrange(pos as int, bytes.len() as int),
            v@.len() == i,
            forall|j: int| 0 <= j < i ==> (#[trigger] v@[j]).0@ == pair_at(b, j).0 && v@[j].1@ == pair_at(b, j).1,
        decreases count - i,
    {
        let at: usize = start + 64 * i;
        let first = read_array(bytes, at);
        let second = read_array(bytes, at + 32);
        proof {
            assert(first@ =~= pair_at(b, i as int).0);
            assert(second@ =~= pair_at(b, i as int).1);
        }
        v.push((first, second));
        i = i + 1;
    }
    let next: usize = start + 64 * count;
    proof {
        assert(raw_pairs(v@) =~= pairs_in(b, n as nat));
        assert(bytes@.subrange(next as int, bytes.len() as int) =~= b.subrange(
            (8 + 64 * n) as int,
            b.len() as int,
        ));
    }
    Some((v, next))
}

/// Every list can be stored.
pub open spec fn lists_storable(lists: Seq<Seq<BytePair>>) -> bool {
    forall|k: int| 0 <= k < lists.len() ==> pairs_storable(#[trigger] lists[k])
}

/// The stored forms of some lists one after the other, followed by `tail`.
pub open spec fn stored_lists(lists: Seq<Seq<BytePair>>, tail: Seq<u8>) -> Seq<u8>
    decreases lists.len(),
{
    if lists.len() == 0 {
        tail
    } else {
        stored_pairs(lists[0]) + stored_lists(lists.drop_first(), tail)
    }
}

/// Reads `count` stored lists from the front of `b`: the lists and the bytes
/// that follow them.
pub(crate) open spec fn parse_lists(b: Seq<u8>, count: nat) -> Option<(Seq<Seq<BytePair>>, Seq<u8>)>
    decreases count,
{
    if count == 0 {
        Some((Seq::empty(), b))
    } else {
        match parse_pairs(b) {
            None => None,
            Some((list, rest)) => match parse_lists(rest, (count - 1) as nat) {
                None => None,
                Some((lists, tail)) => Some((seq![list] + lists, tail)),
            },
        }
    }
}

/// Stored lists are read back, together with the bytes that follow them.
pub(crate) proof fn lemma_parse_stored_lists(lists: Seq<Seq<BytePair>>, tail: Seq<u8>)
    requires
        lists_storable(lists),
    ensures
        parse_lists(stored_lists(lists, tail), lists.len()) == Some((lists, tail)),
    decreases lists.len(),
{
    if lists.len() > 0 {
        let others = lists.drop_first();
        assert(pairs_storable(lists[0]));
        assert forall|k: int| 0 <= k < others.len() implies pairs_storable(#[trigger] others[k]) by {
            assert(others[k] == lists[k + 1]);
        }
        lemma_parse_stored_pairs(lists[0], stored_lists(others, tail));
        lemma_parse_stored_lists(others, tail);
        assert(seq![lists[0]] + others =~= lists);
    } else {
        assert(lists =~= Seq::<Seq<BytePair>>::empty());
    }
}

/// What is read from some bytes are lists that can be stored, and the bytes
/// are their stored forms and what follows.
pub(crate) proof fn lemma_parsed_lists_are_stored(b: Seq<u8>, count: nat)
    requires
        parse_lists(b, count) is Some,
    ensures
        parse_lists(b, count)->Some_0.0.len() == count,
        lists_storable(parse_lists(b, count)->Some_0.0),
        stored_lists(parse_lists(b, count)->Some_0.0, parse_lists(b, count)->Some_0.1) == b,
    decreases count,
{
    if count > 0 {
        let (list, rest) = parse_pairs(b)->Some_0;
        let (others, tail) = parse_lists(rest, (count - 1) as nat)->Some_0;
        lemma_parsed_pairs_are_stored(b);
        lemma_parsed_lists_are_stored(rest, (count - 1) as nat);
        let lists = seq![list] + others;
        assert(lists.drop_first() =~= others);
        assert(lists[0] == list);
        assert forall|k: int| 0 <= k < lists.len() implies pairs_storable(#[trigger] lists[k]) by {
            if k > 0 {
                assert(lists[k] == others[k - 1]);
            }
        }
    }
}

/// A proof that can be stored has fewer than 2^64 bytes.
pub open spec fn proof_storable(proof_bytes: Option<Seq<u8>>) -> bool {
    match proof_bytes {
        None => true,
        Some(bytes) => bytes.len() <= u64::MAX,
    }
}

/// The stored form of the proof slot: the byte 0 where it is empty, else the
/// byte 1, the number of bytes of the proof in eight bytes, and the proof.
pub open spec fn stored_proof(proof_bytes: Option<Seq<u8>>) -> Seq<u8> {
    match proof_bytes {
        None => seq![0u8],
        Some(bytes) => seq![1u8] + le_bytes(bytes.len(), 8) + bytes,
    }
}

/// Reads a stored proof slot that makes up the whole of `b`.
pub(crate) open spec fn parse_proof(b: Seq<u8>) -> Option<Option<Seq<u8>>> {
    if b.len() == 1 && b[0] == 0 {
        Some(None)
    } else if b.len() >= 9 && b[0] == 1 && le_value(b.subrange(1, 9)) == b.len() - 9 {
        Some(Some(b.subrange(9, b.len() as int)))
    } else {
        None
    }
}

/// A stored proof slot is read back.
pub(crate) proof fn lemma_parse_stored_proof(proof_bytes: Option<Seq<u8>>)
    requires
        proof_storable(proof_bytes),
    ensures
        parse_proof(stored_proof(proof_bytes)) == Some(proof_bytes),
{
    match proof_bytes {
        None => {},
        Some(bytes) => {
            let b = stored_proof(proof_bytes);
            lemma_le_bytes_len(bytes.len(), 8);
            lemma_capacity_of_eight();
            lemma_le_value_of_le_bytes(bytes.len(), 8);
            assert(b.subrange(1, 9) =~= le_bytes(bytes.len(), 8));
            assert(b.subrange(9, b.len() as int) =~= bytes);
        },
    }
}

/// What is read as a proof slot can be stored, and the bytes are its stored
/// form.
pub(crate) proof fn lemma_parsed_proof_is_stored(b: Seq<u8>)
    requires
        parse_proof(b) is Some,
    ensures
        proof_storable(parse_proof(b)->Some_0),
        stored_proof(parse_proof(b)->Some_0) == b,
{
    if b.len() == 1 && b[0] == 0 {
        assert(stored_proof(None) =~= b);
    } else {
        let head = b.subrange(1, 9);
        lemma_le_bytes_of_le_value(head);
        lemma_capacity_of_eight();
        assert(stored_proof(Some(b.subrange(9, b.len() as int))) =~= b);
    }
}

} // verus!
