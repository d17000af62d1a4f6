use vstd::prelude::*;

use crate::digest::{keccak256, keccak_of};

verus! {

/// A byte string (a trie node, a bytecode) under its Keccak-256 hash.
#[derive(Debug, Clone)]
pub struct HashedEntry {
    pub hash: [u8; 32],
    pub bytes: Vec<u8>,
}

/// Byte strings by their Keccak-256 hash; a later one replaces an earlier
/// one under the same hash.
pub open spec fn hashed_map(items: Seq<Vec<u8>>) -> Map<Seq<u8>, Seq<u8>>
    decreases items.len(),
{
    if items.len() == 0 {
        Map::empty()
    } else {
        hashed_map(items.drop_last()).insert(keccak_of(items.last()@), items.last()@)
    }
}

/// The view of a list of entries: bytes by hash, a later entry replacing an
/// earlier one.
pub open spec fn entries_map(es: Seq<HashedEntry>) -> Map<Seq<u8>, Seq<u8>>
    decreases es.len(),
{
    if es.len() == 0 {
        Map::empty()
    } else {
        entries_map(es.drop_last()).insert(es.last().hash@, es.last().bytes@)
    }
}

/// Keys each byte string by its Keccak-256 hash, in order.
pub fn hash_entries(items: &Vec<Vec<u8>>) -> (r: Vec<HashedEntry>)
    ensures
        entries_map(r@) == hashed_map(items@),
{
    let mut r: Vec<HashedEntry> = Vec::new();
    let mut i: usize = 0;
    while i < items.len()
        invariant
            i <= items@.len(),
            entries_map(r@) == hashed_map(items@.subrange(0, i as int)),
        decreases items@.len() - i,
    {
        let bytes = items[i].clone();
        let hash = keccak256(bytes.as_slice());
        let ghost before = r@;
        r.push(HashedEntry { hash, bytes });
        proof {
            assert(r@.drop_last() =~= before);
            assert(items@.subrange(0, i + 1).drop_last() =~= items@.subrange(0, i as int));
        }
        i = i + 1;
    }
    assert(items@.subrange(0, items@.len() as int) =~= items@);
    r
}

/// Whether the bytes of a hash equal a byte string.
pub fn hash_matches(a: &[u8; 32], b: &[u8]) -> (r: bool)
    ensures
        r == (a@ == b@),
{
    if b.len() != 32 {
        return false;
    }
    let mut i: usize = 0;
    while i < 32
        invariant
            i <= 32,
            a@.len() == 32,
            b@.len() == 32,
            forall|j: int| 0 <= j < i ==> a@[j] == b@[j],
        decreases 32 - i,
    {
        if a[i] != b[i] {
            return false;
        }
        i = i + 1;
    }
    assert(a@ =~= b@);
    true
}

/// The position of the entry that the view holds under `key`.
pub fn find_entry(es: &Vec<HashedEntry>, key: &[u8]) -> (r: Option<usize>)
    ensures
        r is None <==> !entries_map(es@).contains_key(key@),
        r matches Some(i) ==> i < es@.len() && es@[i as int].bytes@ == entries_map(es@)[key@],
{
    let mut i: usize = es.len();
    assert(es@.subrange(0, i as int) =~= es@);
    while i > 0
        invariant
            i <= es@.len(),
            entries_map(es@.subrange(0, i as int)).contains_key(key@)
                == entries_map(es@).contains_key(key@),
            entries_map(es@).contains_key(key@) ==> entries_map(
                es@.subrange(0, i as int),
            )[key@] == entries_map(es@)[key@],
        decreases i,
    {
        let ghost sub = es@.subrange(0, i as int);
        proof {
            assert(sub.drop_last() =~= es@.subrange(0, i - 1));
            assert(sub.last() == es@[i - 1]);
        }
        if hash_matches(&es[i - 1].hash, key) {
            return Some(i - 1);
        }
        i = i - 1;
    }
    assert(entries_map(es@.subrange(0, 0)) =~= Map::<Seq<u8>, Seq<u8>>::empty());
    None
}

} // verus!
