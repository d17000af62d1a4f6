use vstd::prelude::*;

use crate::digest::keccak_of;

verus! {

/// Length of the frame in front of a committed 32-byte value: its length as a
/// little-endian `u64`.
pub const LENGTH_PREFIX: usize = 8;

/// The bytes that the guest commits for a block hash `h`: the length 32 as a
/// little-endian `u64`, then the hash itself.
pub open spec fn committed_hash_bytes(h: Seq<u8>) -> Seq<u8> {
    seq![32u8, 0u8, 0u8, 0u8, 0u8, 0u8, 0u8, 0u8] + h
}

/// The first committed value of a public-values buffer, when it is a framed
/// 32-byte hash.
pub open spec fn first_committed_hash(pv: Seq<u8>) -> Option<Seq<u8>> {
    if pv.len() >= 40 && pv.subrange(0, 8) == seq![32u8, 0u8, 0u8, 0u8, 0u8, 0u8, 0u8, 0u8] {
        Some(pv.subrange(8, 40))
    } else {
        None
    }
}

/// The hash of a block: the Keccak-256 digest of its RLP-encoded header.
pub open spec fn block_hash_of(header_rlp: Seq<u8>) -> Seq<u8> {
    keccak_of(header_rlp)
}

/// Reads the block hash that the guest committed first in its public values.
pub fn read_block_hash(pv: &Vec<u8>) -> (r: Option<[u8; 32]>)
    ensures
        r matches Some(h) ==> first_committed_hash(pv@) == Some(h@),
        r is None ==> first_committed_hash(pv@) is None,
{
    let ghost prefix = seq![32u8, 0u8, 0u8, 0u8, 0u8, 0u8, 0u8, 0u8];
    if pv.len() < 40 {
        return None;
    }
    if pv[0] != 32 {
        assert(pv@.subrange(0, 8)[0] != prefix[0]);
        return None;
    }
    let mut i: usize = 1;
    while i < LENGTH_PREFIX
        invariant
            1 <= i <= 8,
            prefix == seq![32u8, 0u8, 0u8, 0u8, 0u8, 0u8, 0u8, 0u8],
            pv@.len() >= 40,
            pv@[0] == 32,
            forall|j: int| 1 <= j < i ==> pv@[j] == 0,
        decreases 8 - i,
    {
        if pv[i] != 0 {
            assert(pv@.subrange(0, 8)[i as int] != prefix[i as int]);
            return None;
        }
        i = i + 1;
    }
    assert(pv@.subrange(0, 8) =~= prefix);
    let mut h = [0u8; 32];
    let mut k: usize = 0;
    while k < 32
        invariant
            k <= 32,
            pv@.len() >= 40,
            h@.len() == 32,
            forall|j: int| 0 <= j < k ==> h@[j] == pv@[j + 8],
        decreases 32 - k,
    {
        h[k] = pv[k + 8];
        k = k + 1;
    }
    assert(h@ =~= pv@.subrange(8, 40));
    Some(h)
}

/// Reading the public values that start with a committed block hash gives that
/// hash back, whatever the guest committed after it.
pub proof fn lemma_committed_hash_read_back(header_rlp: Seq<u8>, rest: Seq<u8>)
    requires
        block_hash_of(header_rlp).len() == 32,
    ensures
        first_committed_hash(committed_hash_bytes(block_hash_of(header_rlp)) + rest)
            == Some(block_hash_of(header_rlp)),
{
    let h = block_hash_of(header_rlp);
    let pv = committed_hash_bytes(h) + rest;
    assert(pv.subrange(0, 8) =~= seq![32u8, 0u8, 0u8, 0u8, 0u8, 0u8, 0u8, 0u8]);
    assert(pv.subrange(8, 40) =~= h);
}

} // verus!
