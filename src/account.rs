use vstd::prelude::*;

use crate::rlp::{be_value, rlp_header, rlp_items};

verus! {

/// An account as the state trie stores it.
#[derive(Debug, Clone, Copy, PartialEq, Eq)]
pub struct AccountInfo {
    pub nonce: u64,
    /// The balance as a big-endian 256-bit integer.
    pub balance: [u8; 32],
    pub storage_root: [u8; 32],
    pub code_hash: [u8; 32],
}

/// The payload of a canonical RLP integer of at most `max` bytes: no leading
/// zero byte.
pub open spec fn rlp_uint(payload: Seq<u8>, max: nat) -> bool {
    payload.len() <= max && (payload.len() == 0 || payload[0] != 0)
}

/// Big-endian bytes widened to 32 bytes with leading zeros.
pub open spec fn left_pad32(p: Seq<u8>) -> Seq<u8> {
    Seq::new((32 - p.len()) as nat, |i: int| 0u8) + p
}

/// The fields (nonce, balance, storage root, code hash) of the RLP-encoded
/// account at the start of `buf`: a list of exactly four strings, two
/// canonical integers of at most 8 and 32 bytes, then two 32-byte hashes.
pub open spec fn account_of(buf: Seq<u8>) -> Option<(nat, Seq<u8>, Seq<u8>, Seq<u8>)> {
    match rlp_header(buf) {
        Some((true, pl, hl)) => match rlp_items(buf.subrange(hl as int, (hl + pl) as int)) {
            Some(items) => if items.len() == 4 && !items[0].0 && !items[1].0 && !items[2].0
                && !items[3].0 && rlp_uint(items[0].2, 8) && rlp_uint(items[1].2, 32)
                && items[2].2.len() == 32 && items[3].2.len() == 32 {
                Some((be_value(items[0].2), left_pad32(items[1].2), items[2].2, items[3].2))
            } else {
                None
            },
            None => None,
        },
        _ => None,
    }
}

/// The 256-bit integer, as 32 big-endian bytes, that the RLP string at the
/// start of `buf` encodes canonically.
pub open spec fn word_of(buf: Seq<u8>) -> Option<Seq<u8>> {
    match rlp_header(buf) {
        Some((false, pl, hl)) => {
            let p = buf.subrange(hl as int, (hl + pl) as int);
            if rlp_uint(p, 32) {
                Some(left_pad32(p))
            } else {
                None
            }
        },
        _ => None,
    }
}

/// Relies on `alloy_trie::TrieAccount`'s RLP decoding, and on
/// `U256::to_be_bytes` for the balance.
#[verifier::external_body]
pub(crate) fn decode_account(buf: &[u8]) -> (r: Option<AccountInfo>)
    ensures
        match r {
            Some(a) => account_of(buf@) matches Some(f) && a.nonce == f.0 && a.balance@ == f.1
                && a.storage_root@ == f.2 && a.code_hash@ == f.3,
            None => account_of(buf@) is None,
        },
{
    let mut b = buf;
    match <alloy_trie::TrieAccount as alloy_rlp::Decodable>::decode(&mut b) {
        Ok(a) => Some(
            AccountInfo {
                nonce: a.nonce,
                balance: a.balance.to_be_bytes::<32>(),
                storage_root: a.storage_root.0,
                code_hash: a.code_hash.0,
            },
        ),
        Err(_) => None,
    }
}

/// Relies on the RLP decoding of `alloy_primitives::U256`, and on
/// `U256::to_be_bytes`.
#[verifier::external_body]
pub(crate) fn decode_word(buf: &[u8]) -> (r: Option<[u8; 32]>)
    ensures
        match r {
            Some(w) => word_of(buf@) == Some(w@),
            None => word_of(buf@) is None,
        },
{
    let mut b = buf;
    match <alloy_primitives::U256 as alloy_rlp::Decodable>::decode(&mut b) {
        Ok(v) => Some(v.to_be_bytes::<32>()),
        Err(_) => None,
    }
}

} // verus!
