use vstd::prelude::*;

verus! {

/// Chain id of the GOAT testnet, whose `debug_executionWitness` answer carries
/// decoded headers and an optional list of keys.
pub const GOAT_TESTNET_CHAIN_ID: u64 = 48816;

/// Whether `chain_id` names the GOAT testnet.
pub fn is_goat_testnet(chain_id: u64) -> (r: bool)
    ensures
        r == (chain_id == GOAT_TESTNET_CHAIN_ID),
{
    chain_id == GOAT_TESTNET_CHAIN_ID
}

/// How the execution witness of a block is asked for.
#[derive(Debug, Clone, Copy, PartialEq, Eq)]
pub enum WitnessRequest {
    /// `debug_executionWitness` with RLP-encoded headers, for this block.
    Standard(u64),
    /// The GOAT testnet's `debug_executionWitness`, whose headers come decoded.
    Goat(u64),
}

/// The witness request for the block after `parent`, whose state is read
/// from `parent`'s state root; `None` where `parent` is the last number.
pub fn witness_request(chain_id: u64, parent: u64) -> (r: Option<WitnessRequest>)
    ensures
        parent == u64::MAX <==> r is None,
        r matches Some(WitnessRequest::Goat(n)) ==> chain_id == GOAT_TESTNET_CHAIN_ID && n == parent + 1,
        r matches Some(WitnessRequest::Standard(n)) ==> chain_id != GOAT_TESTNET_CHAIN_ID && n == parent + 1,
{
    if parent == u64::MAX {
        return None;
    }
    if is_goat_testnet(chain_id) {
        Some(WitnessRequest::Goat(parent + 1))
    } else {
        Some(WitnessRequest::Standard(parent + 1))
    }
}

} // verus!
