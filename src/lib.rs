//! Host-side logic for proving Ethereum block execution in a zkVM: chain
//! selection, the witness-backed state oracle, the input cache layout, the
//! per-block executor and the head-stream dispatcher.
//!
//! Everything that talks to the network, the disk or the prover is done by
//! the caller; this crate decides what to ask for next and checks what comes
//! back.

pub mod account;
pub mod cache;
pub mod chain;
pub mod config;
pub mod digest;
pub mod dispatch;
pub mod error;
pub mod executor;
pub mod public_values;
pub mod rlp;
pub mod store;
pub mod text;
pub mod trie;
pub mod witness;

pub use account::AccountInfo;
pub use cache::{cache_folder, cache_path, cache_temp_path};
pub use chain::{is_goat_testnet, witness_request, WitnessRequest};
pub use config::{Args, ChainIdSource, Config, ConfigError, GenesisSource, HostArgs, ProviderArgs};
pub use digest::{elf_id, ElfIdCell};
pub use dispatch::{select_blocks, should_dispatch, DispatchAction, DispatchEvent, DispatchState, Dispatcher};
pub use error::Error;
pub use error::Error as HostError;
pub use executor::{
    build_executor, BlockFailure, BlockTask, BuildError, CacheLookup, ExecutorConfig, FetchedBlock,
    InputSource, ProofKind, Stage, TaskAction, TaskEvent,
};
pub use public_values::read_block_hash;
pub use trie::{TrieError, WitnessTrie};
pub use witness::{AncestorHeader, DbError, ExecutionWitnessRpcDb};
