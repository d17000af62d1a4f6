use vstd::prelude::*;

use vstd::string::StringExecFns;

use crate::config::Config;
use crate::digest::{keccak256, keccak_of};
use crate::error::{error_text, Error};
use crate::public_values::{first_committed_hash, read_block_hash};
use crate::store::hash_matches;

verus! {

/// The kind of proof the prover is asked for.
#[derive(Debug, Clone, Copy, PartialEq, Eq)]
pub enum ProofKind {
    Core,
    Compressed,
    Plonk,
    Groth16,
}

/// Where a block executor takes its inputs from.
#[derive(Debug, Clone, Copy, PartialEq, Eq)]
pub enum InputSource {
    /// Inputs are assembled from RPC data, with the cache consulted first when
    /// one is configured.
    Rpc,
    /// Inputs are only read from the cache; a missing entry fails the block.
    CacheOnly,
}

/// What a block executor needs to decide the work on one block.
#[derive(Debug, Clone, Copy, PartialEq, Eq)]
pub struct ExecutorConfig {
    pub chain_id: u64,
    pub source: InputSource,
    /// Whether a cache directory is configured.
    pub caching: bool,
    /// `None` executes the guest only; `Some(kind)` generates a proof.
    pub prove_mode: Option<ProofKind>,
    /// The opcode-tracking flag of the current run, which always overrides the
    /// one stored with a cached input.
    pub opcode_tracking: bool,
}

/// A block as fetched over RPC: its number, the hash that the RPC reports, the
/// RLP encoding of its header and the state root that the header holds.
#[derive(Debug, Clone, PartialEq, Eq)]
pub struct FetchedBlock {
    pub number: u64,
    pub hash: [u8; 32],
    pub header_rlp: Vec<u8>,
    pub state_root: [u8; 32],
}

/// The outcome of looking a block up in the input cache.
#[derive(Debug, Clone, PartialEq, Eq)]
pub enum CacheLookup {
    Missing,
    /// The entry exists but could not be read or decoded.
    Unreadable(String),
    Found,
}

/// What the outside world reports back to a block task.
#[derive(Debug, PartialEq, Eq)]
pub enum TaskEvent {
    Begin,
    HookDone(Result<(), String>),
    CacheLoaded(CacheLookup),
    BlockFetched(Option<FetchedBlock>),
    /// The root hash of the state trie rebuilt from the execution witness.
    WitnessBuilt(Result<[u8; 32], String>),
    InputStored(Result<(), String>),
    /// A request to the RPC endpoint failed in transport.
    TransportFailed(String),
    /// Whether the senders of every transaction of the block were recovered
    /// from their signatures.
    SendersRecovered(bool),
    /// The public values of the guest run, or the prover's error.
    ProverDone(Result<Vec<u8>, String>),
}

/// Why the work on one block failed.
#[derive(Debug, Clone, PartialEq, Eq)]
pub enum BlockFailure {
    Host(Error),
    Hook(String),
    Cache(String),
    NoCachedInput,
    Prover(String),
    MalformedPublicValues,
}

/// The next thing a block task asks the outside world to do.
#[derive(Debug, PartialEq, Eq)]
pub enum TaskAction {
    NotifyExecutionStart(u64),
    LoadCache { chain_id: u64, block: u64 },
    FetchBlock(u64),
    /// Fetch the execution witness of `block` and rebuild the parent state
    /// from it; the rebuilt root must equal `parent_state_root`.
    BuildWitness { block: u64, parent_state_root: [u8; 32] },
    /// Recover the senders of the block's transactions from their signatures.
    RecoverSenders(u64),
    StoreInput { chain_id: u64, block: u64 },
    NotifyProvingStart(u64),
    Prove { block: u64, kind: ProofKind, opcode_tracking: bool },
    Execute { block: u64, opcode_tracking: bool },
    NotifyExecutionEnd { block: u64, block_hash: [u8; 32] },
    NotifyProvingEnd(u64),
    Finish(Result<(), BlockFailure>),
    /// The event does not belong to the current stage; nothing to do.
    Wait,
}

/// Where a block task stands.
#[derive(Debug, Clone, Copy, PartialEq, Eq)]
pub enum Stage {
    Idle,
    StartHook,
    Cache,
    CurrentBlock,
    PreviousBlock,
    Witness([u8; 32]),
    Senders,
    Store,
    ProvingStartHook(ProofKind),
    Proving,
    Executing,
    EndHook,
    Finished,
}

/// The work on one block: load or assemble its input, then execute or prove it.
#[derive(Debug)]
pub struct BlockTask {
    pub config: ExecutorConfig,
    pub block: u64,
    pub stage: Stage,
}

/// The task moves to stage `s` and asks for `act`.
pub open spec fn goes(s2: Stage, a: TaskAction, s: Stage, act: TaskAction) -> bool {
    s2 == s && a == act
}

/// The task finishes with failure `f`.
pub open spec fn fails(s2: Stage, a: TaskAction, f: BlockFailure) -> bool {
    s2 == Stage::Finished && a == TaskAction::Finish(Err(f))
}

/// The step that starts running the guest on a ready input.
pub open spec fn starts_run(cfg: ExecutorConfig, n: u64, s2: Stage, a: TaskAction) -> bool {
    match cfg.prove_mode {
        Some(kind) => goes(s2, a, Stage::ProvingStartHook(kind), TaskAction::NotifyProvingStart(n)),
        None => goes(
            s2,
            a,
            Stage::Executing,
            TaskAction::Execute { block: n, opcode_tracking: cfg.opcode_tracking },
        ),
    }
}

/// The step that assembles the input from RPC data, starting with the block itself.
pub open spec fn starts_fetch(n: u64, s2: Stage, a: TaskAction) -> bool {
    goes(s2, a, Stage::CurrentBlock, TaskAction::FetchBlock(n))
}

/// A fetched header whose hash is not the one the RPC reports fails the block.
pub open spec fn header_mismatch(b: FetchedBlock, s2: Stage, a: TaskAction) -> bool {
    s2 == Stage::Finished && match a {
        TaskAction::Finish(Err(BlockFailure::Host(Error::HeaderMismatch(found, expected)))) => {
            found@ == keccak_of(b.header_rlp@) && expected == b.hash
        },
        _ => false,
    }
}

/// One step of a block task: from `stage`, on event `ev`, the task moves to
/// `s2` and asks for `a`.
pub open spec fn next(
    cfg: ExecutorConfig,
    n: u64,
    stage: Stage,
    ev: TaskEvent,
    s2: Stage,
    a: TaskAction,
) -> bool {
    match (stage, ev) {
        (Stage::Idle, TaskEvent::Begin) => match cfg.source {
            InputSource::Rpc => goes(s2, a, Stage::StartHook, TaskAction::NotifyExecutionStart(n)),
            InputSource::CacheOnly => goes(
                s2,
                a,
                Stage::Cache,
                TaskAction::LoadCache { chain_id: cfg.chain_id, block: n },
            ),
        },
        (Stage::StartHook, TaskEvent::HookDone(r)) => match r {
            Err(m) => fails(s2, a, BlockFailure::Hook(m)),
            Ok(_) => if cfg.caching {
                goes(s2, a, Stage::Cache, TaskAction::LoadCache { chain_id: cfg.chain_id, block: n })
            } else {
                starts_fetch(n, s2, a)
            },
        },
        (Stage::Cache, TaskEvent::CacheLoaded(l)) => match l {
            CacheLookup::Found => starts_run(cfg, n, s2, a),
            CacheLookup::Missing => match cfg.source {
                InputSource::Rpc => starts_fetch(n, s2, a),
                InputSource::CacheOnly => fails(s2, a, BlockFailure::NoCachedInput),
            },
            CacheLookup::Unreadable(m) => match cfg.source {
                InputSource::Rpc => starts_fetch(n, s2, a),
                InputSource::CacheOnly => fails(s2, a, BlockFailure::Cache(m)),
            },
        },
        (Stage::CurrentBlock, TaskEvent::BlockFetched(r)) => match r {
            None => fails(s2, a, BlockFailure::Host(Error::ExpectedBlock(n))),
            Some(b) => if keccak_of(b.header_rlp@) != b.hash@ {
                header_mismatch(b, s2, a)
            } else if n == 0 {
                fails(s2, a, BlockFailure::Host(Error::ExpectedBlock(n)))
            } else {
                goes(s2, a, Stage::PreviousBlock, TaskAction::FetchBlock((n - 1) as u64))
            },
        },
        (Stage::PreviousBlock, TaskEvent::BlockFetched(r)) => match r {
            None => fails(s2, a, BlockFailure::Host(Error::ExpectedBlock(n))),
            Some(b) => if keccak_of(b.header_rlp@) != b.hash@ {
                header_mismatch(b, s2, a)
            } else {
                goes(
                    s2,
                    a,
                    Stage::Witness(b.state_root),
                    TaskAction::BuildWitness { block: n, parent_state_root: b.state_root },
                )
            },
        },
        (Stage::Witness(root), TaskEvent::WitnessBuilt(r)) => match r {
            Err(m) => fails(s2, a, BlockFailure::Host(Error::FromProof(m))),
            Ok(found) => if found@ != root@ {
                fails(s2, a, BlockFailure::Host(Error::StateRootMismatch(found, root)))
            } else {
                goes(s2, a, Stage::Senders, TaskAction::RecoverSenders(n))
            },
        },
        (Stage::Senders, TaskEvent::SendersRecovered(ok)) => if !ok {
            fails(s2, a, BlockFailure::Host(Error::FailedToRecoverSenders))
        } else if cfg.caching {
            goes(s2, a, Stage::Store, TaskAction::StoreInput { chain_id: cfg.chain_id, block: n })
        } else {
            starts_run(cfg, n, s2, a)
        },
        (Stage::Store, TaskEvent::InputStored(r)) => match r {
            Err(m) => fails(s2, a, BlockFailure::Cache(m)),
            Ok(_) => starts_run(cfg, n, s2, a),
        },
        (Stage::ProvingStartHook(kind), TaskEvent::HookDone(r)) => match r {
            Err(m) => fails(s2, a, BlockFailure::Hook(m)),
            Ok(_) => goes(
                s2,
                a,
                Stage::Proving,
                TaskAction::Prove { block: n, kind, opcode_tracking: cfg.opcode_tracking },
            ),
        },
        (Stage::Proving, TaskEvent::ProverDone(r)) => match r {
            Err(m) => fails(s2, a, BlockFailure::Prover(m)),
            Ok(_) => goes(s2, a, Stage::EndHook, TaskAction::NotifyProvingEnd(n)),
        },
        (Stage::Executing, TaskEvent::ProverDone(r)) => match r {
            Err(m) => fails(s2, a, BlockFailure::Prover(m)),
            Ok(pv) => match first_committed_hash(pv@) {
                None => fails(s2, a, BlockFailure::MalformedPublicValues),
                Some(h) => s2 == Stage::EndHook && match a {
                    TaskAction::NotifyExecutionEnd { block, block_hash } => block == n
                        && block_hash@ == h,
                    _ => false,
                },
            },
        },
        (Stage::EndHook, TaskEvent::HookDone(r)) => match r {
            Err(m) => fails(s2, a, BlockFailure::Hook(m)),
            Ok(_) => goes(s2, a, Stage::Finished, TaskAction::Finish(Ok(()))),
        },
        (Stage::CurrentBlock, TaskEvent::TransportFailed(m))
        | (Stage::PreviousBlock, TaskEvent::TransportFailed(m))
        | (Stage::Witness(_), TaskEvent::TransportFailed(m)) => fails(
            s2,
            a,
            BlockFailure::Host(Error::Transport(m)),
        ),
        _ => goes(s2, a, stage, TaskAction::Wait),
    }
}

impl BlockTask {
    /// A task for block `block`, not yet begun.
    pub fn new(config: ExecutorConfig, block: u64) -> (r: BlockTask)
        ensures
            r.config == config,
            r.block == block,
            r.stage == Stage::Idle,
    {
        BlockTask { config, block, stage: Stage::Idle }
    }

    fn start_run(&mut self) -> (a: TaskAction)
        ensures
            final(self).config == old(self).config,
            final(self).block == old(self).block,
            starts_run(old(self).config, old(self).block, final(self).stage, a),
    {
        match self.config.prove_mode {
            Some(kind) => {
                self.stage = Stage::ProvingStartHook(kind);
                TaskAction::NotifyProvingStart(self.block)
            },
            None => {
                self.stage = Stage::Executing;
                TaskAction::Execute { block: self.block, opcode_tracking: self.config.opcode_tracking }
            },
        }
    }

    fn fail(&mut self, f: BlockFailure) -> (a: TaskAction)
        ensures
            final(self).config == old(self).config,
            final(self).block == old(self).block,
            fails(final(self).stage, a, f),
    {
        self.stage = Stage::Finished;
        TaskAction::Finish(Err(f))
    }

    /// Checks a fetched header against the hash the RPC reports for it.
    fn check_header(b: &FetchedBlock) -> (r: Option<TaskAction>)
        ensures
            keccak_of(b.header_rlp@) == b.hash@ <==> r is None,
            r matches Some(a) ==> header_mismatch(*b, Stage::Finished, a),
    {
        let found = keccak256(b.header_rlp.as_slice());
        if hash_matches(&found, b.hash.as_slice()) {
            None
        } else {
            Some(TaskAction::Finish(Err(BlockFailure::Host(Error::HeaderMismatch(found, b.hash)))))
        }
    }

    /// Advances the task on event `ev` and returns what to do next.
    pub fn step(&mut self, ev: TaskEvent) -> (a: TaskAction)
        ensures
            final(self).config == old(self).config,
            final(self).block == old(self).block,
            next(old(self).config, old(self).block, old(self).stage, ev, final(self).stage, a),
    {
        let n = self.block;
        match (self.stage, ev) {
            (Stage::Idle, TaskEvent::Begin) => match self.config.source {
                InputSource::Rpc => {
                    self.stage = Stage::StartHook;
                    TaskAction::NotifyExecutionStart(n)
                },
                InputSource::CacheOnly => {
                    self.stage = Stage::Cache;
                    TaskAction::LoadCache { chain_id: self.config.chain_id, block: n }
                },
            },
            (Stage::StartHook, TaskEvent::HookDone(r)) => match r {
                Err(m) => self.fail(BlockFailure::Hook(m)),
                Ok(_) => if self.config.caching {
                    self.stage = Stage::Cache;
                    TaskAction::LoadCache { chain_id: self.config.chain_id, block: n }
                } else {
                    self.stage = Stage::CurrentBlock;
                    TaskAction::FetchBlock(n)
                },
            },
            (Stage::Cache, TaskEvent::CacheLoaded(l)) => match l {
                CacheLookup::Found => self.start_run(),
                CacheLookup::Missing => match self.config.source {
                    InputSource::Rpc => {
                        self.stage = Stage::CurrentBlock;
                        TaskAction::FetchBlock(n)
                    },
                    InputSource::CacheOnly => self.fail(BlockFailure::NoCachedInput),
                },
                CacheLookup::Unreadable(m) => match self.config.source {
                    InputSource::Rpc => {
                        self.stage = Stage::CurrentBlock;
                        TaskAction::FetchBlock(n)
                    },
                    InputSource::CacheOnly => self.fail(BlockFailure::Cache(m)),
                },
            },
            (Stage::CurrentBlock, TaskEvent::BlockFetched(r)) => match r {
                None => self.fail(BlockFailure::Host(Error::ExpectedBlock(n))),
                Some(b) => match Self::check_header(&b) {
                    Some(a) => {
                        self.stage = Stage::Finished;
                        a
                    },
                    None => if n == 0 {
                        self.fail(BlockFailure::Host(Error::ExpectedBlock(n)))
                    } else {
                        self.stage = Stage::PreviousBlock;
                        TaskAction::FetchBlock(n - 1)
                    },
                },
            },
            (Stage::PreviousBlock, TaskEvent::BlockFetched(r)) => match r {
                None => self.fail(BlockFailure::Host(Error::ExpectedBlock(n))),
                Some(b) => match Self::check_header(&b) {
                    Some(a) => {
                        self.stage = Stage::Finished;
                        a
                    },
                    None => {
                        self.stage = Stage::Witness(b.state_root);
                        TaskAction::BuildWitness { block: n, parent_state_root: b.state_root }
                    },
                },
            },
            (Stage::Witness(root), TaskEvent::WitnessBuilt(r)) => match r {
                Err(m) => self.fail(BlockFailure::Host(Error::FromProof(m))),
                Ok(found) => if !hash_matches(&found, root.as_slice()) {
                    self.fail(BlockFailure::Host(Error::StateRootMismatch(found, root)))
                } else {
                    self.stage = Stage::Senders;
                    TaskAction::RecoverSenders(n)
                },
            },
            (Stage::Senders, TaskEvent::SendersRecovered(ok)) => if !ok {
                self.fail(BlockFailure::Host(Error::FailedToRecoverSenders))
            } else if self.config.caching {
                self.stage = Stage::Store;
                TaskAction::StoreInput { chain_id: self.config.chain_id, block: n }
            } else {
                self.start_run()
            },
            (Stage::Store, TaskEvent::InputStored(r)) => match r {
                Err(m) => self.fail(BlockFailure::Cache(m)),
                Ok(_) => self.start_run(),
            },
            (Stage::ProvingStartHook(kind), TaskEvent::HookDone(r)) => match r {
                Err(m) => self.fail(BlockFailure::Hook(m)),
                Ok(_) => {
                    self.stage = Stage::Proving;
                    TaskAction::Prove { block: n, kind, opcode_tracking: self.config.opcode_tracking }
                },
            },
            (Stage::Proving, TaskEvent::ProverDone(r)) => match r {
                Err(m) => self.fail(BlockFailure::Prover(m)),
                Ok(_) => {
                    self.stage = Stage::EndHook;
                    TaskAction::NotifyProvingEnd(n)
                },
            },
            (Stage::Executing, TaskEvent::ProverDone(r)) => match r {
                Err(m) => self.fail(BlockFailure::Prover(m)),
                Ok(pv) => match read_block_hash(&pv) {
                    None => self.fail(BlockFailure::MalformedPublicValues),
                    Some(h) => {
                        self.stage = Stage::EndHook;
                        TaskAction::NotifyExecutionEnd { block: n, block_hash: h }
                    },
                },
            },
            (Stage::EndHook, TaskEvent::HookDone(r)) => match r {
                Err(m) => self.fail(BlockFailure::Hook(m)),
                Ok(_) => {
                    self.stage = Stage::Finished;
                    TaskAction::Finish(Ok(()))
                },
            },
            (Stage::CurrentBlock, TaskEvent::TransportFailed(m))
            | (Stage::PreviousBlock, TaskEvent::TransportFailed(m))
            | (Stage::Witness(_), TaskEvent::TransportFailed(m)) => self.fail(
                BlockFailure::Host(Error::Transport(m)),
            ),
            _ => TaskAction::Wait,
        }
    }
}

/// The message of a block failure, as logged and alerted.
pub open spec fn failure_message_text(f: BlockFailure) -> Seq<char> {
    match f {
        BlockFailure::Host(e) => error_text(e),
        BlockFailure::Hook(m) => m@,
        BlockFailure::Cache(m) => m@,
        BlockFailure::NoCachedInput => "No cached input found"@,
        BlockFailure::Prover(m) => m@,
        BlockFailure::MalformedPublicValues => "public values do not start with a block hash"@,
    }
}

impl BlockFailure {
    /// The message of the failure.
    pub fn message(&self) -> (r: String)
        ensures
            r@ == failure_message_text(*self),
    {
        match self {
            BlockFailure::Host(e) => e.message(),
            BlockFailure::Hook(m) => m.clone(),
            BlockFailure::Cache(m) => m.clone(),
            BlockFailure::NoCachedInput => String::from_str("No cached input found"),
            BlockFailure::Prover(m) => m.clone(),
            BlockFailure::MalformedPublicValues => String::from_str(
                "public values do not start with a block hash",
            ),
        }
    }
}

/// Why no block executor can be built.
#[derive(Debug, Clone, Copy, PartialEq, Eq)]
pub enum BuildError {
    NoInputSource,
}

impl BuildError {
    /// The message of the error.
    pub fn message(&self) -> (r: String)
        ensures
            r@ == "Either a RPC URL or a cache dir must be provided"@,
    {
        String::from_str("Either a RPC URL or a cache dir must be provided")
    }
}

/// Chooses the executor for a run: one that assembles inputs over RPC where a
/// provider is at hand, else one that only reads the cache, else none.
pub fn build_executor(config: &Config, has_provider: bool) -> (r: Result<ExecutorConfig, BuildError>)
    ensures
        r is Err <==> !has_provider && config.cache_dir is None,
        r matches Err(e) ==> e == BuildError::NoInputSource,
        r matches Ok(c) ==> {
            &&& c.chain_id == config.chain_id
            &&& c.source == (if has_provider {
                InputSource::Rpc
            } else {
                InputSource::CacheOnly
            })
            &&& c.caching == config.cache_dir is Some
            &&& c.prove_mode == config.prove_mode
            &&& c.opcode_tracking == config.opcode_tracking
        },
{
    let caching = config.cache_dir.is_some();
    if has_provider {
        Ok(ExecutorConfig {
            chain_id: config.chain_id,
            source: InputSource::Rpc,
            caching,
            prove_mode: config.prove_mode,
            opcode_tracking: config.opcode_tracking,
        })
    } else if caching {
        Ok(ExecutorConfig {
            chain_id: config.chain_id,
            source: InputSource::CacheOnly,
            caching,
            prove_mode: config.prove_mode,
            opcode_tracking: config.opcode_tracking,
        })
    } else {
        Err(BuildError::NoInputSource)
    }
}

/// An input read from the cache is run exactly as a freshly assembled one:
/// the same next stage and the same request, whose opcode-tracking flag is
/// the one of the current run, whatever flag the cached input was stored with.
pub proof fn lemma_cached_input_runs_as_fresh(
    cfg: ExecutorConfig,
    n: u64,
    s1: Stage,
    a1: TaskAction,
    s2: Stage,
    a2: TaskAction,
)
    requires
        next(cfg, n, Stage::Cache, TaskEvent::CacheLoaded(CacheLookup::Found), s1, a1),
        next(cfg, n, Stage::Store, TaskEvent::InputStored(Ok(())), s2, a2),
    ensures
        s1 == s2,
        a1 == a2,
        a1 matches TaskAction::Execute { block, opcode_tracking } ==> block == n
            && opcode_tracking == cfg.opcode_tracking,
        s1 matches Stage::ProvingStartHook(kind) ==> cfg.prove_mode == Some(kind),
{
}

/// A block task decides alike whenever it is given the same events: the same
/// stage and the same request follow, so that running a block twice asks for
/// the same work and reports the same block hash.
pub proof fn lemma_step_deterministic(
    cfg: ExecutorConfig,
    n: u64,
    stage: Stage,
    ev: TaskEvent,
    s1: Stage,
    a1: TaskAction,
    s2: Stage,
    a2: TaskAction,
)
    requires
        next(cfg, n, stage, ev, s1, a1),
        next(cfg, n, stage, ev, s2, a2),
    ensures
        s1 == s2,
        a1 == a2,
{
    match (stage, ev) {
        (Stage::CurrentBlock, TaskEvent::BlockFetched(Some(b))) | (
            Stage::PreviousBlock,
            TaskEvent::BlockFetched(Some(b)),
        ) => {
            if keccak_of(b.header_rlp@) != b.hash@ {
                if let (
                    TaskAction::Finish(Err(BlockFailure::Host(Error::HeaderMismatch(f1, _)))),
                    TaskAction::Finish(Err(BlockFailure::Host(Error::HeaderMismatch(f2, _)))),
                ) = (a1, a2) {
                    assert(f1@ =~= f2@);
                    assert(f1 == f2);
                }
            }
        },
        (Stage::Executing, TaskEvent::ProverDone(Ok(pv))) => {
            if let (
                TaskAction::NotifyExecutionEnd { block_hash: h1, .. },
                TaskAction::NotifyExecutionEnd { block_hash: h2, .. },
            ) = (a1, a2) {
                assert(h1@ =~= h2@);
                assert(h1 == h2);
            }
        },
        _ => {},
    }
}

} // verus!
