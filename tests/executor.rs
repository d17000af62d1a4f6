use host_executor::{
    build_executor, is_goat_testnet, read_block_hash, BlockFailure, BlockTask, BuildError,
    CacheLookup, Config, ExecutorConfig, FetchedBlock, GenesisSource, HostError, InputSource,
    ProofKind, Stage, TaskAction, TaskEvent,
};
use host_executor::{witness_request, WitnessRequest};

fn keccak(bytes: &[u8]) -> [u8; 32] {
    alloy_primitives::keccak256(bytes).0
}

fn fetched(number: u64, header_rlp: Vec<u8>, state_root: [u8; 32]) -> FetchedBlock {
    let hash = keccak(&header_rlp);
    FetchedBlock { number, hash, header_rlp, state_root }
}

fn framed(hash: [u8; 32], rest: &[u8]) -> Vec<u8> {
    let mut pv = vec![32u8, 0, 0, 0, 0, 0, 0, 0];
    pv.extend_from_slice(&hash);
    pv.extend_from_slice(rest);
    pv
}

fn config(source: InputSource, caching: bool, prove_mode: Option<ProofKind>) -> ExecutorConfig {
    ExecutorConfig { chain_id: 1, source, caching, prove_mode, opcode_tracking: true }
}

fn run_config(cache_dir: Option<String>) -> Config {
    Config {
        chain_id: 1,
        genesis: GenesisSource::Chain(1),
        rpc_url: None,
        debug_rpc_url: None,
        witness_rpc_url: None,
        cache_dir,
        custom_beneficiary: None,
        prove_mode: None,
        opcode_tracking: false,
    }
}

#[test]
fn goat_testnet_is_recognised_by_chain_id() {
    assert!(is_goat_testnet(48816));
    assert!(!is_goat_testnet(1));
    assert!(!is_goat_testnet(48815));
}

#[test]
fn execute_only_without_cache_runs_every_step_in_order() {
    let root = [7u8; 32];
    let mut task = BlockTask::new(config(InputSource::Rpc, false, None), 19_000_000);
    assert_eq!(task.step(TaskEvent::Begin), TaskAction::NotifyExecutionStart(19_000_000));
    assert_eq!(task.step(TaskEvent::HookDone(Ok(()))), TaskAction::FetchBlock(19_000_000));
    let current = fetched(19_000_000, vec![0xc1, 0x01], [1u8; 32]);
    assert_eq!(task.step(TaskEvent::BlockFetched(Some(current))), TaskAction::FetchBlock(18_999_999));
    let previous = fetched(18_999_999, vec![0xc1, 0x02], root);
    assert_eq!(
        task.step(TaskEvent::BlockFetched(Some(previous))),
        TaskAction::BuildWitness { block: 19_000_000, parent_state_root: root }
    );
    assert_eq!(
        task.step(TaskEvent::WitnessBuilt(Ok(root))),
        TaskAction::RecoverSenders(19_000_000)
    );
    assert_eq!(
        task.step(TaskEvent::SendersRecovered(true)),
        TaskAction::Execute { block: 19_000_000, opcode_tracking: true }
    );
    let block_hash = keccak(&[0xc1, 0x01]);
    assert_eq!(
        task.step(TaskEvent::ProverDone(Ok(framed(block_hash, &[1, 2, 3])))),
        TaskAction::NotifyExecutionEnd { block: 19_000_000, block_hash }
    );
    assert_eq!(task.step(TaskEvent::HookDone(Ok(()))), TaskAction::Finish(Ok(())));
    assert_eq!(task.stage, Stage::Finished);
}

#[test]
fn cache_miss_stores_the_assembled_input() {
    let root = [3u8; 32];
    let mut task = BlockTask::new(config(InputSource::Rpc, true, None), 10);
    task.step(TaskEvent::Begin);
    assert_eq!(
        task.step(TaskEvent::HookDone(Ok(()))),
        TaskAction::LoadCache { chain_id: 1, block: 10 }
    );
    assert_eq!(task.step(TaskEvent::CacheLoaded(CacheLookup::Missing)), TaskAction::FetchBlock(10));
    task.step(TaskEvent::BlockFetched(Some(fetched(10, vec![0x80], [0u8; 32]))));
    task.step(TaskEvent::BlockFetched(Some(fetched(9, vec![0x81, 0x90], root))));
    assert_eq!(
        task.step(TaskEvent::WitnessBuilt(Ok(root))),
        TaskAction::RecoverSenders(10)
    );
    assert_eq!(
        task.step(TaskEvent::SendersRecovered(true)),
        TaskAction::StoreInput { chain_id: 1, block: 10 }
    );
    assert_eq!(
        task.step(TaskEvent::InputStored(Ok(()))),
        TaskAction::Execute { block: 10, opcode_tracking: true }
    );
}

#[test]
fn cache_hit_runs_with_the_current_opcode_tracking() {
    let mut cfg = config(InputSource::Rpc, true, None);
    cfg.opcode_tracking = false;
    let mut task = BlockTask::new(cfg, 10);
    task.step(TaskEvent::Begin);
    task.step(TaskEvent::HookDone(Ok(())));
    assert_eq!(
        task.step(TaskEvent::CacheLoaded(CacheLookup::Found)),
        TaskAction::Execute { block: 10, opcode_tracking: false }
    );
}

#[test]
fn unreadable_cache_entry_is_fetched_again() {
    let mut task = BlockTask::new(config(InputSource::Rpc, true, None), 10);
    task.step(TaskEvent::Begin);
    task.step(TaskEvent::HookDone(Ok(())));
    assert_eq!(
        task.step(TaskEvent::CacheLoaded(CacheLookup::Unreadable("bad bytes".to_string()))),
        TaskAction::FetchBlock(10)
    );
}

#[test]
fn cache_only_executor_fails_without_entry() {
    let mut task = BlockTask::new(config(InputSource::CacheOnly, true, None), 10);
    assert_eq!(task.step(TaskEvent::Begin), TaskAction::LoadCache { chain_id: 1, block: 10 });
    assert_eq!(
        task.step(TaskEvent::CacheLoaded(CacheLookup::Missing)),
        TaskAction::Finish(Err(BlockFailure::NoCachedInput))
    );
    assert_eq!(BlockFailure::NoCachedInput.message(), "No cached input found");
}

#[test]
fn cache_only_executor_fails_on_unreadable_entry() {
    let mut task = BlockTask::new(config(InputSource::CacheOnly, true, None), 10);
    task.step(TaskEvent::Begin);
    assert_eq!(
        task.step(TaskEvent::CacheLoaded(CacheLookup::Unreadable("eof".to_string()))),
        TaskAction::Finish(Err(BlockFailure::Cache("eof".to_string())))
    );
}

#[test]
fn corrupted_current_header_is_a_header_mismatch() {
    let mut task = BlockTask::new(config(InputSource::Rpc, false, None), 10);
    task.step(TaskEvent::Begin);
    task.step(TaskEvent::HookDone(Ok(())));
    let mut block = fetched(10, vec![0xc1, 0x01], [0u8; 32]);
    let reported = block.hash;
    block.header_rlp = vec![0xc1, 0x02];
    let found = keccak(&[0xc1, 0x02]);
    assert_eq!(
        task.step(TaskEvent::BlockFetched(Some(block))),
        TaskAction::Finish(Err(BlockFailure::Host(HostError::HeaderMismatch(found, reported))))
    );
    assert_eq!(task.stage, Stage::Finished);
}

#[test]
fn missing_block_is_expected_block_error() {
    let mut task = BlockTask::new(config(InputSource::Rpc, false, None), 10);
    task.step(TaskEvent::Begin);
    task.step(TaskEvent::HookDone(Ok(())));
    task.step(TaskEvent::BlockFetched(Some(fetched(10, vec![0x80], [0u8; 32]))));
    assert_eq!(
        task.step(TaskEvent::BlockFetched(None)),
        TaskAction::Finish(Err(BlockFailure::Host(HostError::ExpectedBlock(10))))
    );
}

#[test]
fn genesis_block_has_no_parent() {
    let mut task = BlockTask::new(config(InputSource::Rpc, false, None), 0);
    task.step(TaskEvent::Begin);
    task.step(TaskEvent::HookDone(Ok(())));
    assert_eq!(
        task.step(TaskEvent::BlockFetched(Some(fetched(0, vec![0x80], [0u8; 32])))),
        TaskAction::Finish(Err(BlockFailure::Host(HostError::ExpectedBlock(0))))
    );
}

#[test]
fn incomplete_witness_fails_with_from_proof() {
    let mut task = BlockTask::new(config(InputSource::Rpc, false, None), 10);
    task.step(TaskEvent::Begin);
    task.step(TaskEvent::HookDone(Ok(())));
    task.step(TaskEvent::BlockFetched(Some(fetched(10, vec![0x80], [0u8; 32]))));
    task.step(TaskEvent::BlockFetched(Some(fetched(9, vec![0x81, 0x90], [5u8; 32]))));
    let a = task.step(TaskEvent::WitnessBuilt(Err("missing node".to_string())));
    assert_eq!(
        a,
        TaskAction::Finish(Err(BlockFailure::Host(HostError::FromProof("missing node".to_string()))))
    );
}

#[test]
fn rebuilt_root_must_match_parent_state_root() {
    let mut task = BlockTask::new(config(InputSource::Rpc, false, None), 10);
    task.step(TaskEvent::Begin);
    task.step(TaskEvent::HookDone(Ok(())));
    task.step(TaskEvent::BlockFetched(Some(fetched(10, vec![0x80], [0u8; 32]))));
    task.step(TaskEvent::BlockFetched(Some(fetched(9, vec![0x81, 0x90], [5u8; 32]))));
    assert_eq!(
        task.step(TaskEvent::WitnessBuilt(Ok([6u8; 32]))),
        TaskAction::Finish(Err(BlockFailure::Host(HostError::StateRootMismatch([6u8; 32], [5u8; 32]))))
    );
}

#[test]
fn prove_mode_notifies_proving_start_and_end_once() {
    let mut task = BlockTask::new(config(InputSource::Rpc, true, Some(ProofKind::Compressed)), 10);
    task.step(TaskEvent::Begin);
    task.step(TaskEvent::HookDone(Ok(())));
    assert_eq!(task.step(TaskEvent::CacheLoaded(CacheLookup::Found)), TaskAction::NotifyProvingStart(10));
    assert_eq!(
        task.step(TaskEvent::HookDone(Ok(()))),
        TaskAction::Prove { block: 10, kind: ProofKind::Compressed, opcode_tracking: true }
    );
    assert_eq!(task.step(TaskEvent::ProverDone(Ok(vec![1, 2]))), TaskAction::NotifyProvingEnd(10));
    assert_eq!(task.step(TaskEvent::HookDone(Ok(()))), TaskAction::Finish(Ok(())));
    assert_eq!(task.step(TaskEvent::HookDone(Ok(()))), TaskAction::Wait);
}

#[test]
fn hook_failure_fails_the_block() {
    let mut task = BlockTask::new(config(InputSource::Rpc, false, None), 10);
    task.step(TaskEvent::Begin);
    assert_eq!(
        task.step(TaskEvent::HookDone(Err("queue full".to_string()))),
        TaskAction::Finish(Err(BlockFailure::Hook("queue full".to_string())))
    );
}

#[test]
fn prover_error_is_reported_as_is() {
    let mut task = BlockTask::new(config(InputSource::CacheOnly, true, None), 4);
    task.step(TaskEvent::Begin);
    task.step(TaskEvent::CacheLoaded(CacheLookup::Found));
    assert_eq!(
        task.step(TaskEvent::ProverDone(Err("out of memory".to_string()))),
        TaskAction::Finish(Err(BlockFailure::Prover("out of memory".to_string())))
    );
}

#[test]
fn malformed_public_values_fail_the_block() {
    let mut task = BlockTask::new(config(InputSource::CacheOnly, true, None), 4);
    task.step(TaskEvent::Begin);
    task.step(TaskEvent::CacheLoaded(CacheLookup::Found));
    assert_eq!(
        task.step(TaskEvent::ProverDone(Ok(vec![32, 0, 0]))),
        TaskAction::Finish(Err(BlockFailure::MalformedPublicValues))
    );
}

#[test]
fn events_out_of_turn_are_ignored() {
    let mut task = BlockTask::new(config(InputSource::Rpc, false, None), 10);
    assert_eq!(task.step(TaskEvent::InputStored(Ok(()))), TaskAction::Wait);
    assert_eq!(task.stage, Stage::Idle);
}

#[test]
fn committed_block_hash_is_read_from_public_values() {
    let h = keccak(b"header");
    assert_eq!(read_block_hash(&framed(h, &[9, 9])), Some(h));
    assert_eq!(read_block_hash(&framed(h, &[])), Some(h));
    let mut wrong_len = framed(h, &[]);
    wrong_len[0] = 31;
    assert_eq!(read_block_hash(&wrong_len), None);
    let mut high_len = framed(h, &[]);
    high_len[7] = 1;
    assert_eq!(read_block_hash(&high_len), None);
    assert_eq!(read_block_hash(&framed(h, &[])[..39].to_vec()), None);
}

#[test]
fn executor_choice_follows_provider_then_cache() {
    let full = build_executor(&run_config(None), true).unwrap();
    assert_eq!(full.source, InputSource::Rpc);
    assert!(!full.caching);
    let cached = build_executor(&run_config(Some("/tmp/c".to_string())), false).unwrap();
    assert_eq!(cached.source, InputSource::CacheOnly);
    assert!(cached.caching);
    let none = build_executor(&run_config(None), false);
    assert_eq!(none.unwrap_err(), BuildError::NoInputSource);
    assert_eq!(
        BuildError::NoInputSource.message(),
        "Either a RPC URL or a cache dir must be provided"
    );
}

#[test]
fn transport_failure_fails_the_block() {
    let mut task = BlockTask::new(config(InputSource::Rpc, false, None), 10);
    task.step(TaskEvent::Begin);
    task.step(TaskEvent::HookDone(Ok(())));
    assert_eq!(
        task.step(TaskEvent::TransportFailed("connection reset".to_string())),
        TaskAction::Finish(Err(BlockFailure::Host(HostError::Transport("connection reset".to_string()))))
    );
    assert_eq!(
        BlockFailure::Host(HostError::Transport("connection reset".to_string())).message(),
        "Transport Error: connection reset"
    );
}

#[test]
fn elf_id_is_kept_after_the_first_proof() {
    let mut cell = host_executor::ElfIdCell::new();
    assert_eq!(cell.hint(b"abc"), None);
    let id = "ba7816bf8f01cfea414140de5dae2223b00361a396177a9cb410ff61f20015ad".to_string();
    assert_eq!(cell.hint(b"abc"), Some(id.clone()));
    assert_eq!(cell.hint(b"other"), Some(id));
}

#[test]
fn witness_request_follows_the_chain() {
    assert_eq!(witness_request(48816, 9), Some(WitnessRequest::Goat(10)));
    assert_eq!(witness_request(1, 18_999_999), Some(WitnessRequest::Standard(19_000_000)));
    assert_eq!(witness_request(1, u64::MAX), None);
}

fn run_events(events: Vec<TaskEvent>) -> Vec<TaskAction> {
    let mut task = BlockTask::new(config(InputSource::Rpc, true, None), 19_000_000);
    events.into_iter().map(|e| task.step(e)).collect()
}

fn cached_run_events() -> Vec<TaskEvent> {
    let h = keccak(&[0xc1, 0x01]);
    vec![
        TaskEvent::Begin,
        TaskEvent::HookDone(Ok(())),
        TaskEvent::CacheLoaded(CacheLookup::Found),
        TaskEvent::ProverDone(Ok(framed(h, &[]))),
        TaskEvent::HookDone(Ok(())),
    ]
}

#[test]
fn running_a_block_twice_asks_for_the_same_work() {
    let first = run_events(cached_run_events());
    let second = run_events(cached_run_events());
    assert_eq!(first, second);
    assert_eq!(first.last(), Some(&TaskAction::Finish(Ok(()))));
    assert_eq!(
        first[3],
        TaskAction::NotifyExecutionEnd { block: 19_000_000, block_hash: keccak(&[0xc1, 0x01]) }
    );
}

#[test]
fn unrecoverable_senders_fail_the_block() {
    let root = [4u8; 32];
    let mut task = BlockTask::new(config(InputSource::Rpc, false, None), 10);
    task.step(TaskEvent::Begin);
    task.step(TaskEvent::HookDone(Ok(())));
    task.step(TaskEvent::BlockFetched(Some(fetched(10, vec![0x80], [0u8; 32]))));
    task.step(TaskEvent::BlockFetched(Some(fetched(9, vec![0x81, 0x90], root))));
    task.step(TaskEvent::WitnessBuilt(Ok(root)));
    let failure = BlockFailure::Host(HostError::FailedToRecoverSenders);
    assert_eq!(task.step(TaskEvent::SendersRecovered(false)), TaskAction::Finish(Err(failure.clone())));
    assert_eq!(failure.message(), "Failed to recover senders from RPC block data");
}
