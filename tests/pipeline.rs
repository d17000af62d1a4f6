use alloy_rlp::Encodable;
use host_executor::{
    cache_folder, cache_path, cache_temp_path, elf_id, select_blocks, should_dispatch, Args,
    ChainIdSource, ConfigError, DbError, DispatchAction, DispatchEvent, DispatchState, Dispatcher,
    ExecutionWitnessRpcDb, GenesisSource, HostArgs, HostError, ProofKind, ProviderArgs,
};
use host_executor::config::env_key;
use host_executor::text::decimal;

fn encoded_header(number: u64, gas_limit: u64) -> (Vec<u8>, [u8; 32]) {
    let header = alloy_consensus::Header { number, gas_limit, ..Default::default() };
    let mut out = Vec::new();
    header.encode(&mut out);
    (out, header.hash_slow().0)
}

fn empty_root() -> [u8; 32] {
    alloy_primitives::keccak256([0x80u8]).0
}

fn host_args(rpc_url: Option<&str>, chain_id: Option<u64>) -> HostArgs {
    HostArgs {
        block_number: 19_000_000,
        provider: ProviderArgs {
            rpc_url: rpc_url.map(|s| s.to_string()),
            debug_rpc_url: None,
            witness_rpc_url: None,
            chain_id,
        },
        genesis_path: None,
        custom_beneficiary: None,
        prove: false,
        cache_dir: None,
        report_path: "report.csv".to_string(),
        precompile_tracking: false,
        opcode_tracking: true,
    }
}

#[test]
fn interval_filter_selects_multiples() {
    assert_eq!(select_blocks(&vec![100, 101, 200], 100), vec![100, 200]);
    assert_eq!(select_blocks(&vec![], 100), Vec::<u64>::new());
    assert_eq!(select_blocks(&vec![0, 1, 2, 3], 1), vec![0, 1, 2, 3]);
    assert!(should_dispatch(0, 7));
    assert!(!should_dispatch(13, 7));
}

#[test]
fn dispatcher_runs_selected_heads_in_order() {
    let mut d = Dispatcher::new(100);
    let mut executed = Vec::new();
    let mut alerts = Vec::new();
    for h in [100u64, 101, 200] {
        match d.step(DispatchEvent::Head(h)) {
            DispatchAction::PollBlock(n) => {
                assert_eq!(n, h);
                assert_eq!(
                    d.step(DispatchEvent::BlockAvailable(false)),
                    DispatchAction::PollAfter { block: h, millis: 100 }
                );
                assert_eq!(d.step(DispatchEvent::Head(h + 1)), DispatchAction::Wait);
                match d.step(DispatchEvent::BlockAvailable(true)) {
                    DispatchAction::Execute(m) => executed.push(m),
                    other => panic!("unexpected {:?}", other),
                }
                let outcome = if h == 100 { Err("boom".to_string()) } else { Ok(()) };
                match d.step(DispatchEvent::Executed(outcome)) {
                    DispatchAction::Alert(msg) => alerts.push(msg),
                    DispatchAction::Continue => {}
                    other => panic!("unexpected {:?}", other),
                }
            }
            DispatchAction::Skip => assert_eq!(h, 101),
            other => panic!("unexpected {:?}", other),
        }
        assert_eq!(d.state, DispatchState::Listening);
    }
    assert_eq!(executed, vec![100, 200]);
    assert_eq!(alerts, vec!["Error handling block 100: boom".to_string()]);
}

#[test]
fn cache_layout_per_chain_and_block() {
    assert_eq!(cache_path(1, 19_000_000), "input/1/19000000.bin");
    assert_eq!(cache_folder(10), "input/10");
    assert_eq!(cache_temp_path(1, 0), "input/1/0.bin.tmp");
    assert_eq!(cache_path(1, 1), cache_path(1, 1));
    assert_ne!(cache_path(1, 1), cache_path(1, 11));
}

#[test]
fn decimal_text() {
    assert_eq!(decimal(0), "0");
    assert_eq!(decimal(48816), "48816");
    assert_eq!(decimal(u64::MAX), "18446744073709551615");
}

#[test]
fn elf_id_is_hex_sha256() {
    assert_eq!(elf_id(b""), "e3b0c44298fc1c149afbf4c8996fb92427ae41e4649b934ca495991b7852b855");
    assert_eq!(elf_id(b"abc"), "ba7816bf8f01cfea414140de5dae2223b00361a396177a9cb410ff61f20015ad");
}

#[test]
fn error_messages() {
    assert_eq!(HostError::ExpectedBlock(5).message(), "RPC didnt have expected block height 5");
    assert_eq!(
        HostError::FailedToRecoverSenders.message(),
        "Failed to recover senders from RPC block data"
    );
    assert_eq!(HostError::Custom("x".to_string()).message(), "custom error: x");
    let mut found = [0u8; 32];
    found[31] = 0xab;
    let expected = [0x10u8; 32];
    assert_eq!(
        HostError::HeaderMismatch(found, expected).message(),
        format!("Header Mismatch \n found 0x{}ab expected 0x{}", "00".repeat(31), "10".repeat(32))
    );
    assert_eq!(
        HostError::StateRootMismatch(expected, found).message(),
        format!(
            "State root mismatch after local execution \n found 0x{} expected 0x{}ab",
            "10".repeat(32),
            "00".repeat(31)
        )
    );
}

#[test]
fn witness_codes_are_keyed_by_keccak() {
    let code = vec![0x60u8, 0x00, 0x60, 0x00];
    let db = ExecutionWitnessRpcDb::new(&vec![], empty_root(), vec![vec![0xfe], code.clone()], vec![]).unwrap();
    let h = alloy_primitives::keccak256(&code).0;
    assert_eq!(db.code_by_hash_ref(&h), Ok(code));
    let unknown = [0u8; 32];
    assert_eq!(db.code_by_hash_ref(&unknown), Err(DbError::CodeNotFound(unknown)));
    assert_eq!(
        DbError::CodeNotFound(unknown).message(),
        format!("Code not found for 0x{}", "00".repeat(32))
    );
}

#[test]
fn witness_ancestors_by_number_newest_first() {
    let (h5, hash5) = encoded_header(5, 1);
    let (h7, hash7) = encoded_header(7, 1);
    let (h6, hash6) = encoded_header(6, 1);
    let (h6b, hash6b) = encoded_header(6, 2);
    let db = ExecutionWitnessRpcDb::new(&vec![], empty_root(), vec![], vec![h5, h7, h6, h6b]).unwrap();
    assert_ne!(hash6, hash6b);
    assert_eq!(db.block_hash_ref(5), Ok(hash5));
    assert_eq!(db.block_hash_ref(6), Ok(hash6b));
    assert_eq!(db.block_hash_ref(7), Ok(hash7));
    assert_eq!(db.block_hash_ref(8), Err(DbError::HeaderNotFound(8)));
    assert_eq!(DbError::HeaderNotFound(8).message(), "Header 8 not found in the ancestors");
    let numbers: Vec<u64> = db.ancestor_headers().iter().map(|h| h.number).collect();
    assert_eq!(numbers, vec![7, 6, 5]);
}

#[test]
fn undecodable_ancestor_header_is_rejected() {
    let r = ExecutionWitnessRpcDb::new(&vec![], empty_root(), vec![], vec![vec![0x01, 0x02]]);
    assert_eq!(r.unwrap_err(), HostError::HeaderDeserializationFailed);
}

#[test]
fn daemon_config_is_mainnet() {
    let args = Args {
        http_rpc_url: "http://a/".to_string(),
        ws_rpc_url: "ws://a/".to_string(),
        debug_http_rpc_url: "http://b/".to_string(),
        execute_only: false,
        block_interval: 100,
        eth_proofs_endpoint: "http://p/".to_string(),
        eth_proofs_api_token: "t".to_string(),
        eth_proofs_cluster_id: 1,
        pager_duty_integration_key: None,
        moongate_endpoint: None,
    };
    let c = args.as_config();
    assert_eq!(c.chain_id, 1);
    assert_eq!(c.genesis, GenesisSource::Chain(1));
    assert_eq!(c.rpc_url.as_deref(), Some("http://a/"));
    assert_eq!(c.debug_rpc_url.as_deref(), Some("http://b/"));
    assert_eq!(c.prove_mode, Some(ProofKind::Compressed));
    let c2 = Args { execute_only: true, ..args }.as_config();
    assert_eq!(c2.prove_mode, None);
}

#[test]
fn host_chain_id_source() {
    assert_eq!(host_args(Some("http://a/"), Some(5)).chain_id_source(), Ok(ChainIdSource::Given(5)));
    assert_eq!(
        host_args(Some("http://a/"), None).chain_id_source(),
        Ok(ChainIdSource::AskRpc("http://a/".to_string()))
    );
    assert_eq!(host_args(None, None).chain_id_source(), Err(ConfigError::NoRpcOrChainId));
}

#[test]
fn host_config_falls_back_through_variables() {
    let args = host_args(None, Some(10));
    let c = args
        .as_config(None, Some("http://node:8545".to_string()), Some("not a url".to_string()), None, None)
        .unwrap();
    assert_eq!(c.chain_id, 10);
    assert_eq!(c.rpc_url.as_deref(), Some("http://node:8545/"));
    assert_eq!(c.debug_rpc_url.as_deref(), Some("http://node:8545/"));
    assert_eq!(c.witness_rpc_url.as_deref(), Some("http://node:8545/"));
    assert_eq!(c.genesis, GenesisSource::Chain(10));
    assert!(c.opcode_tracking);
    assert_eq!(c.prove_mode, None);

    let c2 = args.as_config(None, None, Some("http://debug".to_string()), None, None).unwrap();
    assert_eq!(c2.rpc_url, None);
    assert_eq!(c2.debug_rpc_url.as_deref(), Some("http://debug/"));
    assert_eq!(c2.witness_rpc_url, None);

    let bad = args.as_config(None, Some("::".to_string()), None, None, None);
    assert_eq!(bad.unwrap_err(), ConfigError::InvalidRpcUrl("::".to_string()));

    let given = host_args(Some("http://given/"), Some(10));
    let c3 = given.as_config(Some(99), Some("::".to_string()), None, None, None).unwrap();
    assert_eq!(c3.rpc_url.as_deref(), Some("http://given/"));
    assert_eq!(c3.chain_id, 10);
}

#[test]
fn host_config_chain_id_from_rpc_or_error() {
    let asked = host_args(Some("http://given/"), None);
    assert_eq!(asked.as_config(Some(5), None, None, None, None).unwrap().chain_id, 5);
    assert_eq!(
        asked.as_config(None, None, None, None, None).unwrap_err(),
        ConfigError::ChainIdUnavailable
    );
    let neither = host_args(None, None);
    let err = neither.as_config(Some(5), None, None, None, None).unwrap_err();
    assert_eq!(err, ConfigError::NoRpcOrChainId);
    assert_eq!(err.message(), "either --rpc-url or --chain-id must be used");
}

#[test]
fn host_config_reads_the_genesis_file() {
    let mut args = host_args(None, Some(10));
    args.genesis_path = Some("genesis.json".to_string());
    let c = args.as_config(None, None, None, None, Some(Ok("{}".to_string()))).unwrap();
    assert_eq!(c.genesis, GenesisSource::Custom("{}".to_string()));
    let err = args.as_config(None, None, None, None, Some(Err("no such file".to_string()))).unwrap_err();
    assert_eq!(err, ConfigError::GenesisRead("no such file".to_string()));
    assert_eq!(err.message(), "Failed to read genesis file: no such file");
    let unread = args.as_config(None, None, None, None, None).unwrap_err();
    assert_eq!(unread, ConfigError::GenesisRead("genesis.json".to_string()));
}

#[test]
fn witness_state_must_lead_to_its_root() {
    let missing = ExecutionWitnessRpcDb::new(&vec![], [7u8; 32], vec![], vec![]);
    assert_eq!(missing.unwrap_err(), HostError::FromProof("missing state root node".to_string()));
    let odd = vec![0xc3, 0x80, 0x80, 0x80];
    let root = alloy_primitives::keccak256(&odd).0;
    let malformed = ExecutionWitnessRpcDb::new(&vec![odd], root, vec![], vec![]);
    assert_eq!(malformed.unwrap_err(), HostError::FromProof("malformed state root node".to_string()));
    assert!(ExecutionWitnessRpcDb::new(&vec![], empty_root(), vec![], vec![]).is_ok());
}

#[test]
fn ancestor_header_with_trailing_bytes_is_rejected() {
    let (mut h5, _) = encoded_header(5, 1);
    h5.push(0x00);
    let r = ExecutionWitnessRpcDb::new(&vec![], empty_root(), vec![], vec![h5]);
    assert_eq!(r.unwrap_err(), HostError::HeaderDeserializationFailed);
}

#[test]
fn endpoint_variable_names() {
    assert_eq!(env_key("RPC_", 1), "RPC_1");
    assert_eq!(env_key("DEBUG_RPC_", 48816), "DEBUG_RPC_48816");
}
