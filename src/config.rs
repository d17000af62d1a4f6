use vstd::prelude::*;
use vstd::string::StringExecFns;

use crate::executor::ProofKind;
use crate::text::{decimal_of, push_decimal};

verus! {

/// The chain id of Ethereum mainnet.
pub const MAINNET_CHAIN_ID: u64 = 1;

/// The text of `s` once parsed and normalised by `url::Url`; `None` where `s`
/// is not a URL.
pub uninterp spec fn parsed_url_of(s: Seq<char>) -> Option<Seq<char>>;

/// Relies on `url::Url::parse`, and on the URL's serialisation.
#[verifier::external_body]
fn parse_url(s: &str) -> (r: Option<String>)
    ensures
        match r {
            Some(u) => parsed_url_of(s@) == Some(u@),
            None => parsed_url_of(s@) is None,
        },
{
    url::Url::parse(s).ok().map(String::from)
}

/// Where the chain's genesis comes from.
#[derive(Debug, Clone, PartialEq, Eq)]
pub enum GenesisSource {
    /// The built-in genesis of a known chain.
    Chain(u64),
    /// A genesis JSON document read from a file.
    Custom(String),
}

/// Everything a run needs to know about the chain, its endpoints and the work asked for.
#[derive(Debug, Clone)]
pub struct Config {
    pub chain_id: u64,
    pub genesis: GenesisSource,
    pub rpc_url: Option<String>,
    pub debug_rpc_url: Option<String>,
    pub witness_rpc_url: Option<String>,
    pub cache_dir: Option<String>,
    pub custom_beneficiary: Option<[u8; 20]>,
    pub prove_mode: Option<ProofKind>,
    pub opcode_tracking: bool,
}

/// The arguments of the proving daemon that follows the chain head.
#[derive(Debug, Clone)]
pub struct Args {
    pub http_rpc_url: String,
    pub ws_rpc_url: String,
    pub debug_http_rpc_url: String,
    pub execute_only: bool,
    pub block_interval: u64,
    pub eth_proofs_endpoint: String,
    pub eth_proofs_api_token: String,
    pub eth_proofs_cluster_id: u64,
    pub pager_duty_integration_key: Option<String>,
    pub moongate_endpoint: Option<String>,
}

/// The endpoints of the one-shot host.
#[derive(Debug, Clone)]
pub struct ProviderArgs {
    pub rpc_url: Option<String>,
    pub debug_rpc_url: Option<String>,
    pub witness_rpc_url: Option<String>,
    pub chain_id: Option<u64>,
}

/// The arguments of the one-shot host.
#[derive(Debug, Clone)]
pub struct HostArgs {
    pub block_number: u64,
    pub provider: ProviderArgs,
    pub genesis_path: Option<String>,
    pub custom_beneficiary: Option<[u8; 20]>,
    pub prove: bool,
    pub cache_dir: Option<String>,
    pub report_path: String,
    pub precompile_tracking: bool,
    pub opcode_tracking: bool,
}

/// How the chain id of a host run is learned.
#[derive(Debug, Clone, PartialEq, Eq)]
pub enum ChainIdSource {
    /// Given on the command line.
    Given(u64),
    /// To be asked from the RPC endpoint at this URL.
    AskRpc(String),
}

/// Why a host configuration could not be built.
#[derive(Debug, Clone, PartialEq, Eq)]
pub enum ConfigError {
    /// Neither an RPC URL nor a chain id was given.
    NoRpcOrChainId,
    /// The chain id was to be asked from the RPC endpoint, which gave none.
    ChainIdUnavailable,
    /// The `RPC_<chain_id>` variable holds this text, which is not a URL.
    InvalidRpcUrl(String),
    /// The genesis file could not be read, for this reason.
    GenesisRead(String),
}

/// The message of a configuration error.
pub open spec fn config_error_text(e: ConfigError) -> Seq<char> {
    match e {
        ConfigError::NoRpcOrChainId => "either --rpc-url or --chain-id must be used"@,
        ConfigError::ChainIdUnavailable => "the RPC endpoint did not report a chain id"@,
        ConfigError::InvalidRpcUrl(v) => "invalid RPC URL: "@ + v@,
        ConfigError::GenesisRead(m) => "Failed to read genesis file: "@ + m@,
    }
}

impl ConfigError {
    /// The message of the error.
    pub fn message(&self) -> (r: String)
        ensures
            r@ == config_error_text(*self),
    {
        match self {
            ConfigError::NoRpcOrChainId => String::from_str("either --rpc-url or --chain-id must be used"),
            ConfigError::ChainIdUnavailable => String::from_str("the RPC endpoint did not report a chain id"),
            ConfigError::InvalidRpcUrl(v) => {
                let mut s = String::from_str("invalid RPC URL: ");
                s.append(v.as_str());
                s
            },
            ConfigError::GenesisRead(m) => {
                let mut s = String::from_str("Failed to read genesis file: ");
                s.append(m.as_str());
                s
            },
        }
    }
}

/// The chain id of a host run: the one given, else the one the RPC endpoint
/// reported where an RPC URL was given.
pub open spec fn resolved_chain_id(args: HostArgs, rpc_chain_id: Option<u64>) -> Option<u64> {
    match args.provider.chain_id {
        Some(id) => Some(id),
        None => match args.provider.rpc_url {
            Some(_) => rpc_chain_id,
            None => None,
        },
    }
}

/// The proof kind asked for, if any: a compressed proof when proving.
pub open spec fn prove_mode_for(prove: bool) -> Option<ProofKind> {
    if prove {
        Some(ProofKind::Compressed)
    } else {
        None
    }
}

/// The name of the variable that may hold an endpoint of a chain:
/// `<prefix><chain_id>`.
pub open spec fn env_key_text(prefix: Seq<char>, chain_id: u64) -> Seq<char> {
    prefix + decimal_of(chain_id as nat)
}

/// An optional endpoint: the one given, else the variable's value where it
/// parses as a URL, else the main RPC URL.
pub open spec fn endpoint_choice(
    given: Option<String>,
    from_env: Option<String>,
    rpc_url: Option<String>,
) -> Option<Seq<char>> {
    match given {
        Some(u) => Some(u@),
        None => match from_env {
            Some(v) => match parsed_url_of(v@) {
                Some(u) => Some(u),
                None => match rpc_url {
                    Some(r) => Some(r@),
                    None => None,
                },
            },
            None => match rpc_url {
                Some(r) => Some(r@),
                None => None,
            },
        },
    }
}

/// The text of an optional string.
pub open spec fn opt_view(o: Option<String>) -> Option<Seq<char>> {
    match o {
        Some(s) => Some(s@),
        None => None,
    }
}

fn endpoint(given: &Option<String>, from_env: &Option<String>, rpc_url: &Option<String>) -> (r: Option<String>)
    ensures
        opt_view(r) == endpoint_choice(*given, *from_env, *rpc_url),
{
    match given {
        Some(u) => return Some(u.clone()),
        None => {},
    }
    match from_env {
        Some(v) => match parse_url(v.as_str()) {
            Some(u) => return Some(u),
            None => {},
        },
        None => {},
    }
    match rpc_url {
        Some(r) => Some(r.clone()),
        None => None,
    }
}

/// The name of the variable for an endpoint of a chain, such as `RPC_1`.
pub fn env_key(prefix: &str, chain_id: u64) -> (r: String)
    ensures
        r@ == env_key_text(prefix@, chain_id),
{
    let mut s = String::from_str(prefix);
    push_decimal(&mut s, chain_id);
    s
}

impl Args {
    /// The configuration of the daemon: Ethereum mainnet, the given endpoints,
    /// no cache, and a compressed proof unless only execution is asked for.
    pub fn as_config(&self) -> (r: Config)
        ensures
            r.chain_id == MAINNET_CHAIN_ID,
            r.genesis == GenesisSource::Chain(MAINNET_CHAIN_ID),
            opt_view(r.rpc_url) == Some(self.http_rpc_url@),
            opt_view(r.debug_rpc_url) == Some(self.debug_http_rpc_url@),
            r.witness_rpc_url is None,
            r.cache_dir is None,
            r.custom_beneficiary is None,
            r.prove_mode == prove_mode_for(!self.execute_only),
            !r.opcode_tracking,
    {
        Config {
            chain_id: MAINNET_CHAIN_ID,
            genesis: GenesisSource::Chain(MAINNET_CHAIN_ID),
            rpc_url: Some(self.http_rpc_url.clone()),
            debug_rpc_url: Some(self.debug_http_rpc_url.clone()),
            witness_rpc_url: None,
            cache_dir: None,
            custom_beneficiary: None,
            prove_mode: if self.execute_only {
                None
            } else {
                Some(ProofKind::Compressed)
            },
            opcode_tracking: false,
        }
    }
}

impl HostArgs {
    /// How the chain id is learned: given, else from the RPC endpoint.
    pub fn chain_id_source(&self) -> (r: Result<ChainIdSource, ConfigError>)
        ensures
            match (self.provider.chain_id, self.provider.rpc_url) {
                (Some(id), _) => r == Ok::<ChainIdSource, ConfigError>(ChainIdSource::Given(id)),
                (None, Some(u)) => r matches Ok(ChainIdSource::AskRpc(v)) && v@ == u@,
                (None, None) => r == Err::<ChainIdSource, ConfigError>(ConfigError::NoRpcOrChainId),
            },
    {
        match (self.provider.chain_id, &self.provider.rpc_url) {
            (Some(id), _) => Ok(ChainIdSource::Given(id)),
            (None, Some(u)) => Ok(ChainIdSource::AskRpc(u.clone())),
            (None, None) => Err(ConfigError::NoRpcOrChainId),
        }
    }

    /// The configuration of a host run. `rpc_chain_id` is the chain id that
    /// the RPC endpoint reported, where `chain_id_source` asked for it;
    /// `env_rpc`, `env_debug_rpc` and `env_witness_rpc` are what the variables
    /// `RPC_<id>`, `DEBUG_RPC_<id>` and `WITNESS_RPC_<id>` hold; `genesis_read`
    /// is the outcome of reading `genesis_path`, where one was given.
    ///
    /// Without an RPC URL the one of `RPC_<id>` is used, which must then be a
    /// URL. The debug and witness endpoints fall back to their variable where
    /// it parses, then to the RPC URL.
    pub fn as_config(
        &self,
        rpc_chain_id: Option<u64>,
        env_rpc: Option<String>,
        env_debug_rpc: Option<String>,
        env_witness_rpc: Option<String>,
        genesis_read: Option<Result<String, String>>,
    ) -> (r: Result<Config, ConfigError>)
        ensures
            match resolved_chain_id(*self, rpc_chain_id) {
                None => r == Err::<Config, ConfigError>(
                    if self.provider.rpc_url is None {
                        ConfigError::NoRpcOrChainId
                    } else {
                        ConfigError::ChainIdUnavailable
                    },
                ),
                Some(chain_id) => if self.provider.rpc_url is None && env_rpc is Some
                    && parsed_url_of(env_rpc->0@) is None {
                    r == Err::<Config, ConfigError>(ConfigError::InvalidRpcUrl(env_rpc->0))
                } else if self.genesis_path is Some && !(genesis_read matches Some(Ok(_))) {
                    r == Err::<Config, ConfigError>(
                        ConfigError::GenesisRead(
                            match genesis_read {
                                Some(Err(m)) => m,
                                _ => self.genesis_path->0,
                            },
                        ),
                    )
                } else {
                    r matches Ok(c) && {
                        let rpc = match self.provider.rpc_url {
                            Some(u) => Some(u@),
                            None => match env_rpc {
                                Some(v) => parsed_url_of(v@),
                                None => None,
                            },
                        };
                        &&& c.chain_id == chain_id
                        &&& opt_view(c.rpc_url) == rpc
                        &&& opt_view(c.debug_rpc_url) == endpoint_choice(
                            self.provider.debug_rpc_url,
                            env_debug_rpc,
                            c.rpc_url,
                        )
                        &&& opt_view(c.witness_rpc_url) == endpoint_choice(
                            self.provider.witness_rpc_url,
                            env_witness_rpc,
                            c.rpc_url,
                        )
                        &&& c.genesis == match (self.genesis_path, genesis_read) {
                            (Some(_), Some(Ok(j))) => GenesisSource::Custom(j),
                            _ => GenesisSource::Chain(chain_id),
                        }
                        &&& c.cache_dir == self.cache_dir
                        &&& c.custom_beneficiary == self.custom_beneficiary
                        &&& c.prove_mode == prove_mode_for(self.prove)
                        &&& c.opcode_tracking == self.opcode_tracking
                    }
                },
            },
    {
        let chain_id = match (self.provider.chain_id, &self.provider.rpc_url) {
            (Some(id), _) => id,
            (None, Some(_)) => match rpc_chain_id {
                Some(id) => id,
                None => return Err(ConfigError::ChainIdUnavailable),
            },
            (None, None) => return Err(ConfigError::NoRpcOrChainId),
        };
        let rpc_url = match &self.provider.rpc_url {
            Some(u) => Some(u.clone()),
            None => match &env_rpc {
                Some(v) => match parse_url(v.as_str()) {
                    Some(u) => Some(u),
                    None => return Err(ConfigError::InvalidRpcUrl(v.clone())),
                },
                None => None,
            },
        };
        let genesis = match &self.genesis_path {
            None => GenesisSource::Chain(chain_id),
            Some(path) => match genesis_read {
                Some(Ok(j)) => GenesisSource::Custom(j),
                Some(Err(m)) => return Err(ConfigError::GenesisRead(m)),
                None => return Err(ConfigError::GenesisRead(path.clone())),
            },
        };
        let debug_rpc_url = endpoint(&self.provider.debug_rpc_url, &env_debug_rpc, &rpc_url);
        let witness_rpc_url = endpoint(&self.provider.witness_rpc_url, &env_witness_rpc, &rpc_url);
        Ok(Config {
            chain_id,
            genesis,
            rpc_url,
            debug_rpc_url,
            witness_rpc_url,
            cache_dir: self.cache_dir.clone(),
            custom_beneficiary: self.custom_beneficiary,
            prove_mode: if self.prove {
                Some(ProofKind::Compressed)
            } else {
                None
            },
            opcode_tracking: self.opcode_tracking,
        })
    }
}

} // verus!
