use vstd::prelude::*;
use vstd::string::StringExecFns;

use crate::text::{decimal_of, hash_text, push_decimal, push_hash};

verus! {

/// Why assembling or checking the input for one block failed.
///
/// Errors raised by outside components (transport, trie construction, EVM
/// execution) are carried as their rendered message.
#[derive(Debug, Clone, PartialEq, Eq)]
pub enum Error {
    ParseError(String),
    Transport(String),
    RpcDb(String),
    FailedToRecoverSenders,
    HeaderDeserializationFailed,
    PostExecutionCheck(String),
    ExecutionFailed(String),
    FromProof(String),
    ExpectedBlock(u64),
    HeaderMismatch([u8; 32], [u8; 32]),
    StateRootMismatch([u8; 32], [u8; 32]),
    FailedToReadGenesisFile(String),
    MissingAncestorHeader,
    StatelessErr(String),
    Custom(String),
}

/// The human-readable message of an error.
pub open spec fn error_text(e: Error) -> Seq<char> {
    match e {
        Error::ParseError(m) => "Failed to parse blocks into executor friendly format "@ + m@,
        Error::Transport(m) => "Transport Error: "@ + m@,
        Error::RpcDb(m) => "RPC Db Error: "@ + m@,
        Error::FailedToRecoverSenders => "Failed to recover senders from RPC block data"@,
        Error::HeaderDeserializationFailed => "could not deserialize ancestor headers"@,
        Error::PostExecutionCheck(_) => "Failed to validate post execution state"@,
        Error::ExecutionFailed(m) => "Local Execution Failed "@ + m@,
        Error::FromProof(m) => "Failed to construct a valid state trie from RPC data "@ + m@,
        Error::ExpectedBlock(n) => "RPC didnt have expected block height "@ + decimal_of(n as nat),
        Error::HeaderMismatch(f, x) => "Header Mismatch \n found "@ + hash_text(f@)
            + " expected "@ + hash_text(x@),
        Error::StateRootMismatch(f, x) => "State root mismatch after local execution \n found "@
            + hash_text(f@) + " expected "@ + hash_text(x@),
        Error::FailedToReadGenesisFile(m) => "Failed to read the genesis file: "@ + m@,
        Error::MissingAncestorHeader => "missing required ancestor headers"@,
        Error::StatelessErr(m) => "Stateless validation error: "@ + m@,
        Error::Custom(m) => "custom error: "@ + m@,
    }
}

fn prefixed(prefix: &str, m: &String) -> (r: String)
    ensures
        r@ == prefix@ + m@,
{
    let mut s = String::from_str(prefix);
    s.append(m.as_str());
    s
}

fn mismatch(prefix: &str, found: &[u8; 32], expected: &[u8; 32]) -> (r: String)
    ensures
        r@ == prefix@ + hash_text(found@) + " expected "@ + hash_text(expected@),
{
    let mut s = String::from_str(prefix);
    push_hash(&mut s, found);
    s.append(" expected ");
    push_hash(&mut s, expected);
    s
}

impl Error {
    /// Renders the error as the message that is logged and sent as an alert.
    pub fn message(&self) -> (r: String)
        ensures
            r@ == error_text(*self),
    {
        match self {
            Error::ParseError(m) => prefixed("Failed to parse blocks into executor friendly format ", m),
            Error::Transport(m) => prefixed("Transport Error: ", m),
            Error::RpcDb(m) => prefixed("RPC Db Error: ", m),
            Error::FailedToRecoverSenders => String::from_str(
                "Failed to recover senders from RPC block data",
            ),
            Error::HeaderDeserializationFailed => String::from_str(
                "could not deserialize ancestor headers",
            ),
            Error::PostExecutionCheck(_) => String::from_str(
                "Failed to validate post execution state",
            ),
            Error::ExecutionFailed(m) => prefixed("Local Execution Failed ", m),
            Error::FromProof(m) => prefixed(
                "Failed to construct a valid state trie from RPC data ",
                m,
            ),
            Error::ExpectedBlock(n) => {
                let mut s = String::from_str("RPC didnt have expected block height ");
                push_decimal(&mut s, *n);
                s
            },
            Error::HeaderMismatch(f, x) => mismatch("Header Mismatch \n found ", f, x),
            Error::StateRootMismatch(f, x) => mismatch(
                "State root mismatch after local execution \n found ",
                f,
                x,
            ),
            Error::FailedToReadGenesisFile(m) => prefixed("Failed to read the genesis file: ", m),
            Error::MissingAncestorHeader => String::from_str("missing required ancestor headers"),
            Error::StatelessErr(m) => prefixed("Stateless validation error: ", m),
            Error::Custom(m) => prefixed("custom error: ", m),
        }
    }
}

} // verus!
