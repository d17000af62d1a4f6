use vstd::prelude::*;
use vstd::string::StringExecFns;

use crate::digest::{keccak256, keccak_of};
use crate::store::{entries_map, find_entry, hash_entries, hashed_map, HashedEntry};
use crate::error::Error;
use crate::account::{account_of, decode_account, decode_word, word_of, AccountInfo};
use crate::rlp::{is_single_list, single_list};
use crate::text::{decimal_of, hash_text, push_decimal, push_hash};
use crate::trie::{lemma_lookup_stable_with_more_nodes, root_problem, trie_lookup, TrieError, WitnessTrie, EMPTY_ROOT};

verus! {

/// The number of the block header that `rlp` encodes, as decoded by
/// `alloy_consensus::Header`; `None` where the bytes do not decode.
pub uninterp spec fn header_number_of(rlp: Seq<u8>) -> Option<u64>;

/// Relies on `alloy_consensus::Header`'s RLP decoding, for the header's number.
#[verifier::external_body]
fn decode_header_number(rlp: &[u8]) -> (r: Option<u64>)
    ensures
        r == header_number_of(rlp@),
{
    let mut buf = rlp;
    <alloy_consensus::Header as alloy_rlp::Decodable>::decode(&mut buf).ok().map(|h| h.number)
}

/// An ancestor block's number and hash.
#[derive(Debug, Clone, Copy, PartialEq, Eq)]
pub struct AncestorHeader {
    pub number: u64,
    pub hash: [u8; 32],
}

/// Why a state query could not be answered from the witness.
#[derive(Debug, Clone, Copy, PartialEq, Eq)]
pub enum DbError {
    CodeNotFound([u8; 32]),
    HeaderNotFound(u64),
}

/// The message of a database error.
pub open spec fn db_error_text(e: DbError) -> Seq<char> {
    match e {
        DbError::CodeNotFound(h) => "Code not found for "@ + hash_text(h@),
        DbError::HeaderNotFound(n) => "Header "@ + decimal_of(n as nat)
            + " not found in the ancestors"@,
    }
}

impl DbError {
    /// The message of the error.
    pub fn message(&self) -> (r: String)
        ensures
            r@ == db_error_text(*self),
    {
        match self {
            DbError::CodeNotFound(h) => {
                let mut s = String::from_str("Code not found for ");
                push_hash(&mut s, h);
                s
            },
            DbError::HeaderNotFound(n) => {
                let mut s = String::from_str("Header ");
                push_decimal(&mut s, *n);
                s.append(" not found in the ancestors");
                s
            },
        }
    }
}

/// The hashes of RLP-encoded ancestor headers by block number; a later header
/// replaces an earlier one of the same number.
pub open spec fn header_map(headers: Seq<Vec<u8>>) -> Map<u64, Seq<u8>>
    decreases headers.len(),
{
    if headers.len() == 0 {
        Map::empty()
    } else {
        let rest = header_map(headers.drop_last());
        match header_number_of(headers.last()@) {
            Some(n) => rest.insert(n, keccak_of(headers.last()@)),
            None => rest,
        }
    }
}

/// Whether every header of the list is exactly one RLP list that decodes as
/// a header.
pub open spec fn headers_decode(headers: Seq<Vec<u8>>) -> bool {
    forall|i: int|
        0 <= i < headers.len() ==> (#[trigger] header_number_of(headers[i]@)) is Some && single_list(
            headers[i]@,
        )
}

/// Numbers strictly decrease along the list.
pub open spec fn newest_first(hs: Seq<AncestorHeader>) -> bool {
    forall|i: int, j: int| 0 <= i < j < hs.len() ==> hs[i].number > hs[j].number
}

/// The view of a list of ancestor headers: hash by number.
pub open spec fn ancestor_map(hs: Seq<AncestorHeader>) -> Map<u64, Seq<u8>> {
    Map::new(
        |n: u64| exists|i: int| 0 <= i < hs.len() && hs[i].number == n,
        |n: u64| hs[choose|i: int| 0 <= i < hs.len() && hs[i].number == n].hash@,
    )
}

/// In a newest-first list, each entry is what the view holds for its number.
pub proof fn lemma_ancestor_map_at(hs: Seq<AncestorHeader>, i: int)
    requires
        newest_first(hs),
        0 <= i < hs.len(),
    ensures
        ancestor_map(hs).contains_key(hs[i].number),
        ancestor_map(hs)[hs[i].number] == hs[i].hash@,
{
    let n = hs[i].number;
    assert(exists|j: int| 0 <= j < hs.len() && hs[j].number == n);
    let j = choose|j: int| 0 <= j < hs.len() && hs[j].number == n;
    if j < i {
        assert(hs[j].number > hs[i].number);
    } else if i < j {
        assert(hs[i].number > hs[j].number);
    }
}

/// A newest-first list has view `m` when every entry agrees with `m` and
/// every number of `m` has an entry.
proof fn lemma_ancestor_map_ext(a: Seq<AncestorHeader>, m: Map<u64, Seq<u8>>)
    requires
        newest_first(a),
        forall|i: int| 0 <= i < a.len() ==> m.contains_key(#[trigger] a[i].number) && m[a[i].number] == a[i].hash@,
        forall|k: u64| #[trigger] m.contains_key(k) ==> exists|i: int| 0 <= i < a.len() && a[i].number == k,
    ensures
        ancestor_map(a) == m,
{
    assert forall|k: u64| #[trigger] ancestor_map(a).contains_key(k) == m.contains_key(k) by {
        if ancestor_map(a).contains_key(k) {
            let i = choose|i: int| 0 <= i < a.len() && a[i].number == k;
            assert(m.contains_key(a[i].number));
        }
    }
    assert forall|k: u64| #[trigger] m.contains_key(k) implies ancestor_map(a)[k] == m[k] by {
        let i = choose|i: int| 0 <= i < a.len() && a[i].number == k;
        lemma_ancestor_map_at(a, i);
    }
    assert(ancestor_map(a) =~= m);
}

/// The account stored for `address`, decoded.
pub open spec fn account_lookup(
    store: Map<Seq<u8>, Seq<u8>>,
    root: Seq<u8>,
    address: Seq<u8>,
) -> Result<Option<(nat, Seq<u8>, Seq<u8>, Seq<u8>)>, TrieError> {
    match trie_lookup(store, root, keccak_of(address)) {
        Err(e) => Err(e),
        Ok(None) => Ok(None),
        Ok(Some(v)) => match account_of(v) {
            Some(f) => Ok(Some(f)),
            None => Err(TrieError::Malformed),
        },
    }
}

/// The 32 zero bytes.
pub open spec fn zero_word() -> Seq<u8> {
    Seq::new(32, |i: int| 0u8)
}

/// The value of storage slot `slot` of `address`, as 32 big-endian bytes:
/// read in the storage trie whose root the account holds; an absent account
/// or slot holds zero.
pub open spec fn storage_lookup(
    store: Map<Seq<u8>, Seq<u8>>,
    root: Seq<u8>,
    address: Seq<u8>,
    slot: Seq<u8>,
) -> Result<Seq<u8>, TrieError> {
    match account_lookup(store, root, address) {
        Err(e) => Err(e),
        Ok(None) => Ok(zero_word()),
        Ok(Some(f)) => match trie_lookup(store, f.2, keccak_of(slot)) {
            Err(e) => Err(e),
            Ok(None) => Ok(zero_word()),
            Ok(Some(v)) => match word_of(v) {
                Some(w) => Ok(w),
                None => Err(TrieError::Malformed),
            },
        },
    }
}

/// The 32 zero bytes.
fn zero32() -> (r: [u8; 32])
    ensures
        r@ == zero_word(),
{
    let mut z = [0u8; 32];
    let mut i: usize = 0;
    while i < 32
        invariant
            i <= 32,
            z@.len() == 32,
            forall|j: int| 0 <= j < i ==> z@[j] == 0,
        decreases 32 - i,
    {
        z[i] = 0;
        i = i + 1;
    }
    assert(z@ =~= zero_word());
    z
}

/// Whether an account read returned the decoded `expected`.
pub open spec fn account_read(
    r: Result<Option<AccountInfo>, TrieError>,
    expected: Result<Option<(nat, Seq<u8>, Seq<u8>, Seq<u8>)>, TrieError>,
) -> bool {
    match (r, expected) {
        (Err(e1), Err(e2)) => e1 == e2,
        (Ok(None), Ok(None)) => true,
        (Ok(Some(a)), Ok(Some(f))) => a.nonce == f.0 && a.balance@ == f.1 && a.storage_root@ == f.2
            && a.code_hash@ == f.3,
        _ => false,
    }
}

/// Whether a storage read returned `expected`.
pub open spec fn word_read(r: Result<[u8; 32], TrieError>, expected: Result<Seq<u8>, TrieError>) -> bool {
    match (r, expected) {
        (Err(e1), Err(e2)) => e1 == e2,
        (Ok(w), Ok(x)) => w@ == x,
        _ => false,
    }
}

/// A witness that lacks nodes never answers an account or storage read with
/// another value than the full witness: the read either fails or agrees.
pub proof fn lemma_partial_witness_agrees(
    partial: Map<Seq<u8>, Seq<u8>>,
    full: Map<Seq<u8>, Seq<u8>>,
    root: Seq<u8>,
    address: Seq<u8>,
    slot: Seq<u8>,
)
    requires
        partial.submap_of(full),
        !full.contains_key(EMPTY_ROOT@),
    ensures
        account_lookup(partial, root, address) is Ok ==> account_lookup(full, root, address)
            == account_lookup(partial, root, address),
        storage_lookup(partial, root, address, slot) is Ok ==> storage_lookup(
            full,
            root,
            address,
            slot,
        ) == storage_lookup(partial, root, address, slot),
{
    if trie_lookup(partial, root, keccak_of(address)) is Ok {
        lemma_lookup_stable_with_more_nodes(partial, full, root, keccak_of(address));
    }
    if storage_lookup(partial, root, address, slot) is Ok {
        if let Ok(Some(f)) = account_lookup(partial, root, address) {
            lemma_lookup_stable_with_more_nodes(partial, full, f.2, keccak_of(slot));
        }
    }
}

/// The read-only state oracle that block execution queries: accounts and
/// storage from the witness's state nodes, bytecodes and ancestor block
/// hashes.
#[derive(Debug)]
pub struct ExecutionWitnessRpcDb {
    state: WitnessTrie,
    codes: Vec<HashedEntry>,
    headers: Vec<AncestorHeader>,
}

impl ExecutionWitnessRpcDb {
    /// The state nodes by hash.
    pub closed spec fn state_store(&self) -> Map<Seq<u8>, Seq<u8>> {
        self.state.store()
    }

    /// The state root that reads start from.
    pub closed spec fn state_root(&self) -> Seq<u8> {
        self.state.root_hash()
    }

    /// The bytecodes by hash.
    pub closed spec fn codes_view(&self) -> Map<Seq<u8>, Seq<u8>> {
        entries_map(self.codes@)
    }

    /// The ancestor block hashes by number.
    pub closed spec fn headers_view(&self) -> Map<u64, Seq<u8>> {
        ancestor_map(self.headers@)
    }

    /// Ancestor headers are kept newest first, one per number.
    pub closed spec fn wf(&self) -> bool {
        newest_first(self.headers@)
    }

    /// A database over `state` holding no code and no ancestor header.
    fn with_state(state: WitnessTrie) -> (r: ExecutionWitnessRpcDb)
        ensures
            r.wf(),
            r.state == state,
            r.codes_view() == Map::<Seq<u8>, Seq<u8>>::empty(),
            r.headers_view() == Map::<u64, Seq<u8>>::empty(),
    {
        let r = ExecutionWitnessRpcDb { state, codes: Vec::new(), headers: Vec::new() };
        assert(r.headers_view() =~= Map::<u64, Seq<u8>>::empty());
        r
    }

    /// Builds the oracle from an execution witness: its RLP-encoded state
    /// nodes, read from `state_root` on, its bytecodes and its RLP-encoded
    /// ancestor headers. Nodes and codes are keyed by their Keccak-256 hash,
    /// headers by their number, with the Keccak-256 hash of their encoding as
    /// block hash.
    pub fn new(
        state: &Vec<Vec<u8>>,
        state_root: [u8; 32],
        codes: Vec<Vec<u8>>,
        headers: Vec<Vec<u8>>,
    ) -> (r: Result<ExecutionWitnessRpcDb, Error>)
        ensures
            match root_problem(hashed_map(state@), state_root@) {
                Some(m) => r matches Err(Error::FromProof(e)) && e@ == m,
                None => if headers_decode(headers@) {
                    r is Ok
                } else {
                    r matches Err(e) && e == Error::HeaderDeserializationFailed
                },
            },
            r matches Ok(db) ==> db.wf() && db.state_store() == hashed_map(state@)
                && db.state_root() == state_root@ && db.codes_view() == hashed_map(codes@)
                && db.headers_view() == header_map(headers@),
    {
        let trie = WitnessTrie::new(state, state_root);
        match trie.root_problem() {
            Some(m) => return Err(Error::FromProof(m)),
            None => {},
        }
        let mut db = ExecutionWitnessRpcDb::with_state(trie);
        db.codes = hash_entries(&codes);
        let mut k: usize = 0;
        while k < headers.len()
            invariant
                k <= headers@.len(),
                db.wf(),
                db.state_store() == hashed_map(state@),
                db.state_root() == state_root@,
                db.codes_view() == hashed_map(codes@),
                db.headers_view() == header_map(headers@.subrange(0, k as int)),
                headers_decode(headers@.subrange(0, k as int)),
                root_problem(hashed_map(state@), state_root@) is None,
            decreases headers@.len() - k,
        {
            let encoded = &headers[k];
            proof {
                assert(headers@.subrange(0, k + 1).drop_last() =~= headers@.subrange(0, k as int));
            }
            if !is_single_list(encoded.as_slice()) {
                return Err(Error::HeaderDeserializationFailed);
            }
            match decode_header_number(encoded.as_slice()) {
                None => {
                    proof {
                        assert(header_number_of(headers@[k as int]@) is None);
                    }
                    return Err(Error::HeaderDeserializationFailed);
                },
                Some(number) => {
                    let hash = keccak256(encoded.as_slice());
                    db.insert_header(number, hash);
                },
            }
            proof {
                let sub = headers@.subrange(0, k + 1);
                assert forall|j: int| 0 <= j < sub.len() implies (#[trigger] header_number_of(sub[j]@)) is Some by {
                    if j < k {
                        assert(sub[j] == headers@.subrange(0, k as int)[j]);
                    }
                }
            }
            k = k + 1;
        }
        assert(headers@.subrange(0, headers@.len() as int) =~= headers@);
        Ok(db)
    }

    /// The account of `address`, decoded, if the state holds one.
    pub fn basic_ref(&self, address: &[u8; 20]) -> (r: Result<Option<AccountInfo>, TrieError>)
        ensures
            account_read(r, account_lookup(self.state_store(), self.state_root(), address@)),
    {
        match self.state.account(address) {
            Err(e) => Err(e),
            Ok(None) => Ok(None),
            Ok(Some(v)) => match decode_account(v.as_slice()) {
                Some(a) => Ok(Some(a)),
                None => Err(TrieError::Malformed),
            },
        }
    }

    /// The value of storage slot `slot` of `address`, as 32 big-endian bytes.
    pub fn storage_ref(&self, address: &[u8; 20], slot: &[u8; 32]) -> (r: Result<[u8; 32], TrieError>)
        ensures
            word_read(r, storage_lookup(self.state_store(), self.state_root(), address@, slot@)),
    {
        let account = match self.basic_ref(address) {
            Err(e) => return Err(e),
            Ok(None) => return Ok(zero32()),
            Ok(Some(a)) => a,
        };
        match self.state.storage(&account.storage_root, slot) {
            Err(e) => Err(e),
            Ok(None) => Ok(zero32()),
            Ok(Some(v)) => match decode_word(v.as_slice()) {
                Some(w) => Ok(w),
                None => Err(TrieError::Malformed),
            },
        }
    }

    /// The bytecode with hash `code_hash`.
    pub fn code_by_hash_ref(&self, code_hash: &[u8; 32]) -> (r: Result<Vec<u8>, DbError>)
        ensures
            r matches Ok(c) ==> self.codes_view().contains_key(code_hash@)
                && c@ == self.codes_view()[code_hash@],
            r is Err <==> !self.codes_view().contains_key(code_hash@),
            r matches Err(e) ==> e == DbError::CodeNotFound(*code_hash),
    {
        match find_entry(&self.codes, code_hash.as_slice()) {
            Some(i) => return Ok(self.codes[i].bytes.clone()),
            None => {},
        }
        Err(DbError::CodeNotFound(*code_hash))
    }

    /// Records the hash of ancestor block `number`, replacing an earlier one.
    fn insert_header(&mut self, number: u64, hash: [u8; 32])
        requires
            old(self).wf(),
        ensures
            final(self).wf(),
            final(self).headers_view() == old(self).headers_view().insert(number, hash@),
            final(self).codes_view() == old(self).codes_view(),
            final(self).state == old(self).state,
    {
        let ghost old_hs = self.headers@;
        let ghost m = ancestor_map(old_hs).insert(number, hash@);
        let e = AncestorHeader { number, hash };
        let mut i: usize = 0;
        while i < self.headers.len() && self.headers[i].number > number
            invariant
                i <= self.headers@.len(),
                self.headers@ == old_hs,
                forall|j: int| 0 <= j < i ==> old_hs[j].number > number,
            decreases self.headers@.len() - i,
        {
            i = i + 1;
        }
        proof {
            assert forall|j: int| 0 <= j < old_hs.len() implies #[trigger] m.contains_key(old_hs[j].number) by {}
            assert forall|j: int| 0 <= j < old_hs.len() implies ancestor_map(old_hs).contains_key(#[trigger] old_hs[j].number) by {
                lemma_ancestor_map_at(old_hs, j);
            }
        }
        if i < self.headers.len() && self.headers[i].number == number {
            self.headers.set(i, e);
            proof {
                let hs = self.headers@;
                assert(newest_first(hs));
                assert forall|j: int| 0 <= j < hs.len() implies m.contains_key(#[trigger] hs[j].number)
                    && m[hs[j].number] == hs[j].hash@ by {
                    if j != i {
                        lemma_ancestor_map_at(old_hs, j);
                    }
                }
                assert forall|k: u64| #[trigger] m.contains_key(k) implies exists|j: int| 0 <= j < hs.len() && hs[j].number == k by {
                    if k == number {
                        assert(hs[i as int].number == k);
                    } else {
                        let j = choose|j: int| 0 <= j < old_hs.len() && old_hs[j].number == k;
                        assert(hs[j].number == k);
                    }
                }
                lemma_ancestor_map_ext(hs, m);
            }
        } else {
            self.headers.insert(i, e);
            proof {
                let hs = self.headers@;
                assert forall|a: int, b: int| 0 <= a < b < hs.len() implies hs[a].number > hs[b].number by {
                    if b < i {
                    } else if a < i && b == i {
                    } else if a < i {
                        assert(hs[b] == old_hs[b - 1]);
                    } else if a == i {
                        assert(hs[b] == old_hs[b - 1]);
                        assert(old_hs[i as int].number <= number || i == old_hs.len());
                        if b - 1 > i {
                            assert(old_hs[i as int].number > old_hs[b - 1].number);
                        }
                    } else {
                        assert(hs[a] == old_hs[a - 1]);
                        assert(hs[b] == old_hs[b - 1]);
                    }
                }
                assert forall|j: int| 0 <= j < hs.len() implies m.contains_key(#[trigger] hs[j].number)
                    && m[hs[j].number] == hs[j].hash@ by {
                    if j < i {
                        lemma_ancestor_map_at(old_hs, j);
                    } else if j > i {
                        assert(hs[j] == old_hs[j - 1]);
                        lemma_ancestor_map_at(old_hs, j - 1);
                    }
                }
                assert forall|k: u64| #[trigger] m.contains_key(k) implies exists|j: int| 0 <= j < hs.len() && hs[j].number == k by {
                    if k == number {
                        assert(hs[i as int].number == k);
                    } else {
                        let j = choose|j: int| 0 <= j < old_hs.len() && old_hs[j].number == k;
                        if j < i {
                            assert(hs[j].number == k);
                        } else {
                            assert(hs[j + 1].number == k);
                        }
                    }
                }
                lemma_ancestor_map_ext(hs, m);
            }
        }
    }

    /// The hash of ancestor block `number`.
    pub fn block_hash_ref(&self, number: u64) -> (r: Result<[u8; 32], DbError>)
        requires
            self.wf(),
        ensures
            r matches Ok(h) ==> self.headers_view().contains_key(number)
                && h@ == self.headers_view()[number],
            r is Err <==> !self.headers_view().contains_key(number),
            r matches Err(e) ==> e == DbError::HeaderNotFound(number),
    {
        let mut i: usize = 0;
        while i < self.headers.len()
            invariant
                i <= self.headers@.len(),
                self.wf(),
                forall|j: int| 0 <= j < i ==> self.headers@[j].number != number,
            decreases self.headers@.len() - i,
        {
            if self.headers[i].number == number {
                proof { lemma_ancestor_map_at(self.headers@, i as int); }
                return Ok(self.headers[i].hash);
            }
            i = i + 1;
        }
        Err(DbError::HeaderNotFound(number))
    }

    /// The ancestor headers, newest first.
    pub fn ancestor_headers(&self) -> (r: Vec<AncestorHeader>)
        requires
            self.wf(),
        ensures
            newest_first(r@),
            ancestor_map(r@) == self.headers_view(),
    {
        self.headers.clone()
    }
}

} // verus!
