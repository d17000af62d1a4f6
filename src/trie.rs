use vstd::prelude::*;
use vstd::slice::slice_to_vec;
use vstd::string::StringExecFns;

use crate::digest::{keccak256, keccak_of};
use crate::rlp::{decode_list, item_view, items_view, list_items, RlpItem};
use crate::store::{entries_map, find_entry, hash_entries, hash_matches, hashed_map, HashedEntry};

verus! {

/// The root hash of the empty trie: the Keccak-256 digest of the empty string's RLP encoding.
pub const EMPTY_ROOT: [u8; 32] = [
    0x56, 0xe8, 0x1f, 0x17, 0x1b, 0xcc, 0x55, 0xa6, 0xff, 0x83, 0x45, 0xe6, 0x92, 0xc0, 0xf8, 0x6e,
    0x5b, 0x48, 0xe0, 0x1b, 0x99, 0x6c, 0xad, 0xc0, 0x01, 0x62, 0x2f, 0xb5, 0xe3, 0x63, 0xb4, 0x21,
];

/// Why a trie read failed.
#[derive(Debug, Clone, Copy, PartialEq, Eq)]
pub enum TrieError {
    /// A node on the path is referenced by hash but the witness does not hold it.
    MissingNode,
    /// A node on the path is not a well-formed trie node.
    Malformed,
}

/// The nibbles of a byte string, high nibble first.
pub open spec fn nibbles_of(b: Seq<u8>) -> Seq<u8>
    decreases b.len(),
{
    if b.len() == 0 {
        Seq::empty()
    } else {
        nibbles_of(b.drop_last()) + seq![b.last() / 16, b.last() % 16]
    }
}

/// A hex-prefix encoded path: whether it ends in a leaf, and its nibbles.
pub open spec fn hp_decode(enc: Seq<u8>) -> Option<(bool, Seq<u8>)> {
    if enc.len() == 0 {
        None
    } else {
        let flag = enc[0] / 16;
        if flag > 3 {
            None
        } else if flag % 2 == 1 {
            Some((flag >= 2, seq![enc[0] % 16] + nibbles_of(enc.drop_first())))
        } else if enc[0] % 16 != 0 {
            None
        } else {
            Some((flag >= 2, nibbles_of(enc.drop_first())))
        }
    }
}

/// The node a child reference points to: an embedded node, a node of the
/// store by hash, or none.
pub open spec fn child_ref(
    store: Map<Seq<u8>, Seq<u8>>,
    it: (bool, Seq<u8>, Seq<u8>),
) -> Result<Option<Seq<u8>>, TrieError> {
    if it.0 {
        Ok(Some(it.1))
    } else if it.2.len() == 0 {
        Ok(None)
    } else if it.2.len() == 32 {
        if store.contains_key(it.2) {
            Ok(Some(store[it.2]))
        } else {
            Err(TrieError::MissingNode)
        }
    } else {
        Err(TrieError::Malformed)
    }
}

/// The value stored under nibble path `key`, read from position `p` on in
/// the subtrie whose root node is encoded as `node`.
pub open spec fn trie_get(
    store: Map<Seq<u8>, Seq<u8>>,
    node: Seq<u8>,
    key: Seq<u8>,
    p: int,
) -> Result<Option<Seq<u8>>, TrieError>
    decreases key.len() - p,
{
    if p < 0 || p > key.len() {
        Err(TrieError::Malformed)
    } else {
        match list_items(node) {
            None => Err(TrieError::Malformed),
            Some(items) => if items.len() == 17 {
                if p == key.len() {
                    let v = items[16];
                    if v.0 {
                        Err(TrieError::Malformed)
                    } else if v.2.len() == 0 {
                        Ok(None)
                    } else {
                        Ok(Some(v.2))
                    }
                } else if key[p] >= 16 {
                    Err(TrieError::Malformed)
                } else {
                    match child_ref(store, items[key[p] as int]) {
                        Err(e) => Err(e),
                        Ok(None) => Ok(None),
                        Ok(Some(child)) => trie_get(store, child, key, p + 1),
                    }
                }
            } else if items.len() == 2 {
                if items[0].0 {
                    Err(TrieError::Malformed)
                } else {
                    match hp_decode(items[0].2) {
                        None => Err(TrieError::Malformed),
                        Some((leaf, path)) => if leaf {
                            if key.subrange(p, key.len() as int) == path {
                                if items[1].0 {
                                    Err(TrieError::Malformed)
                                } else {
                                    Ok(Some(items[1].2))
                                }
                            } else {
                                Ok(None)
                            }
                        } else if path.len() == 0 {
                            Err(TrieError::Malformed)
                        } else if p + path.len() <= key.len() && key.subrange(
                            p,
                            p + path.len(),
                        ) == path {
                            match child_ref(store, items[1]) {
                                Err(e) => Err(e),
                                Ok(None) => Err(TrieError::Malformed),
                                Ok(Some(child)) => trie_get(store, child, key, p + path.len()),
                            }
                        } else {
                            Ok(None)
                        },
                    }
                }
            } else {
                Err(TrieError::Malformed)
            },
        }
    }
}

/// The value stored under `key` in the trie with root hash `root`.
pub open spec fn trie_lookup(
    store: Map<Seq<u8>, Seq<u8>>,
    root: Seq<u8>,
    key: Seq<u8>,
) -> Result<Option<Seq<u8>>, TrieError> {
    if store.contains_key(root) {
        trie_get(store, store[root], nibbles_of(key), 0)
    } else if root == EMPTY_ROOT@ {
        Ok(None)
    } else {
        Err(TrieError::MissingNode)
    }
}

/// Whether a node is shaped as a trie node: a list of 17 items (a branch) or
/// of 2 items (a leaf or an extension).
pub open spec fn trie_node(node: Seq<u8>) -> bool {
    list_items(node) matches Some(items) && (items.len() == 17 || items.len() == 2)
}

/// What keeps the nodes from leading to `root`: its node is absent and it is
/// not the empty trie's root, or its node is not a trie node.
pub open spec fn root_problem(store: Map<Seq<u8>, Seq<u8>>, root: Seq<u8>) -> Option<Seq<char>> {
    if store.contains_key(root) {
        if trie_node(store[root]) {
            None
        } else {
            Some("malformed state root node"@)
        }
    } else if root == EMPTY_ROOT@ {
        None
    } else {
        Some("missing state root node"@)
    }
}

/// A read that a set of witness nodes answers is answered alike by any larger
/// set: a node missing from a witness can make a read fail, never make it
/// return another value.
pub proof fn lemma_read_stable_with_more_nodes(
    s1: Map<Seq<u8>, Seq<u8>>,
    s2: Map<Seq<u8>, Seq<u8>>,
    node: Seq<u8>,
    key: Seq<u8>,
    p: int,
)
    requires
        s1.submap_of(s2),
        trie_get(s1, node, key, p) is Ok,
    ensures
        trie_get(s2, node, key, p) == trie_get(s1, node, key, p),
    decreases key.len() - p,
{
    if 0 <= p <= key.len() {
        match list_items(node) {
            None => {},
            Some(items) => {
                if items.len() == 17 && p < key.len() && key[p] < 16 {
                    let it = items[key[p] as int];
                    if !it.0 && it.2.len() == 32 && s1.contains_key(it.2) {
                        assert(s2.contains_key(it.2) && s2[it.2] == s1[it.2]);
                    }
                    if let Ok(Some(child)) = child_ref(s1, it) {
                        lemma_read_stable_with_more_nodes(s1, s2, child, key, p + 1);
                    }
                } else if items.len() == 2 && !items[0].0 {
                    if let Some((leaf, path)) = hp_decode(items[0].2) {
                        let it = items[1];
                        if !it.0 && it.2.len() == 32 && s1.contains_key(it.2) {
                            assert(s2.contains_key(it.2) && s2[it.2] == s1[it.2]);
                        }
                        if !leaf && path.len() > 0 && p + path.len() <= key.len() && key.subrange(
                            p,
                            p + path.len(),
                        ) == path {
                            if let Ok(Some(child)) = child_ref(s1, it) {
                                lemma_read_stable_with_more_nodes(s1, s2, child, key, p + path.len());
                            }
                        }
                    }
                }
            },
        }
    }
}

/// The same, for a read from any root hash, where the larger set holds no
/// node under the empty trie's root hash.
pub proof fn lemma_lookup_stable_with_more_nodes(
    s1: Map<Seq<u8>, Seq<u8>>,
    s2: Map<Seq<u8>, Seq<u8>>,
    root: Seq<u8>,
    key: Seq<u8>,
)
    requires
        s1.submap_of(s2),
        !s2.contains_key(EMPTY_ROOT@),
        trie_lookup(s1, root, key) is Ok,
    ensures
        trie_lookup(s2, root, key) == trie_lookup(s1, root, key),
{
    if s1.contains_key(root) {
        assert(s2.contains_key(root) && s2[root] == s1[root]);
        lemma_read_stable_with_more_nodes(s1, s2, s1[root], nibbles_of(key), 0);
    }
}

/// The view of a read's result.
pub open spec fn read_view(r: Result<Option<Vec<u8>>, TrieError>) -> Result<Option<Seq<u8>>, TrieError> {
    match r {
        Ok(Some(v)) => Ok(Some(v@)),
        Ok(None) => Ok(None),
        Err(e) => Err(e),
    }
}

/// The nibbles of a byte string.
pub fn nibbles(b: &[u8]) -> (r: Vec<u8>)
    ensures
        r@ == nibbles_of(b@),
{
    let mut r: Vec<u8> = Vec::new();
    let mut i: usize = 0;
    while i < b.len()
        invariant
            i <= b@.len(),
            r@ == nibbles_of(b@.subrange(0, i as int)),
        decreases b@.len() - i,
    {
        proof {
            assert(b@.subrange(0, i + 1).drop_last() =~= b@.subrange(0, i as int));
        }
        r.push(b[i] / 16);
        r.push(b[i] % 16);
        i = i + 1;
    }
    assert(b@.subrange(0, b@.len() as int) =~= b@);
    r
}

fn hp_path(enc: &[u8]) -> (r: Option<(bool, Vec<u8>)>)
    ensures
        match r {
            Some((leaf, path)) => hp_decode(enc@) == Some((leaf, path@)),
            None => hp_decode(enc@) is None,
        },
{
    if enc.len() == 0 {
        return None;
    }
    let flag = enc[0] / 16;
    if flag > 3 {
        return None;
    }
    let rest = nibbles(&enc[1..enc.len()]);
    proof {
        assert(enc@.subrange(1, enc@.len() as int) =~= enc@.drop_first());
    }
    if flag % 2 == 1 {
        let mut path: Vec<u8> = Vec::new();
        path.push(enc[0] % 16);
        let mut i: usize = 0;
        while i < rest.len()
            invariant
                i <= rest@.len(),
                path@ == seq![enc@[0] % 16] + rest@.subrange(0, i as int),
            decreases rest@.len() - i,
        {
            path.push(rest[i]);
            proof {
                assert(rest@.subrange(0, i + 1) =~= rest@.subrange(0, i as int).push(rest@[i as int]));
            }
            i = i + 1;
        }
        assert(rest@.subrange(0, rest@.len() as int) =~= rest@);
        Some((flag >= 2, path))
    } else if enc[0] % 16 != 0 {
        None
    } else {
        Some((flag >= 2, rest))
    }
}

/// A sparse Merkle-Patricia trie rebuilt from the nodes of an execution
/// witness: every node is kept under its Keccak-256 hash, and paths are
/// followed from a root hash on demand.
#[derive(Debug)]
pub struct WitnessTrie {
    nodes: Vec<HashedEntry>,
    root: [u8; 32],
}

impl WitnessTrie {
    /// The nodes by hash.
    pub closed spec fn store(&self) -> Map<Seq<u8>, Seq<u8>> {
        entries_map(self.nodes@)
    }

    /// The root hash of the account trie.
    pub closed spec fn root_hash(&self) -> Seq<u8> {
        self.root@
    }

    /// Keys the RLP-encoded `nodes` by hash, for reads from `root`.
    pub fn new(nodes: &Vec<Vec<u8>>, root: [u8; 32]) -> (r: WitnessTrie)
        ensures
            r.store() == hashed_map(nodes@),
            r.root_hash() == root@,
    {
        WitnessTrie { nodes: hash_entries(nodes), root }
    }

    /// Checks that the nodes lead to the root: its node is present and is a
    /// trie node, or the trie is empty.
    pub fn root_problem(&self) -> (r: Option<String>)
        ensures
            match r {
                Some(m) => root_problem(self.store(), self.root_hash()) == Some(m@),
                None => root_problem(self.store(), self.root_hash()) is None,
            },
    {
        match find_entry(&self.nodes, self.root.as_slice()) {
            Some(i) => match decode_list(self.nodes[i].bytes.as_slice()) {
                Some(items) => {
                    if items.len() == 17 || items.len() == 2 {
                        None
                    } else {
                        Some(String::from_str("malformed state root node"))
                    }
                },
                None => Some(String::from_str("malformed state root node")),
            },
            None => if hash_matches(&self.root, EMPTY_ROOT.as_slice()) {
                None
            } else {
                Some(String::from_str("missing state root node"))
            },
        }
    }

    fn child<'a>(&'a self, it: &RlpItem<'a>) -> (r: Result<Option<&'a [u8]>, TrieError>)
        ensures
            match r {
                Ok(Some(n)) => child_ref(self.store(), item_view(*it)) == Ok::<
                    Option<Seq<u8>>,
                    TrieError,
                >(Some(n@)),
                Ok(None) => child_ref(self.store(), item_view(*it)) == Ok::<
                    Option<Seq<u8>>,
                    TrieError,
                >(None),
                Err(e) => child_ref(self.store(), item_view(*it)) == Err::<
                    Option<Seq<u8>>,
                    TrieError,
                >(e),
            },
    {
        if it.list {
            Ok(Some(it.encoding))
        } else if it.payload.len() == 0 {
            Ok(None)
        } else if it.payload.len() == 32 {
            match find_entry(&self.nodes, it.payload) {
                Some(i) => Ok(Some(self.nodes[i].bytes.as_slice())),
                None => Err(TrieError::MissingNode),
            }
        } else {
            Err(TrieError::Malformed)
        }
    }

    fn get_at(&self, node: &[u8], key: &Vec<u8>, p: usize) -> (r: Result<Option<Vec<u8>>, TrieError>)
        requires
            p <= key@.len(),
        ensures
            read_view(r) == trie_get(self.store(), node@, key@, p as int),
        decreases key@.len() - p,
    {
        let klen = key.len();
        let items = match decode_list(node) {
            Some(v) => v,
            None => return Err(TrieError::Malformed),
        };
        let ghost iv = items_view(items@);
        if items.len() == 17 {
            if p == key.len() {
                let v = &items[16];
                proof { assert(iv[16] == item_view(*v)); }
                if v.list {
                    Err(TrieError::Malformed)
                } else if v.payload.len() == 0 {
                    Ok(None)
                } else {
                    Ok(Some(slice_to_vec(v.payload)))
                }
            } else if key[p] >= 16 {
                Err(TrieError::Malformed)
            } else {
                let it = &items[key[p] as usize];
                proof { assert(iv[key@[p as int] as int] == item_view(*it)); }
                match self.child(it) {
                    Err(e) => Err(e),
                    Ok(None) => Ok(None),
                    Ok(Some(child)) => self.get_at(child, key, p + 1),
                }
            }
        } else if items.len() == 2 {
            let first = &items[0];
            let second = &items[1];
            proof {
                assert(iv[0] == item_view(*first));
                assert(iv[1] == item_view(*second));
            }
            if first.list {
                return Err(TrieError::Malformed);
            }
            let (leaf, path) = match hp_path(first.payload) {
                Some(x) => x,
                None => return Err(TrieError::Malformed),
            };
            if leaf {
                if Self::path_at(key, p, &path) && path.len() == klen - p {
                    proof {
                        assert(key@.subrange(p as int, key@.len() as int) =~= path@);
                    }
                    if second.list {
                        Err(TrieError::Malformed)
                    } else {
                        Ok(Some(slice_to_vec(second.payload)))
                    }
                } else {
                    proof {
                        if key@.subrange(p as int, key@.len() as int) == path@ {
                            assert(key@.subrange(p as int, p + path@.len()) =~= path@);
                        }
                    }
                    Ok(None)
                }
            } else if path.len() == 0 {
                Err(TrieError::Malformed)
            } else if Self::path_at(key, p, &path) {
                match self.child(second) {
                    Err(e) => Err(e),
                    Ok(None) => Err(TrieError::Malformed),
                    Ok(Some(child)) => self.get_at(child, key, p + path.len()),
                }
            } else {
                Ok(None)
            }
        } else {
            Err(TrieError::Malformed)
        }
    }

    /// Whether `path` follows position `p` of `key`.
    fn path_at(key: &Vec<u8>, p: usize, path: &Vec<u8>) -> (r: bool)
        requires
            p <= key@.len(),
        ensures
            r == (p + path@.len() <= key@.len() && key@.subrange(p as int, p + path@.len())
                == path@),
    {
        let klen = key.len();
        if path.len() > klen - p {
            return false;
        }
        let mut i: usize = 0;
        while i < path.len()
            invariant
                i <= path@.len(),
                klen == key@.len(),
                p + path@.len() <= key@.len(),
                forall|j: int| 0 <= j < i ==> key@[p + j] == path@[j],
            decreases path@.len() - i,
        {
            if key[p + i] != path[i] {
                proof {
                    assert(key@.subrange(p as int, p + path@.len())[i as int] != path@[i as int]);
                }
                return false;
            }
            i = i + 1;
        }
        assert(key@.subrange(p as int, p + path@.len()) =~= path@);
        true
    }

    /// The value stored under `key` in the trie with root hash `root`.
    pub fn get_under(&self, root: &[u8; 32], key: &[u8]) -> (r: Result<Option<Vec<u8>>, TrieError>)
        ensures
            read_view(r) == trie_lookup(self.store(), root@, key@),
    {
        let path = nibbles(key);
        match find_entry(&self.nodes, root.as_slice()) {
            Some(i) => self.get_at(self.nodes[i].bytes.as_slice(), &path, 0),
            None => if hash_matches(root, EMPTY_ROOT.as_slice()) {
                Ok(None)
            } else {
                Err(TrieError::MissingNode)
            },
        }
    }

    /// The RLP-encoded account stored for `address` in the account trie.
    pub fn account(&self, address: &[u8; 20]) -> (r: Result<Option<Vec<u8>>, TrieError>)
        ensures
            read_view(r) == trie_lookup(self.store(), self.root_hash(), keccak_of(address@)),
    {
        let hashed = keccak256(address.as_slice());
        self.get_under(&self.root, &hashed)
    }

    /// The RLP-encoded value of storage slot `slot` in the storage trie with
    /// root `storage_root`; a slot on no path of the trie holds nothing.
    pub fn storage(&self, storage_root: &[u8; 32], slot: &[u8; 32]) -> (r: Result<Option<Vec<u8>>, TrieError>)
        ensures
            read_view(r) == trie_lookup(self.store(), storage_root@, keccak_of(slot@)),
    {
        let hashed = keccak256(slot.as_slice());
        self.get_under(storage_root, &hashed)
    }
}

} // verus!
