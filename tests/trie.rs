use host_executor::{TrieError, WitnessTrie};

fn keccak(bytes: &[u8]) -> [u8; 32] {
    alloy_primitives::keccak256(bytes).0
}

fn rlp_string(b: &[u8]) -> Vec<u8> {
    assert!(b.len() < 256);
    if b.len() == 1 && b[0] < 0x80 {
        return b.to_vec();
    }
    let mut out = if b.len() < 56 {
        vec![0x80 + b.len() as u8]
    } else {
        vec![0xb8, b.len() as u8]
    };
    out.extend_from_slice(b);
    out
}

fn rlp_list(items: &[Vec<u8>]) -> Vec<u8> {
    let payload: Vec<u8> = items.concat();
    let mut out = if payload.len() < 56 {
        vec![0xc0 + payload.len() as u8]
    } else {
        vec![0xf8, payload.len() as u8]
    };
    out.extend_from_slice(&payload);
    out
}

fn leaf(path_bytes: &[u8], odd_nibble: Option<u8>, value: &[u8]) -> Vec<u8> {
    let mut hp = match odd_nibble {
        Some(n) => vec![0x30 + n],
        None => vec![0x20],
    };
    hp.extend_from_slice(path_bytes);
    rlp_list(&[rlp_string(&hp), rlp_string(value)])
}

fn branch(children: &[(u8, [u8; 32])]) -> Vec<u8> {
    let mut items = vec![rlp_string(&[]); 17];
    for (n, h) in children {
        items[*n as usize] = rlp_string(h);
    }
    rlp_list(&items)
}

fn key_tail(key: &[u8; 32]) -> (u8, Vec<u8>) {
    // the nibbles after the first one, hex-prefix encoded as an odd path
    let mut nibbles = Vec::new();
    for b in key {
        nibbles.push(b >> 4);
        nibbles.push(b & 0x0f);
    }
    let rest = &nibbles[1..];
    let first = rest[0];
    let bytes: Vec<u8> = rest[1..].chunks(2).map(|c| (c[0] << 4) | c[1]).collect();
    (first, bytes)
}

#[test]
fn single_leaf_account_trie() {
    let address = [0x11u8; 20];
    let hashed = keccak(&address);
    let node = leaf(&hashed, None, b"account");
    let root = keccak(&node);
    let trie = WitnessTrie::new(&vec![node], root);
    assert_eq!(trie.account(&address), Ok(Some(b"account".to_vec())));
    assert_eq!(trie.account(&[0x22u8; 20]), Ok(None));
}

#[test]
fn branch_then_leaf_and_missing_node() {
    let address = [0x42u8; 20];
    let hashed = keccak(&address);
    let (odd, tail) = key_tail(&hashed);
    let leaf_node = leaf(&tail, Some(odd), b"value");
    let leaf_hash = keccak(&leaf_node);
    let first = hashed[0] >> 4;
    let root_node = branch(&[(first, leaf_hash)]);
    let root = keccak(&root_node);

    let full = WitnessTrie::new(&vec![root_node.clone(), leaf_node], root);
    assert_eq!(full.account(&address), Ok(Some(b"value".to_vec())));

    let partial = WitnessTrie::new(&vec![root_node], root);
    assert_eq!(partial.account(&address), Err(TrieError::MissingNode));
}

#[test]
fn empty_and_unknown_roots() {
    let empty_root = keccak(&[0x80]);
    let trie = WitnessTrie::new(&vec![], empty_root);
    assert_eq!(trie.account(&[1u8; 20]), Ok(None));
    assert_eq!(trie.storage(&empty_root, &[0u8; 32]), Ok(None));
    assert_eq!(trie.storage(&[9u8; 32], &[0u8; 32]), Err(TrieError::MissingNode));
}

#[test]
fn storage_slot_in_storage_trie() {
    let slot = [0u8; 32];
    let hashed = keccak(&slot);
    let node = leaf(&hashed, None, &[0x82, 0x01, 0x00]);
    let storage_root = keccak(&node);
    let trie = WitnessTrie::new(&vec![node], [0u8; 32]);
    assert_eq!(trie.storage(&storage_root, &slot), Ok(Some(vec![0x82, 0x01, 0x00])));
    let mut other = [0u8; 32];
    other[31] = 1;
    assert_eq!(trie.storage(&storage_root, &other), Ok(None));
}

#[test]
fn malformed_node_is_reported() {
    let node = vec![0xc2, 0x80, 0x80, 0x80];
    let root = keccak(&node);
    let trie = WitnessTrie::new(&vec![node], root);
    assert_eq!(trie.account(&[3u8; 20]), Err(TrieError::Malformed));
}

#[test]
fn storage_read_through_the_account() {
    let address = [0x55u8; 20];
    let slot = [0u8; 32];
    let storage_leaf = leaf(&keccak(&slot), None, &[0x2a]);
    let storage_root = keccak(&storage_leaf);
    let account = rlp_list(&[
        rlp_string(&[1]),
        rlp_string(&[0x03, 0xe8]),
        rlp_string(&storage_root),
        rlp_string(&keccak(&[])),
    ]);
    let account_leaf = leaf(&keccak(&address), None, &account);
    let state_root = keccak(&account_leaf);
    let db = host_executor::ExecutionWitnessRpcDb::new(
        &vec![account_leaf, storage_leaf],
        state_root,
        vec![],
        vec![],
    )
    .unwrap();
    let mut balance = [0u8; 32];
    balance[30] = 0x03;
    balance[31] = 0xe8;
    let info = db.basic_ref(&address).unwrap().unwrap();
    assert_eq!(info.nonce, 1);
    assert_eq!(info.balance, balance);
    assert_eq!(info.storage_root, storage_root);
    assert_eq!(info.code_hash, keccak(&[]));
    let mut word = [0u8; 32];
    word[31] = 0x2a;
    assert_eq!(db.storage_ref(&address, &slot), Ok(word));
    let mut other = [0u8; 32];
    other[0] = 1;
    assert_eq!(db.storage_ref(&address, &other), Ok([0u8; 32]));
    assert_eq!(db.storage_ref(&[0x66u8; 20], &slot), Ok([0u8; 32]));
    assert_eq!(db.basic_ref(&[0x66u8; 20]), Ok(None));
}

#[test]
fn undecodable_account_is_an_error() {
    let address = [0x77u8; 20];
    let account_leaf = leaf(&keccak(&address), None, &rlp_list(&[rlp_string(&[1])]));
    let state_root = keccak(&account_leaf);
    let db = host_executor::ExecutionWitnessRpcDb::new(&vec![account_leaf], state_root, vec![], vec![])
        .unwrap();
    assert_eq!(db.basic_ref(&address), Err(TrieError::Malformed));
    assert_eq!(db.storage_ref(&address, &[0u8; 32]), Err(TrieError::Malformed));
}
