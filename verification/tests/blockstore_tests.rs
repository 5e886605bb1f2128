use fvm::blockstore::{ActorBlockstore, Block};
use fvm::error::ExitCode;
use fvm::ipld::{compute_cid, Cid, BLAKE2B_256, DAG_CBOR, IDENTITY_HASH, IPLD_RAW, SHA2_256};
use multihash_codetable::{Code, MultihashDigest};

#[test]
fn put_names_a_block_by_its_hash() {
    let mut store = ActorBlockstore::new();
    let block = Block::new(DAG_CBOR, b"hello".to_vec());
    let cid = store.put(BLAKE2B_256, &block).unwrap();
    assert_eq!(cid.codec(), DAG_CBOR);
    assert_eq!(cid.hash_code(), BLAKE2B_256);
    assert_eq!(cid.digest(), Code::Blake2b256.digest(b"hello").digest());
    assert_eq!(cid.digest().len(), 32);
    assert_eq!(store.get(&cid).unwrap(), Some(b"hello".to_vec()));
    assert!(store.has(&cid));
    assert_eq!(store.len(), 1);
    // The same content has the same name, and is held once.
    let again = store.put(BLAKE2B_256, &Block::new(DAG_CBOR, b"hello".to_vec())).unwrap();
    assert_eq!(again, cid);
    assert_eq!(store.len(), 1);
    // Another codec or another hash function gives another name.
    let raw = store.put(BLAKE2B_256, &Block::new(IPLD_RAW, b"hello".to_vec())).unwrap();
    let sha = store.put(SHA2_256, &Block::new(DAG_CBOR, b"hello".to_vec())).unwrap();
    assert!(raw != cid);
    assert!(sha != cid);
    assert_eq!(sha.digest(), Code::Sha2_256.digest(b"hello").digest());
    assert_eq!(store.len(), 3);
}

#[test]
fn get_of_an_unknown_block_gives_nothing() {
    let store = ActorBlockstore::new();
    let cid = compute_cid(DAG_CBOR, BLAKE2B_256, b"missing").unwrap();
    assert_eq!(store.get(&cid).unwrap(), None);
    assert!(!store.has(&cid));
    assert_eq!(store.len(), 0);
}

#[test]
fn put_keyed_accepts_the_identifier_of_the_block() {
    let mut store = ActorBlockstore::new();
    let cid = compute_cid(DAG_CBOR, BLAKE2B_256, b"content").unwrap();
    assert!(store.put_keyed(&cid, b"content").is_ok());
    assert_eq!(store.get(&cid).unwrap(), Some(b"content".to_vec()));
    let sha = compute_cid(IPLD_RAW, SHA2_256, b"content").unwrap();
    assert!(store.put_keyed(&sha, b"content").is_ok());
    assert_eq!(store.len(), 2);
}

#[test]
fn put_keyed_refuses_a_mismatched_identifier() {
    let mut store = ActorBlockstore::new();
    let cid = compute_cid(DAG_CBOR, BLAKE2B_256, b"content").unwrap();
    let err = store.put_keyed(&cid, b"other content").unwrap_err();
    assert_eq!(err.exit_code(), ExitCode::ErrSerialization);
    // Nothing is stored under the identifier that was claimed.
    assert_eq!(store.get(&cid).unwrap(), None);
    // The block is held under the identifier that it has.
    let actual = compute_cid(DAG_CBOR, BLAKE2B_256, b"other content").unwrap();
    assert_eq!(store.get(&actual).unwrap(), Some(b"other content".to_vec()));

    // The right digest under another codec is another identifier.
    let mut store = ActorBlockstore::new();
    let wrong_digest = Cid::new_v1(DAG_CBOR, BLAKE2B_256, vec![0u8; 32]);
    let err = store.put_keyed(&wrong_digest, b"content").unwrap_err();
    assert_eq!(err.exit_code(), ExitCode::ErrSerialization);
    let truncated = Cid::new_v1(DAG_CBOR, BLAKE2B_256, cid.digest()[..31].to_vec());
    assert!(store.put_keyed(&truncated, b"content").is_err());
}

#[test]
fn put_keyed_refuses_a_hash_function_that_is_not_supported() {
    let mut store = ActorBlockstore::new();
    let identity = Cid::new_v1(IPLD_RAW, IDENTITY_HASH, b"content".to_vec());
    let err = store.put_keyed(&identity, b"content").unwrap_err();
    assert_eq!(err.exit_code(), ExitCode::ErrSerialization);
    assert_eq!(store.len(), 0);
    let unknown = Cid::new_v1(IPLD_RAW, 0x9999, vec![1, 2, 3]);
    assert!(store.put_keyed(&unknown, b"content").is_err());
    let err = store.put(0x9999, &Block::new(IPLD_RAW, b"content".to_vec())).unwrap_err();
    assert_eq!(err.exit_code(), ExitCode::ErrSerialization);
    assert_eq!(store.len(), 0);
    assert!(compute_cid(IPLD_RAW, 0x9999, b"content").is_none());
}
