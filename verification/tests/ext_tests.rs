use cid::multihash::Multihash;
use fvm::account_actor::{
    account_code_cid, empty_arr_cid, system_actor_addr, zero_state, SYSTEM_ACTOR_ID,
};
use fvm::address::Address;
use fvm::blockstore::ActorBlockstore;
use fvm::call_manager::{CallManager, EngineConfig, SendStep, METHOD_SEND};
use fvm::encoding::{decode_actor_state, encode_actor_state};
use fvm::error::ExitCode;
use fvm::ext::init::{ExecParams, ExecReturn, EXEC_METHOD};
use fvm::ext::miner::{
    ConfirmSectorProofsParams, MinerConstructorParams, CONFIRM_SECTOR_PROOFS_VALID_METHOD,
    ON_DEFERRED_CRON_EVENT_METHOD,
};
use fvm::ext::reward::UPDATE_NETWORK_KPI;
use fvm::gas::PriceList;
use fvm::ipld::{compute_cid, Cid, BLAKE2B_256, DAG_CBOR, IDENTITY_HASH, IPLD_RAW};
use fvm::state_tree::{ActorState, StateTree};
use multihash_codetable::{Code, MultihashDigest};
use serde_bytes::ByteBuf;

fn outside_cid(c: &Cid) -> cid::Cid {
    cid::Cid::new_v1(c.codec(), Multihash::<64>::wrap(c.hash_code(), c.digest()).unwrap())
}

fn bytes_of(a: &Address) -> ByteBuf {
    ByteBuf::from(a.to_bytes())
}

#[test]
fn method_numbers_are_fixed() {
    assert_eq!(EXEC_METHOD, 2);
    assert_eq!(CONFIRM_SECTOR_PROOFS_VALID_METHOD, 17);
    assert_eq!(ON_DEFERRED_CRON_EVENT_METHOD, 12);
    assert_eq!(UPDATE_NETWORK_KPI, 4);
    assert_eq!(METHOD_SEND, 0);
}

#[test]
fn exec_params_are_a_tuple_of_code_and_bytes() {
    let code = compute_cid(IPLD_RAW, BLAKE2B_256, b"actor code").unwrap();
    for params in [Vec::new(), vec![1u8, 2, 3], vec![0u8; 300]] {
        let exec = ExecParams { code_cid: code.clone(), constructor_params: params.clone() };
        let expected =
            serde_ipld_dagcbor::to_vec(&(outside_cid(&code), ByteBuf::from(params))).unwrap();
        assert_eq!(exec.encode(), expected);
    }
}

#[test]
fn exec_return_is_a_tuple_of_two_addresses() {
    let id = Address::new_id(1234);
    let robust = Address::new_actor(b"robust");
    let ret = ExecReturn { id_address: id.clone(), robust_address: robust.clone() };
    let expected = serde_ipld_dagcbor::to_vec(&(bytes_of(&id), bytes_of(&robust))).unwrap();
    assert_eq!(ret.encode(), expected);
}

#[test]
fn confirm_sector_proofs_params_are_a_tuple_of_one_list() {
    for sectors in [Vec::new(), vec![0u64], vec![1, 23, 24, 255, 256, 1 << 40, u64::MAX]] {
        let params = ConfirmSectorProofsParams { sectors: sectors.clone() };
        let expected = serde_ipld_dagcbor::to_vec(&(sectors,)).unwrap();
        assert_eq!(params.encode(), expected);
    }
}

#[test]
fn miner_constructor_params_are_a_tuple_of_six() {
    let owner = Address::new_id(1);
    let worker = Address::new_bls(&[5u8; 48]).unwrap();
    let control = vec![Address::new_id(7), Address::new_actor(b"c")];
    for proof_type in [0i64, 5, 23, 24, -1, -25, i64::MAX, i64::MIN] {
        let params = MinerConstructorParams {
            owner: owner.clone(),
            worker: worker.clone(),
            control_addresses: control.iter().map(|a| a.clone()).collect(),
            window_post_proof_type: proof_type,
            peer_id: vec![9, 9, 9],
            multi_addresses: vec![vec![1, 2], Vec::new()],
        };
        let expected = serde_ipld_dagcbor::to_vec(&(
            bytes_of(&owner),
            bytes_of(&worker),
            control.iter().map(bytes_of).collect::<Vec<_>>(),
            proof_type,
            ByteBuf::from(vec![9u8, 9, 9]),
            vec![ByteBuf::from(vec![1u8, 2]), ByteBuf::new()],
        ))
        .unwrap();
        assert_eq!(params.encode(), expected);
    }
}

#[test]
fn account_constants_are_as_the_network_has_them() {
    assert_eq!(SYSTEM_ACTOR_ID, 0);
    assert_eq!(system_actor_addr(), Address::new_id(0));
    let code = account_code_cid();
    assert_eq!(code.codec(), IPLD_RAW);
    assert_eq!(code.hash_code(), IDENTITY_HASH);
    assert_eq!(code.digest(), b"fil/5/account");
    let empty = empty_arr_cid().unwrap();
    // The identifier of the bytes that the codec gives for an empty array.
    let empty_bytes = serde_ipld_dagcbor::to_vec::<[(); 0]>(&[]).unwrap();
    assert_eq!(empty_bytes, vec![0x80]);
    assert_eq!(empty.codec(), DAG_CBOR);
    assert_eq!(empty.hash_code(), BLAKE2B_256);
    assert_eq!(empty.digest(), Code::Blake2b256.digest(&empty_bytes).digest());
    let zero = zero_state().unwrap();
    assert_eq!(zero, ActorState::new(code, empty, 0, 0));
    assert_eq!(decode_actor_state(&encode_actor_state(&zero)), Some(zero));
}

#[test]
fn standard_configuration_creates_accounts_in_the_zero_state() {
    let config = EngineConfig::standard(16, PriceList::free()).unwrap();
    assert_eq!(config.max_call_depth, 16);
    let mut tree = StateTree::new();
    let mut rich = zero_state().unwrap();
    rich.balance = 1_000;
    tree.set(10, rich);
    let mut cm = CallManager::new(config, tree, ActorBlockstore::new(), 1_000_000);
    match cm.send(10, 11, METHOD_SEND, Vec::new(), 1) {
        Ok(SendStep::Done(res)) => assert_eq!(res.exit_code, ExitCode::OK),
        other => panic!("expected a completed message, got {:?}", other),
    }
    let mut expected = zero_state().unwrap();
    expected.balance = 1;
    assert_eq!(cm.state().get(11), Some(expected));
}

#[test]
fn flush_names_the_state_by_its_content() {
    let mut store = ActorBlockstore::new();
    let mut first = StateTree::new();
    let mut second = StateTree::new();
    let a = ActorState::new(account_code_cid(), empty_arr_cid().unwrap(), 1, 10);
    let b = ActorState::new(account_code_cid(), empty_arr_cid().unwrap(), 0, 20);
    // The same records, set in another order and by another way.
    first.set(1, a.clone());
    first.set(2, b.clone());
    second.set(2, a.clone());
    second.set(1, a.clone());
    second.set(3, b.clone());
    second.set(2, b.clone());
    second.remove(3);
    let root = first.flush(&mut store).unwrap();
    assert_eq!(second.flush(&mut store).unwrap(), root);
    assert_eq!(root.codec(), DAG_CBOR);
    assert_eq!(root.hash_code(), BLAKE2B_256);

    // The root block links to the block of each record.
    let link_a = compute_cid(DAG_CBOR, BLAKE2B_256, &encode_actor_state(&a)).unwrap();
    let link_b = compute_cid(DAG_CBOR, BLAKE2B_256, &encode_actor_state(&b)).unwrap();
    assert_eq!(store.get(&link_a).unwrap(), Some(encode_actor_state(&a)));
    assert_eq!(store.get(&link_b).unwrap(), Some(encode_actor_state(&b)));
    let expected_root = serde_ipld_dagcbor::to_vec(&vec![
        (1u64, outside_cid(&link_a)),
        (2u64, outside_cid(&link_b)),
    ])
    .unwrap();
    assert_eq!(store.get(&root).unwrap(), Some(expected_root.clone()));
    assert_eq!(root.digest(), Code::Blake2b256.digest(&expected_root).digest());
    assert_eq!(store.len(), 3);

    // Any change of the state gives another root.
    second.set(2, a.clone());
    let other = second.flush(&mut store).unwrap();
    assert!(other != root);
    // Taking the change back gives the first root again.
    second.set(2, b);
    assert_eq!(second.flush(&mut store).unwrap(), root);
    // The empty state has a root of its own.
    let empty = StateTree::new().flush(&mut store).unwrap();
    assert_eq!(store.get(&empty).unwrap(), Some(vec![0x80]));
}

fn load_failure(store: &ActorBlockstore, root: &Cid) -> fvm::error::FatalCause {
    match StateTree::load(store, root) {
        Err(fvm::error::ExecutionError::Fatal(cause)) => cause,
        Err(other) => panic!("expected a fatal error, got {:?}", other),
        Ok(_) => panic!("expected a fatal error, got a tree"),
    }
}

fn put_block(store: &mut ActorBlockstore, bytes: Vec<u8>) -> Cid {
    store.put(BLAKE2B_256, &fvm::blockstore::Block::new(DAG_CBOR, bytes)).unwrap()
}

#[test]
fn load_gives_back_what_was_flushed() {
    let mut store = ActorBlockstore::new();
    let mut tree = StateTree::new();
    let code = account_code_cid();
    let state = empty_arr_cid().unwrap();
    for (id, sequence, balance) in
        [(7u64, 0u64, 0u128), (1, 5, 100), (u64::MAX, u64::MAX, u128::MAX), (300, 1, 1 << 90)]
    {
        tree.set(id, ActorState::new(code.clone(), state.clone(), sequence, balance));
    }
    let root = tree.flush(&mut store).unwrap();
    let loaded = match StateTree::load(&store, &root) {
        Ok(loaded) => loaded,
        Err(e) => panic!("load failed: {:?}", e),
    };
    assert_eq!(loaded.len(), 4);
    for id in [1u64, 7, 300, u64::MAX] {
        assert_eq!(loaded.get(id), tree.get(id));
    }
    assert_eq!(loaded.get(2), None);
    // What was loaded has the same root.
    assert_eq!(loaded.flush(&mut store).unwrap(), root);

    let empty_root = StateTree::new().flush(&mut store).unwrap();
    match StateTree::load(&store, &empty_root) {
        Ok(loaded) => assert_eq!(loaded.len(), 0),
        Err(e) => panic!("load failed: {:?}", e),
    }
}

#[test]
fn load_of_a_missing_or_broken_state_is_fatal() {
    let mut store = ActorBlockstore::new();
    let record = ActorState::new(account_code_cid(), empty_arr_cid().unwrap(), 3, 9);
    let record_link = put_block(&mut store, encode_actor_state(&record));
    let link = outside_cid(&record_link);

    // A root that was never written.
    let unknown = compute_cid(DAG_CBOR, BLAKE2B_256, b"nothing").unwrap();
    assert_eq!(load_failure(&store, &unknown), fvm::error::FatalCause::MissingBlock);

    // A root block that is no array of entries.
    let garbage = put_block(&mut store, vec![0xff, 0x00]);
    assert_eq!(load_failure(&store, &garbage), fvm::error::FatalCause::CorruptIdentifier);
    let not_entries = put_block(&mut store, serde_ipld_dagcbor::to_vec(&vec![1u64, 2]).unwrap());
    assert_eq!(load_failure(&store, &not_entries), fvm::error::FatalCause::CorruptIdentifier);

    // A good root.
    let good = put_block(&mut store, serde_ipld_dagcbor::to_vec(&vec![(4u64, link)]).unwrap());
    match StateTree::load(&store, &good) {
        Ok(loaded) => assert_eq!(loaded.get(4), Some(record.clone())),
        Err(e) => panic!("load failed: {:?}", e),
    }

    // The same with a byte after the array.
    let mut longer = serde_ipld_dagcbor::to_vec(&vec![(4u64, link)]).unwrap();
    longer.push(0);
    let longer = put_block(&mut store, longer);
    assert_eq!(load_failure(&store, &longer), fvm::error::FatalCause::CorruptIdentifier);

    // Identifiers that do not rise, or that come twice.
    let falling =
        put_block(&mut store, serde_ipld_dagcbor::to_vec(&vec![(4u64, link), (3, link)]).unwrap());
    assert_eq!(load_failure(&store, &falling), fvm::error::FatalCause::CorruptIdentifier);
    let twice =
        put_block(&mut store, serde_ipld_dagcbor::to_vec(&vec![(4u64, link), (4, link)]).unwrap());
    assert_eq!(load_failure(&store, &twice), fvm::error::FatalCause::CorruptIdentifier);

    // A link to a block that is not there.
    let absent = outside_cid(&compute_cid(DAG_CBOR, BLAKE2B_256, b"absent").unwrap());
    let dangling = put_block(
        &mut store,
        serde_ipld_dagcbor::to_vec(&vec![(4u64, link), (5, absent)]).unwrap(),
    );
    assert_eq!(load_failure(&store, &dangling), fvm::error::FatalCause::MissingBlock);

    // A link to a block that holds no record.
    let other = outside_cid(&garbage);
    let wrong = put_block(&mut store, serde_ipld_dagcbor::to_vec(&vec![(4u64, other)]).unwrap());
    assert_eq!(load_failure(&store, &wrong), fvm::error::FatalCause::CorruptIdentifier);
}
