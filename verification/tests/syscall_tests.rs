use fvm::blockstore::ActorBlockstore;
use fvm::call_manager::{CallManager, EngineConfig, SendStep, Trap};
use fvm::error::{ExitCode, FatalCause};
use fvm::gas::PriceList;
use fvm::ipld::{Cid, DAG_CBOR, IDENTITY_HASH, IPLD_RAW};
use fvm::state_tree::{ActorState, StateTree};
use bls_signatures::Serialize;
use fvm::address::{Address, AddressError};
use rand::SeedableRng;
use fvm::encoding::cid_to_bytes;
use fvm::syscalls::vm::{abort, exit_code_for_abort, message_for_abort};
use fvm::syscalls::{
    crypto, join_token_amount, message, or_trap, split_token_amount, sself, try_slice, try_write,
};

fn engine() -> CallManager {
    let code = Cid::new_v1(IPLD_RAW, IDENTITY_HASH, b"fil/5/account".to_vec());
    let state = Cid::new_v1(DAG_CBOR, IDENTITY_HASH, vec![0x80]);
    let mut tree = StateTree::new();
    tree.set(1, ActorState::new(code.clone(), state.clone(), 0, 100));
    tree.set(2, ActorState::new(code.clone(), state.clone(), 0, 0));
    let config = EngineConfig {
        max_call_depth: 4,
        price_list: PriceList::free(),
        account_code: code,
        empty_state: state,
    };
    CallManager::new(config, tree, ActorBlockstore::new(), 1_000)
}

fn running() -> CallManager {
    let mut cm = engine();
    match cm.send(1, 2, 5, Vec::new(), 10) {
        Ok(SendStep::Invoke(_)) => {}
        other => panic!("expected an invocation, got {:?}", other),
    }
    cm
}

#[test]
fn abort_keeps_the_code_of_an_actor_and_replaces_any_other() {
    assert_eq!(exit_code_for_abort(16), ExitCode::ErrIllegalArgument);
    assert_eq!(exit_code_for_abort(21), ExitCode::ErrSerialization);
    assert_eq!(exit_code_for_abort(32), ExitCode::ErrTooManyProveCommits);
    assert_eq!(exit_code_for_abort(1000), ExitCode::ErrPlaceholder);
    // The codes of the system, success among them, and unknown codes.
    for code in [0u32, 1, 7, 10, 15, 22, 31, 33, 999, 1001, u32::MAX] {
        assert_eq!(exit_code_for_abort(code), ExitCode::SysErrIllegalArgument);
    }
}

#[test]
fn exit_codes_have_their_numbers() {
    for value in 0u32..1100 {
        match ExitCode::from_u32(value) {
            Some(code) => {
                assert_eq!(code.value(), value);
                assert_eq!(code.is_system_error(), value < 16);
                assert_eq!(code.is_success(), value == 0);
            }
            None => assert!(value > 21 && value != 32 && value != 1000),
        }
    }
    assert_eq!(ExitCode::from_u32(0), Some(ExitCode::OK));
    assert_eq!(ExitCode::from_u32(7), Some(ExitCode::SysErrOutOfGas));
    assert_eq!(ExitCode::from_u32(21), Some(ExitCode::ErrSerialization));
}

#[test]
fn abort_message_is_read_from_memory() {
    let memory = b"..out of luck..".to_vec();
    assert_eq!(message_for_abort(&memory, 2, 11), "out of luck");
    assert_eq!(message_for_abort(&memory, 0, 0), "actor aborted");
    assert_eq!(message_for_abort(&memory, 400, 0), "actor aborted");
    assert_eq!(
        message_for_abort(&memory, 10, 6),
        "actor aborted with an invalid message: buffer out of bounds (code=SysErrIllegalArgument)"
    );
    assert_eq!(
        message_for_abort(&memory, u32::MAX, u32::MAX),
        "actor aborted with an invalid message: buffer out of bounds (code=SysErrIllegalArgument)"
    );
    let bad = vec![b'a', 0xff, b'b'];
    assert_eq!(
        message_for_abort(&bad, 0, 3),
        "actor aborted with an invalid message: error message was not utf8 \
         (code=SysErrIllegalArgument)"
    );
    let text = "gr\u{fc}\u{df}e".as_bytes().to_vec();
    assert_eq!(message_for_abort(&text, 0, text.len() as u32), "gr\u{fc}\u{df}e");
}

#[test]
fn abort_ends_the_invocation_and_undoes_it() {
    let mut cm = running();
    assert_eq!(cm.state().balance_of(2), Some(10));
    let memory = b"no way".to_vec();
    match abort(&mut cm, &memory, 19, 0, 6) {
        Err(Trap::Exit(res)) => {
            assert_eq!(res.exit_code, ExitCode::ErrInsufficientFunds);
            assert!(res.return_data.is_empty());
        }
        other => panic!("expected a trap, got {:?}", other),
    }
    assert_eq!(cm.depth(), 0);
    assert_eq!(cm.state().balance_of(1), Some(100));
    assert_eq!(cm.state().balance_of(2), Some(0));
    let log = cm.actor_errors();
    assert_eq!(log.len(), 1);
    assert_eq!(log[0].exit_code(), ExitCode::ErrInsufficientFunds);
    assert_eq!(log[0].msg(), "no way");
    assert!(!cm.is_aborted());
}

#[test]
fn abort_with_a_system_code_becomes_an_illegal_argument() {
    let mut cm = running();
    match abort(&mut cm, &[], 0, 0, 0) {
        Err(Trap::Exit(res)) => assert_eq!(res.exit_code, ExitCode::SysErrIllegalArgument),
        other => panic!("expected a trap, got {:?}", other),
    }
    assert_eq!(cm.actor_errors()[0].msg(), "actor aborted");
    assert_eq!(cm.state().balance_of(2), Some(0));
}

#[test]
fn abort_with_an_unreadable_message_still_aborts_with_the_code() {
    let mut cm = running();
    match abort(&mut cm, &[1, 2, 3], 17, 2, 5) {
        Err(Trap::Exit(res)) => assert_eq!(res.exit_code, ExitCode::ErrNotFound),
        other => panic!("expected a trap, got {:?}", other),
    }
    assert_eq!(cm.actor_errors()[0].exit_code(), ExitCode::ErrNotFound);
    assert_eq!(
        cm.actor_errors()[0].msg(),
        "actor aborted with an invalid message: buffer out of bounds (code=SysErrIllegalArgument)"
    );
}

#[test]
fn abort_without_an_invocation_is_fatal() {
    let mut cm = engine();
    match abort(&mut cm, &[], 16, 0, 0) {
        Err(Trap::Fatal(cause)) => assert_eq!(cause, FatalCause::NoActiveInvocation),
        other => panic!("expected a fatal trap, got {:?}", other),
    }
    assert!(cm.is_aborted());
}

#[test]
fn or_trap_hands_on_a_result_and_ends_the_invocation_on_a_failure() {
    let mut cm = running();
    let outcome = cm.receiver();
    assert_eq!(or_trap(&mut cm, outcome).unwrap(), 2);
    assert_eq!(cm.depth(), 1);
    let outcome = cm.self_destruct(2);
    match or_trap(&mut cm, outcome) {
        Err(Trap::Exit(res)) => assert_eq!(res.exit_code, ExitCode::SysErrIllegalArgument),
        other => panic!("expected a trap, got {:?}", other),
    }
    assert_eq!(cm.depth(), 0);
    assert_eq!(cm.state().balance_of(1), Some(100));
}

#[test]
fn memory_ranges_are_checked() {
    let memory = [10u8, 11, 12, 13, 14];
    assert_eq!(try_slice(&memory, 1, 3).unwrap(), &[11, 12, 13]);
    assert_eq!(try_slice(&memory, 0, 5).unwrap(), &memory);
    assert_eq!(try_slice(&memory, 5, 0).unwrap(), &[] as &[u8]);
    assert!(try_slice(&memory, 5, 1).is_err());
    assert!(try_slice(&memory, 6, 0).is_err());
    assert!(try_slice(&memory, 2, 4).is_err());
    assert!(try_slice(&memory, u32::MAX, 2).is_err());
    assert!(try_slice(&memory, 2, u32::MAX).is_err());

    let mut memory = [0u8; 6];
    try_write(&mut memory, 2, &[7, 8, 9]).unwrap();
    assert_eq!(memory, [0, 0, 7, 8, 9, 0]);
    try_write(&mut memory, 6, &[]).unwrap();
    assert!(try_write(&mut memory, 4, &[1, 2, 3]).is_err());
    assert!(try_write(&mut memory, 7, &[]).is_err());
    assert_eq!(memory, [0, 0, 7, 8, 9, 0]);
}

#[test]
fn token_amounts_cross_the_boundary_in_two_halves() {
    assert_eq!(split_token_amount(0), (0, 0));
    assert_eq!(split_token_amount(5), (5, 0));
    assert_eq!(split_token_amount(1 << 64), (0, 1));
    assert_eq!(split_token_amount((7 << 64) | 9), (9, 7));
    assert_eq!(split_token_amount(u128::MAX), (u64::MAX, u64::MAX));
    assert_eq!(join_token_amount(9, 7), (7 << 64) | 9);
    assert_eq!(join_token_amount(u64::MAX, 0), u64::MAX as u128);
    for amount in [0u128, 1, u64::MAX as u128, 1 << 64, u128::MAX, 12345678901234567890123] {
        let (lo, hi) = split_token_amount(amount);
        assert_eq!(join_token_amount(lo, hi), amount);
    }
}

#[test]
fn message_calls_tell_about_the_message() {
    let mut cm = running();
    assert_eq!(message::caller(&mut cm).unwrap(), 1);
    assert_eq!(message::receiver(&mut cm).unwrap(), 2);
    assert_eq!(message::method_number(&mut cm).unwrap(), 5);
    assert_eq!(message::value_received(&mut cm).unwrap(), (10, 0));
    assert_eq!(sself::current_balance(&mut cm).unwrap(), (10, 0));
    // Without an invocation every call is a fatal trap.
    let mut idle = engine();
    match message::caller(&mut idle) {
        Err(Trap::Fatal(cause)) => assert_eq!(cause, FatalCause::NoActiveInvocation),
        other => panic!("expected a fatal trap, got {:?}", other),
    }
    assert!(idle.is_aborted());
}

#[test]
fn get_root_writes_the_identifier_or_tells_the_length_it_needs() {
    let mut cm = running();
    let root = cm.get_root().unwrap();
    let bytes = cid_to_bytes(&root);
    assert_eq!(bytes, vec![0x01, 0x71, 0x00, 0x01, 0x80]);
    let mut memory = vec![0xaau8; 16];
    // A buffer that is too small: nothing is written, the length comes back.
    assert_eq!(sself::get_root(&mut cm, &mut memory, 3, 4).unwrap(), 5);
    assert_eq!(memory, vec![0xaau8; 16]);
    assert_eq!(cm.depth(), 1);
    // A buffer that fits.
    assert_eq!(sself::get_root(&mut cm, &mut memory, 3, 5).unwrap(), 5);
    assert_eq!(&memory[3..8], &bytes[..]);
    assert_eq!(&memory[..3], &[0xaa; 3]);
    assert_eq!(&memory[8..], &[0xaa; 8]);
    // A buffer outside the memory is an illegal argument and ends the invocation.
    match sself::get_root(&mut cm, &mut memory, 14, 64) {
        Err(Trap::Exit(res)) => assert_eq!(res.exit_code, ExitCode::SysErrIllegalArgument),
        other => panic!("expected a trap, got {:?}", other),
    }
    assert_eq!(cm.depth(), 0);
}

#[test]
fn set_root_reads_the_identifier_from_memory() {
    let mut cm = running();
    let root = cm.block_put(DAG_CBOR, b"new state").unwrap();
    let mut memory = vec![0u8; 4];
    memory.extend_from_slice(&cid_to_bytes(&root));
    let len = (memory.len() - 4) as u32;
    sself::set_root(&mut cm, &memory, 4, len).unwrap();
    assert_eq!(cm.get_root().unwrap(), root);
    // Bytes that are no identifier.
    match sself::set_root(&mut cm, &memory, 0, 4) {
        Err(Trap::Exit(res)) => assert_eq!(res.exit_code, ExitCode::SysErrIllegalArgument),
        other => panic!("expected a trap, got {:?}", other),
    }
    // The invocation is undone, and its new root with it.
    assert_eq!(cm.depth(), 0);
    assert_eq!(cm.state().get(2).unwrap().state, Cid::new_v1(DAG_CBOR, IDENTITY_HASH, vec![0x80]));
}

#[test]
fn set_root_refuses_a_range_outside_the_memory() {
    let mut cm = running();
    match sself::set_root(&mut cm, &[1, 2, 3], 2, 2) {
        Err(Trap::Exit(res)) => assert_eq!(res.exit_code, ExitCode::SysErrIllegalArgument),
        other => panic!("expected a trap, got {:?}", other),
    }
}

#[test]
fn self_destruct_reads_the_beneficiary_from_memory() {
    let mut cm = running();
    let memory = Address::new_id(1).to_bytes();
    assert_eq!(memory, vec![0, 1]);
    sself::self_destruct(&mut cm, &memory, 0, 2).unwrap();
    assert_eq!(cm.state().balance_of(1), Some(100));
    assert_eq!(cm.state().balance_of(2), Some(0));
    cm.finish(ExitCode::OK, Vec::new()).unwrap();
    assert!(!cm.state().contains(2));

    // The actor's own address is an illegal argument.
    let mut cm = running();
    let own = Address::new_id(2).to_bytes();
    match sself::self_destruct(&mut cm, &own, 0, own.len() as u32) {
        Err(Trap::Exit(res)) => assert_eq!(res.exit_code, ExitCode::SysErrIllegalArgument),
        other => panic!("expected a trap, got {:?}", other),
    }
    assert_eq!(cm.state().balance_of(2), Some(0));
    assert_eq!(cm.state().balance_of(1), Some(100));

    // An address that is no identifier address.
    let mut cm = running();
    let key = Address::new_bls(&[9u8; 48]).unwrap().to_bytes();
    match sself::self_destruct(&mut cm, &key, 0, key.len() as u32) {
        Err(Trap::Exit(res)) => assert_eq!(res.exit_code, ExitCode::SysErrIllegalArgument),
        other => panic!("expected a trap, got {:?}", other),
    }
}

#[test]
fn hash_call_writes_the_digest() {
    let mut cm = running();
    let mut memory = vec![0u8; 64];
    memory[..5].copy_from_slice(b"hello");
    crypto::hash_blake2b(&mut cm, &mut memory, 0, 5, 32).unwrap();
    assert_eq!(&memory[32..], &fvm::address::blake2b_256(b"hello")[..]);
    assert_eq!(&memory[..5], b"hello");
    // The digest does not fit.
    let before = memory.clone();
    match crypto::hash_blake2b(&mut cm, &mut memory, 0, 5, 33) {
        Err(Trap::Exit(res)) => assert_eq!(res.exit_code, ExitCode::SysErrIllegalArgument),
        other => panic!("expected a trap, got {:?}", other),
    }
    assert_eq!(memory, before);
}

#[test]
fn verify_signature_call_reads_its_arguments_from_memory() {
    let rng = &mut rand_chacha::ChaCha8Rng::seed_from_u64(21);
    let key = bls_signatures::PrivateKey::generate(rng);
    let plaintext = b"signed text";
    let mut sig = vec![2u8];
    sig.extend_from_slice(&key.sign(plaintext).as_bytes());
    let signer = Address::new_bls(&key.public_key().as_bytes()).unwrap().to_bytes();
    let mut memory = Vec::new();
    memory.extend_from_slice(&sig);
    memory.extend_from_slice(&signer);
    memory.extend_from_slice(plaintext);
    let (s_len, a_len, p_len) = (sig.len() as u32, signer.len() as u32, plaintext.len() as u32);

    let mut cm = running();
    let ok = crypto::verify_signature(&mut cm, &memory, 0, s_len, s_len, a_len, s_len + a_len, p_len);
    assert_eq!(ok.unwrap(), true);
    // One byte less of the plaintext: the signature does not verify, which is no failure.
    let ok =
        crypto::verify_signature(&mut cm, &memory, 0, s_len, s_len, a_len, s_len + a_len, p_len - 1);
    assert_eq!(ok.unwrap(), false);
    assert_eq!(cm.depth(), 1);
    // An unknown scheme is an illegal argument.
    memory[0] = 9;
    match crypto::verify_signature(&mut cm, &memory, 0, s_len, s_len, a_len, s_len + a_len, p_len) {
        Err(Trap::Exit(res)) => assert_eq!(res.exit_code, ExitCode::SysErrIllegalArgument),
        other => panic!("expected a trap, got {:?}", other),
    }
}

#[test]
fn address_bytes_round_trip() {
    let addresses = vec![
        Address::new_id(0),
        Address::new_id(127),
        Address::new_id(128),
        Address::new_id(u64::MAX),
        Address::new_bls(&[3u8; 48]).unwrap(),
        Address::new_secp256k1(&[4u8; 65]).unwrap(),
        Address::new_actor(b"some actor"),
    ];
    for a in &addresses {
        let bytes = a.to_bytes();
        assert_eq!(&Address::from_bytes(&bytes).unwrap(), a);
    }
    assert_eq!(Address::new_id(300).to_bytes(), vec![0, 0xac, 0x02]);
    assert_eq!(Address::new_bls(&[3u8; 48]).unwrap().to_bytes().len(), 49);
    assert_eq!(Address::new_actor(b"x").to_bytes()[0], 2);
    assert_eq!(Address::new_secp256k1(&[4u8; 65]).unwrap().to_bytes().len(), 21);
    assert_eq!(Address::from_bytes(&[]).unwrap_err(), AddressError::UnknownProtocol);
    assert_eq!(Address::from_bytes(&[4, 1]).unwrap_err(), AddressError::UnknownProtocol);
    assert_eq!(Address::from_bytes(&[0]).unwrap_err(), AddressError::InvalidPayload);
    assert_eq!(Address::from_bytes(&[0, 0x80, 0x00]).unwrap_err(), AddressError::InvalidPayload);
    assert_eq!(Address::from_bytes(&[0, 1, 1]).unwrap_err(), AddressError::InvalidPayload);
    assert_eq!(Address::from_bytes(&[1, 1, 2]).unwrap_err(), AddressError::InvalidPayload);
    assert_eq!(Address::from_bytes(&[3; 48]).unwrap_err(), AddressError::InvalidPayload);
}

#[test]
fn params_call_writes_the_parameters_or_tells_the_length_it_needs() {
    let mut cm = engine();
    match cm.send(1, 2, 5, vec![7, 8, 9], 0) {
        Ok(SendStep::Invoke(inv)) => assert_eq!(inv.params, vec![7, 8, 9]),
        other => panic!("expected an invocation, got {:?}", other),
    }
    assert_eq!(cm.current_frame().unwrap().params, vec![7, 8, 9]);
    assert_eq!(cm.params_raw().unwrap(), (DAG_CBOR, vec![7, 8, 9]));
    let mut memory = vec![0u8; 8];
    assert_eq!(message::params_raw(&mut cm, &mut memory, 0, 2).unwrap(), (DAG_CBOR, 3));
    assert_eq!(memory, vec![0u8; 8]);
    assert_eq!(message::params_raw(&mut cm, &mut memory, 4, 3).unwrap(), (DAG_CBOR, 3));
    assert_eq!(memory, vec![0, 0, 0, 0, 7, 8, 9, 0]);
    match message::params_raw(&mut cm, &mut memory, 6, 3) {
        Err(Trap::Exit(res)) => assert_eq!(res.exit_code, ExitCode::SysErrIllegalArgument),
        other => panic!("expected a trap, got {:?}", other),
    }
    assert_eq!(cm.depth(), 0);
}
