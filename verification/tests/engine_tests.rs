use fvm::blockstore::ActorBlockstore;
use fvm::call_manager::{CallManager, EngineConfig, SendStep, Trap, METHOD_SEND};
use fvm::error::{ExecutionError, ExitCode, FatalCause};
use fvm::gas::{GasTracker, PriceList};
use fvm::ipld::{Cid, BLAKE2B_256, DAG_CBOR, IDENTITY_HASH, IPLD_RAW};
use fvm::state_tree::{ActorState, StateTree};

const A: u64 = 100;
const B: u64 = 101;
const C: u64 = 102;

fn account_code() -> Cid {
    Cid::new_v1(IPLD_RAW, IDENTITY_HASH, b"fil/5/account".to_vec())
}

fn empty_state() -> Cid {
    Cid::new_v1(DAG_CBOR, IDENTITY_HASH, vec![0x80])
}

fn actor(balance: u128) -> ActorState {
    ActorState::new(account_code(), empty_state(), 0, balance)
}

fn config(max_call_depth: u32, price_list: PriceList) -> EngineConfig {
    EngineConfig {
        max_call_depth,
        price_list,
        account_code: account_code(),
        empty_state: empty_state(),
    }
}

fn tree(actors: &[(u64, u128)]) -> StateTree {
    let mut t = StateTree::new();
    for (id, balance) in actors {
        t.set(*id, actor(*balance));
    }
    t
}

fn engine(actors: &[(u64, u128)], depth: u32, prices: PriceList, gas: u64) -> CallManager {
    CallManager::new(config(depth, prices), tree(actors), ActorBlockstore::new(), gas)
}

fn balance(cm: &CallManager, id: u64) -> Option<u128> {
    cm.state().balance_of(id)
}

fn expect_invoke(step: Result<SendStep, ExecutionError>) {
    match step {
        Ok(SendStep::Invoke(_)) => {}
        other => panic!("expected an invocation, got {:?}", other),
    }
}

fn expect_done(step: Result<SendStep, ExecutionError>) -> (ExitCode, u64) {
    match step {
        Ok(SendStep::Done(res)) => (res.exit_code, res.gas_used),
        other => panic!("expected a completed message, got {:?}", other),
    }
}

#[test]
fn transfer_to_a_missing_actor_creates_an_account() {
    let mut cm = engine(&[(A, 100)], 8, PriceList::free(), 1_000);
    let (code, _) = expect_done(cm.send(A, B, METHOD_SEND, Vec::new(), 30));
    assert_eq!(code, ExitCode::OK);
    assert_eq!(balance(&cm, A), Some(70));
    assert_eq!(balance(&cm, B), Some(30));
    let created = cm.state().get(B).unwrap();
    assert_eq!(created, ActorState::new(account_code(), empty_state(), 0, 30));
    assert_eq!(cm.depth(), 0);
    assert!(!cm.is_aborted());
}

#[test]
fn message_without_value_to_a_missing_actor_is_refused() {
    let mut cm = engine(&[(A, 100)], 8, PriceList::free(), 1_000);
    let (code, _) = expect_done(cm.send(A, B, METHOD_SEND, Vec::new(), 0));
    assert_eq!(code, ExitCode::SysErrInvalidReceiver);
    assert_eq!(balance(&cm, B), None);
    assert_eq!(balance(&cm, A), Some(100));
}

#[test]
fn message_with_more_value_than_the_sender_has_is_refused() {
    let mut cm = engine(&[(A, 100), (B, 1)], 8, PriceList::free(), 1_000);
    let (code, _) = expect_done(cm.send(A, B, 2, Vec::new(), 101));
    assert_eq!(code, ExitCode::SysErrInsufficientFunds);
    assert_eq!(balance(&cm, A), Some(100));
    assert_eq!(balance(&cm, B), Some(1));
    assert_eq!(cm.depth(), 0);
    // The whole balance can be sent.
    let (code, _) = expect_done(cm.send(A, B, METHOD_SEND, Vec::new(), 100));
    assert_eq!(code, ExitCode::OK);
    assert_eq!(balance(&cm, A), Some(0));
    assert_eq!(balance(&cm, B), Some(101));
}

#[test]
fn message_from_a_missing_sender_is_refused() {
    let mut cm = engine(&[(B, 1)], 8, PriceList::free(), 1_000);
    let (code, _) = expect_done(cm.send(A, B, METHOD_SEND, Vec::new(), 0));
    assert_eq!(code, ExitCode::SysErrSenderInvalid);
}

#[test]
fn invocation_hands_out_the_code_of_the_receiver() {
    let mut t = tree(&[(A, 10)]);
    let special = Cid::new_v1(IPLD_RAW, IDENTITY_HASH, b"special".to_vec());
    t.set(B, ActorState::new(special.clone(), empty_state(), 3, 0));
    let mut cm =
        CallManager::new(config(8, PriceList::free()), t, ActorBlockstore::new(), 1_000);
    match cm.send(A, B, 7, vec![1, 2, 3], 4) {
        Ok(SendStep::Invoke(inv)) => {
            assert_eq!(inv.code, special);
            assert_eq!(inv.caller, A);
            assert_eq!(inv.receiver, B);
            assert_eq!(inv.method, 7);
            assert_eq!(inv.params, vec![1, 2, 3]);
            assert_eq!(inv.value, 4);
        }
        other => panic!("expected an invocation, got {:?}", other),
    }
    assert_eq!(cm.depth(), 1);
    assert_eq!(cm.caller().unwrap(), A);
    assert_eq!(cm.receiver().unwrap(), B);
    assert_eq!(cm.method_number().unwrap(), 7);
    assert_eq!(cm.value_received().unwrap(), 4);
    assert_eq!(cm.current_balance().unwrap(), 4);
    assert_eq!(cm.get_root().unwrap(), empty_state());
    let res = cm.finish(ExitCode::OK, vec![9]).unwrap();
    assert_eq!(res.exit_code, ExitCode::OK);
    assert_eq!(res.return_data, vec![9]);
    assert_eq!(cm.depth(), 0);
    assert_eq!(balance(&cm, A), Some(6));
    assert_eq!(balance(&cm, B), Some(4));
}

#[test]
fn self_destruct_to_self_is_an_illegal_argument_and_the_parent_goes_on() {
    let mut cm = engine(&[(A, 50), (B, 20), (C, 5)], 8, PriceList::free(), 1_000);
    // C runs method 1 of B, which runs method 2 of A.
    expect_invoke(cm.send(C, B, 1, Vec::new(), 0));
    expect_invoke(cm.call(A, 2, Vec::new(), 7));
    assert_eq!(cm.depth(), 2);
    assert_eq!(balance(&cm, A), Some(57));
    let err = cm.self_destruct(A).unwrap_err();
    match &err {
        ExecutionError::Syscall(e) => assert_eq!(e.exit_code(), ExitCode::SysErrIllegalArgument),
        other => panic!("expected a recoverable error, got {:?}", other),
    }
    assert!(!err.is_fatal());
    // No balance has changed through the refused operation.
    assert_eq!(balance(&cm, A), Some(57));
    assert_eq!(balance(&cm, B), Some(13));
    match cm.fail(err) {
        Trap::Exit(res) => assert_eq!(res.exit_code, ExitCode::SysErrIllegalArgument),
        other => panic!("expected the invocation to end, got {:?}", other),
    }
    // The invocation of A is undone, with the transfer that came with it.
    assert_eq!(cm.depth(), 1);
    assert_eq!(balance(&cm, A), Some(50));
    assert_eq!(balance(&cm, B), Some(20));
    // B goes on and ends well.
    assert_eq!(cm.receiver().unwrap(), B);
    let res = cm.finish(ExitCode::OK, Vec::new()).unwrap();
    assert_eq!(res.exit_code, ExitCode::OK);
    assert_eq!(cm.depth(), 0);
    assert!(!cm.is_aborted());
    assert!(cm.state().contains(A));
}

#[test]
fn self_destruct_moves_the_balance_and_removes_the_actor_on_commit() {
    let mut cm = engine(&[(A, 50), (B, 20)], 8, PriceList::free(), 1_000);
    expect_invoke(cm.send(B, A, 1, Vec::new(), 5));
    cm.self_destruct(B).unwrap();
    assert_eq!(balance(&cm, A), Some(0));
    assert_eq!(balance(&cm, B), Some(70));
    // The record stays until the invocation is committed.
    assert!(cm.state().contains(A));
    cm.finish(ExitCode::OK, Vec::new()).unwrap();
    assert!(!cm.state().contains(A));
    assert_eq!(balance(&cm, B), Some(70));
}

#[test]
fn self_destruct_is_undone_when_the_invocation_fails() {
    let mut cm = engine(&[(A, 50), (B, 20)], 8, PriceList::free(), 1_000);
    expect_invoke(cm.send(B, A, 1, Vec::new(), 5));
    cm.self_destruct(B).unwrap();
    cm.finish(ExitCode::ErrIllegalState, Vec::new()).unwrap();
    assert_eq!(balance(&cm, A), Some(50));
    assert_eq!(balance(&cm, B), Some(20));
}

#[test]
fn self_destruct_to_a_missing_beneficiary_is_refused() {
    let mut cm = engine(&[(A, 50), (B, 20)], 8, PriceList::free(), 1_000);
    expect_invoke(cm.send(B, A, 1, Vec::new(), 0));
    match cm.self_destruct(C).unwrap_err() {
        ExecutionError::Syscall(e) => assert_eq!(e.exit_code(), ExitCode::SysErrInvalidReceiver),
        other => panic!("expected a recoverable error, got {:?}", other),
    }
    assert_eq!(balance(&cm, A), Some(50));
}

#[test]
fn call_beyond_the_maximum_depth_is_refused_without_gas() {
    let mut prices = PriceList::free();
    prices.send_base = 10;
    let mut cm = engine(&[(A, 50), (B, 20)], 2, prices, 1_000);
    expect_invoke(cm.send(A, B, 1, Vec::new(), 1));
    expect_invoke(cm.call(A, 1, Vec::new(), 1));
    assert_eq!(cm.depth(), 2);
    let gas_before = cm.gas_used();
    assert_eq!(gas_before, 20);
    let (code, gas_used) = expect_done(cm.call(B, 1, Vec::new(), 1));
    assert_eq!(code, ExitCode::SysErrForbidden);
    assert_eq!(gas_used, 0);
    assert_eq!(cm.gas_used(), gas_before);
    assert_eq!(cm.depth(), 2);
    assert_eq!(balance(&cm, A), Some(50));
    assert_eq!(balance(&cm, B), Some(20));
    // The caller goes on.
    assert_eq!(cm.receiver().unwrap(), A);
}

#[test]
fn depth_of_zero_refuses_every_message() {
    let mut cm = engine(&[(A, 50), (B, 20)], 0, PriceList::free(), 1_000);
    let (code, gas_used) = expect_done(cm.send(A, B, METHOD_SEND, Vec::new(), 1));
    assert_eq!(code, ExitCode::SysErrForbidden);
    assert_eq!(gas_used, 0);
    assert_eq!(balance(&cm, A), Some(50));
}

#[test]
fn running_out_of_gas_in_the_outermost_invocation_is_fatal() {
    let mut prices = PriceList::free();
    prices.send_base = 10;
    // Entering costs 10, the work inside costs 6: one more than the limit.
    let limit = 15;
    let mut cm = engine(&[(A, 50), (B, 20)], 8, prices, limit);
    expect_invoke(cm.send(A, B, 1, Vec::new(), 5));
    assert_eq!(balance(&cm, B), Some(25));
    cm.charge_gas(5).unwrap();
    assert_eq!(cm.gas_used(), limit);
    match cm.charge_gas(1).unwrap_err() {
        ExecutionError::Fatal(cause) => assert_eq!(cause, FatalCause::OutOfGas),
        other => panic!("expected a fatal error, got {:?}", other),
    }
    assert!(cm.is_aborted());
    assert_eq!(cm.depth(), 0);
    assert_eq!(cm.gas_used(), limit);
    // No state change at all: the transfer of the message is undone too.
    assert_eq!(balance(&cm, A), Some(50));
    assert_eq!(balance(&cm, B), Some(20));
    // Nothing more can be sent.
    match cm.send(A, B, METHOD_SEND, Vec::new(), 1).unwrap_err() {
        ExecutionError::Fatal(cause) => assert_eq!(cause, FatalCause::Aborted),
        other => panic!("expected a fatal error, got {:?}", other),
    }
}

#[test]
fn exact_gas_suffices() {
    let mut prices = PriceList::free();
    prices.send_base = 10;
    let mut cm = engine(&[(A, 50), (B, 20)], 8, prices, 16);
    expect_invoke(cm.send(A, B, 1, Vec::new(), 5));
    cm.charge_gas(6).unwrap();
    let res = cm.finish(ExitCode::OK, Vec::new()).unwrap();
    assert_eq!(res.gas_used, 16);
    assert_eq!(balance(&cm, B), Some(25));
}

#[test]
fn message_that_cannot_pay_for_itself_is_fatal() {
    let mut prices = PriceList::free();
    prices.send_base = 10;
    let mut cm = engine(&[(A, 50), (B, 20)], 8, prices, 9);
    match cm.send(A, B, METHOD_SEND, Vec::new(), 5).unwrap_err() {
        ExecutionError::Fatal(cause) => assert_eq!(cause, FatalCause::OutOfGas),
        other => panic!("expected a fatal error, got {:?}", other),
    }
    assert!(cm.is_aborted());
    assert_eq!(cm.gas_used(), 9);
    assert_eq!(balance(&cm, A), Some(50));
}

#[test]
fn running_out_of_gas_in_a_nested_invocation_is_recoverable_and_keeps_the_gas() {
    let mut prices = PriceList::free();
    prices.send_base = 10;
    let mut cm = engine(&[(A, 50), (B, 20)], 8, prices, 30);
    expect_invoke(cm.send(A, B, 1, Vec::new(), 5));
    expect_invoke(cm.call(A, 1, Vec::new(), 2));
    assert_eq!(cm.gas_used(), 20);
    let err = cm.charge_gas(11).unwrap_err();
    match &err {
        ExecutionError::Syscall(e) => assert_eq!(e.exit_code(), ExitCode::SysErrOutOfGas),
        other => panic!("expected a recoverable error, got {:?}", other),
    }
    assert_eq!(cm.gas_used(), 30);
    match cm.fail(err) {
        Trap::Exit(res) => {
            assert_eq!(res.exit_code, ExitCode::SysErrOutOfGas);
            assert_eq!(res.gas_used, 20);
        }
        other => panic!("expected the invocation to end, got {:?}", other),
    }
    // The nested invocation is undone, the gas stays used.
    assert_eq!(cm.depth(), 1);
    assert_eq!(cm.gas_used(), 30);
    assert_eq!(balance(&cm, A), Some(45));
    assert_eq!(balance(&cm, B), Some(25));
    // Whatever the outermost invocation tries to pay for next ends the message.
    match cm.charge_gas(1).unwrap_err() {
        ExecutionError::Fatal(cause) => assert_eq!(cause, FatalCause::OutOfGas),
        other => panic!("expected a fatal error, got {:?}", other),
    }
    assert_eq!(balance(&cm, A), Some(50));
    assert_eq!(balance(&cm, B), Some(20));
}

#[test]
fn failed_nested_call_leaves_no_trace_but_gas() {
    let mut prices = PriceList::free();
    prices.send_base = 3;
    prices.state_write = 2;
    prices.block_write_base = 1;
    let mut cm = engine(&[(A, 50), (B, 20)], 8, prices, 1_000);
    expect_invoke(cm.send(A, B, 1, Vec::new(), 5));
    let before_nested_a = cm.state().get(A).unwrap();
    let before_nested_b = cm.state().get(B).unwrap();
    expect_invoke(cm.call(A, 9, Vec::new(), 10));
    // The nested invocation changes its state root, sends on, and fails.
    let root = cm.block_put(DAG_CBOR, &[1, 2, 3]).unwrap();
    cm.set_root(&root).unwrap();
    assert_eq!(cm.get_root().unwrap(), root);
    let (code, _) = expect_done(cm.call(C, METHOD_SEND, Vec::new(), 4));
    assert_eq!(code, ExitCode::OK);
    assert_eq!(balance(&cm, C), Some(4));
    let gas_before_end = cm.gas_used();
    let res = cm.finish(ExitCode::ErrForbidden, Vec::new()).unwrap();
    assert_eq!(res.exit_code, ExitCode::ErrForbidden);
    assert_eq!(cm.gas_used(), gas_before_end);
    assert_eq!(cm.state().get(A).unwrap(), before_nested_a);
    assert_eq!(cm.state().get(B).unwrap(), before_nested_b);
    assert_eq!(balance(&cm, C), None);
    // The block stays in the store, unreferenced.
    assert!(cm.blocks().has(&root));
    // The parent commits what it did itself.
    cm.finish(ExitCode::OK, Vec::new()).unwrap();
    assert_eq!(balance(&cm, A), Some(45));
    assert_eq!(balance(&cm, B), Some(25));
}

#[test]
fn successful_nested_call_is_kept_when_the_parent_succeeds_and_lost_when_it_fails() {
    let mut cm = engine(&[(A, 50), (B, 20)], 8, PriceList::free(), 1_000);
    expect_invoke(cm.send(A, B, 1, Vec::new(), 0));
    expect_invoke(cm.call(C, 1, Vec::new(), 6));
    cm.finish(ExitCode::OK, Vec::new()).unwrap();
    assert_eq!(balance(&cm, C), Some(6));
    cm.finish(ExitCode::OK, Vec::new()).unwrap();
    assert_eq!(balance(&cm, C), Some(6));
    assert_eq!(balance(&cm, B), Some(14));

    let mut cm = engine(&[(A, 50), (B, 20)], 8, PriceList::free(), 1_000);
    expect_invoke(cm.send(A, B, 1, Vec::new(), 0));
    expect_invoke(cm.call(C, 1, Vec::new(), 6));
    cm.finish(ExitCode::OK, Vec::new()).unwrap();
    cm.finish(ExitCode::ErrIllegalArgument, Vec::new()).unwrap();
    assert_eq!(balance(&cm, C), None);
    assert_eq!(balance(&cm, B), Some(20));
}

#[test]
fn set_root_needs_a_block_that_was_written() {
    let mut cm = engine(&[(A, 50), (B, 20)], 8, PriceList::free(), 1_000);
    expect_invoke(cm.send(A, B, 1, Vec::new(), 0));
    let unknown = Cid::new_v1(DAG_CBOR, BLAKE2B_256, vec![0u8; 32]);
    match cm.set_root(&unknown).unwrap_err() {
        ExecutionError::Syscall(e) => assert_eq!(e.exit_code(), ExitCode::SysErrIllegalArgument),
        other => panic!("expected a recoverable error, got {:?}", other),
    }
    assert_eq!(cm.get_root().unwrap(), empty_state());
    match cm.block_get(&unknown).unwrap_err() {
        ExecutionError::Syscall(e) => assert_eq!(e.exit_code(), ExitCode::SysErrIllegalArgument),
        other => panic!("expected a recoverable error, got {:?}", other),
    }
    let root = cm.block_put(DAG_CBOR, b"state").unwrap();
    assert_eq!(cm.block_get(&root).unwrap(), b"state".to_vec());
    cm.set_root(&root).unwrap();
    assert_eq!(cm.state().get(B).unwrap().state, root);
}

#[test]
fn kernel_operations_need_a_running_invocation() {
    let mut cm = engine(&[(A, 50)], 8, PriceList::free(), 1_000);
    for err in [
        cm.caller().unwrap_err(),
        cm.receiver().unwrap_err(),
        cm.method_number().unwrap_err(),
        cm.current_balance().map(|_| 0).unwrap_err(),
        cm.self_destruct(A).unwrap_err(),
        cm.finish(ExitCode::OK, Vec::new()).map(|_| ()).unwrap_err(),
        cm.call(A, 0, Vec::new(), 0).map(|_| ()).unwrap_err(),
    ] {
        match err {
            ExecutionError::Fatal(cause) => assert_eq!(cause, FatalCause::NoActiveInvocation),
            other => panic!("expected a fatal error, got {:?}", other),
        }
    }
    assert_eq!(balance(&cm, A), Some(50));
}

#[test]
fn every_kernel_operation_charges_before_it_acts() {
    let mut prices = PriceList::free();
    prices.syscall_base = 1;
    prices.state_read = 2;
    prices.state_write = 3;
    prices.hashing_base = 4;
    prices.hashing_per_byte = 2;
    prices.block_write_base = 5;
    prices.block_write_per_byte = 1;
    prices.block_read_base = 7;
    let mut cm = engine(&[(A, 50), (B, 20)], 8, prices, 1_000);
    expect_invoke(cm.send(A, B, 1, Vec::new(), 0));
    assert_eq!(cm.gas_used(), 0);
    cm.caller().unwrap();
    assert_eq!(cm.gas_used(), 1);
    cm.current_balance().unwrap();
    assert_eq!(cm.gas_used(), 3);
    cm.hash_blake2b(&[0u8; 10]).unwrap();
    assert_eq!(cm.gas_used(), 3 + 4 + 20);
    let cid = cm.block_put(DAG_CBOR, &[0u8; 8]).unwrap();
    assert_eq!(cm.gas_used(), 27 + 5 + 8);
    cm.set_root(&cid).unwrap();
    assert_eq!(cm.gas_used(), 43);
    cm.block_get(&cid).unwrap();
    assert_eq!(cm.gas_used(), 50);
    assert_eq!(cm.gas_limit(), 1_000);
}

#[test]
fn send_costs_depend_on_value_and_method() {
    let mut prices = PriceList::free();
    prices.send_base = 100;
    prices.send_transfer_funds = 20;
    prices.send_invoke_method = 3;
    prices.create_actor = 1_000;
    assert_eq!(prices.on_send(0, 0), 100);
    assert_eq!(prices.on_send(1, 0), 120);
    assert_eq!(prices.on_send(0, 5), 103);
    assert_eq!(prices.on_send(7, 5), 123);
    prices.send_base = u64::MAX;
    assert_eq!(prices.on_send(7, 5), u64::MAX);
    prices.send_base = 100;
    let mut cm = engine(&[(A, 50)], 8, prices, 10_000);
    let (code, gas_used) = expect_done(cm.send(A, B, METHOD_SEND, Vec::new(), 1));
    assert_eq!(code, ExitCode::OK);
    assert_eq!(gas_used, 1_120);
    assert_eq!(cm.gas_used(), 1_120);
}

#[test]
fn size_dependent_costs_are_linear_and_saturate() {
    let mut prices = PriceList::free();
    prices.hashing_base = 31;
    prices.hashing_per_byte = 2;
    assert_eq!(prices.on_hashing(0), 31);
    assert_eq!(prices.on_hashing(100), 231);
    prices.hashing_per_byte = u64::MAX;
    assert_eq!(prices.on_hashing(2), u64::MAX);
    prices.block_write_base = 5;
    prices.block_write_per_byte = 3;
    assert_eq!(prices.on_block_write(4), 17);
    prices.verify_bls = 9;
    assert_eq!(prices.on_verify_aggregate(3), 27);
}

#[test]
fn gas_tracker_charges_up_to_its_limit() {
    let mut gas = GasTracker::new(10);
    assert_eq!(gas.gas_available(), 10);
    assert!(gas.charge(4).is_ok());
    assert!(gas.charge(6).is_ok());
    assert_eq!(gas.gas_used(), 10);
    let err = gas.charge(1).unwrap_err();
    assert_eq!(err.available, 0);
    assert_eq!(err.required, 1);
    assert_eq!(gas.gas_used(), 10);

    let mut gas = GasTracker::new(10);
    assert!(gas.charge(3).is_ok());
    let err = gas.charge(8).unwrap_err();
    assert_eq!(err.available, 7);
    assert_eq!(err.required, 8);
    // A refused charge uses up what was left.
    assert_eq!(gas.gas_used(), 10);
    assert_eq!(gas.gas_limit(), 10);
    assert!(gas.charge(0).is_ok());
}

#[test]
fn fatal_failure_discards_every_frame() {
    let mut cm = engine(&[(A, 50), (B, 20)], 8, PriceList::free(), 1_000);
    expect_invoke(cm.send(A, B, 1, Vec::new(), 5));
    expect_invoke(cm.call(C, 1, Vec::new(), 5));
    match cm.fail(ExecutionError::Fatal(FatalCause::CorruptIdentifier)) {
        Trap::Fatal(cause) => assert_eq!(cause, FatalCause::CorruptIdentifier),
        other => panic!("expected a fatal trap, got {:?}", other),
    }
    assert!(cm.is_aborted());
    assert_eq!(cm.depth(), 0);
    assert_eq!(balance(&cm, A), Some(50));
    assert_eq!(balance(&cm, B), Some(20));
    assert_eq!(balance(&cm, C), None);
}

#[test]
fn transfer_that_would_overflow_a_balance_is_fatal() {
    let mut cm = engine(&[(A, 50), (B, u128::MAX - 3)], 8, PriceList::free(), 1_000);
    match cm.send(A, B, METHOD_SEND, Vec::new(), 4).unwrap_err() {
        ExecutionError::Fatal(cause) => assert_eq!(cause, FatalCause::BalanceOverflow),
        other => panic!("expected a fatal error, got {:?}", other),
    }
    assert_eq!(balance(&cm, A), Some(50));
    let mut cm = engine(&[(A, 50), (B, u128::MAX - 3)], 8, PriceList::free(), 1_000);
    let (code, _) = expect_done(cm.send(A, B, METHOD_SEND, Vec::new(), 3));
    assert_eq!(code, ExitCode::OK);
    assert_eq!(balance(&cm, B), Some(u128::MAX));
}

#[test]
fn sending_to_oneself_moves_nothing() {
    let mut cm = engine(&[(A, 50)], 8, PriceList::free(), 1_000);
    let (code, _) = expect_done(cm.send(A, A, METHOD_SEND, Vec::new(), 50));
    assert_eq!(code, ExitCode::OK);
    assert_eq!(balance(&cm, A), Some(50));
}

#[test]
fn current_frame_is_the_innermost_invocation() {
    let mut cm = engine(&[(A, 50), (B, 20)], 8, PriceList::free(), 1_000);
    assert!(cm.current_frame().is_none());
    expect_invoke(cm.send(A, B, 3, Vec::new(), 5));
    expect_invoke(cm.call(C, 4, Vec::new(), 1));
    let frame = cm.current_frame().unwrap();
    assert_eq!(frame.caller, B);
    assert_eq!(frame.receiver, C);
    assert_eq!(frame.method, 4);
    assert_eq!(frame.value, 1);
    assert_eq!(frame.depth, 2);
    assert_eq!(frame.gas_limit, 1_000);
    assert_eq!(frame.gas_at_entry, 0);
}

#[test]
fn state_tree_snapshot_and_revert() {
    let mut t = tree(&[(3, 30), (1, 10), (2, 20)]);
    assert_eq!(t.len(), 3);
    let checkpoint = t.snapshot();
    t.set(2, actor(21));
    t.set(5, actor(50));
    assert!(t.remove(1));
    assert!(!t.remove(1));
    assert_eq!(t.get(1), None);
    assert_eq!(t.balance_of(2), Some(21));
    assert_eq!(t.len(), 3);
    t.revert(checkpoint);
    assert_eq!(t.len(), 3);
    assert_eq!(t.balance_of(1), Some(10));
    assert_eq!(t.balance_of(2), Some(20));
    assert_eq!(t.balance_of(3), Some(30));
    assert_eq!(t.get(5), None);
    assert!(!t.contains(5));
}

#[test]
fn actor_that_was_destroyed_by_a_nested_invocation_of_itself_has_no_record_left() {
    let mut cm = engine(&[(A, 50), (B, 20)], 8, PriceList::free(), 1_000);
    // A runs, calls B, and B calls A again; the inner A destroys itself.
    expect_invoke(cm.send(B, A, 1, Vec::new(), 0));
    expect_invoke(cm.call(B, 1, Vec::new(), 0));
    expect_invoke(cm.call(A, 2, Vec::new(), 0));
    cm.self_destruct(B).unwrap();
    cm.finish(ExitCode::OK, Vec::new()).unwrap();
    cm.finish(ExitCode::OK, Vec::new()).unwrap();
    // The outer invocation of A still runs, but A has no record any more.
    assert_eq!(cm.depth(), 1);
    assert_eq!(cm.receiver().unwrap(), A);
    for err in [cm.current_balance().map(|_| ()).unwrap_err(), cm.get_root().map(|_| ()).unwrap_err()]
    {
        match err {
            ExecutionError::Syscall(e) => assert_eq!(e.exit_code(), ExitCode::SysErrIllegalActor),
            other => panic!("expected a recoverable error, got {:?}", other),
        }
    }
    assert_eq!(balance(&cm, B), Some(70));
    // If the outer invocation fails, everything is as it was before.
    cm.finish(ExitCode::ErrIllegalState, Vec::new()).unwrap();
    assert_eq!(balance(&cm, A), Some(50));
    assert_eq!(balance(&cm, B), Some(20));
}
