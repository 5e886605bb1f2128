//! What holds of every run of the call manager, whatever the code of the
//! actors does.

use vstd::prelude::*;
use crate::call_manager::{
    aborted_view, block_put_view, charge_view, entry_view, fail_view, finish_view,
    mark_destroyed, send_outcome, send_view, self_destruct_view, set_root_view, EngineView,
    FrameView, LoggedError, MethodNum,
};
use crate::error::{ExitCode, FailureView};
use crate::ipld::CidView;
use crate::state_tree::{ActorID, TokenAmount};

verus! {

/// One operation on the call manager, with what it was given.
pub ghost enum Operation {
    /// `charge_gas`.
    Charge(u64),
    /// An operation of the kernel that only reads, at the given cost.
    Read(u64),
    /// `send`.
    Send { from: ActorID, to: ActorID, method: MethodNum, params: Seq<u8>, value: TokenAmount },
    /// `call`: `send` from the running actor.
    Call { to: ActorID, method: MethodNum, params: Seq<u8>, value: TokenAmount },
    /// `finish`.
    Finish(ExitCode),
    /// `fail`.
    Fail(FailureView),
    /// `set_root`.
    SetRoot(CidView),
    /// `self_destruct`.
    SelfDestruct(ActorID),
    /// `block_put`.
    BlockPut { codec: u64, data: Seq<u8> },
    /// `push_actor_error`.
    Log(LoggedError),
}

/// The call manager after one operation, as the contract of the operation
/// gives it.
pub open spec fn apply(v: EngineView, op: Operation) -> EngineView {
    match op {
        Operation::Charge(amount) => charge_view(v, amount),
        Operation::Read(cost) => entry_view(v, cost),
        Operation::Send { from, to, method, params, value } => send_view(
            v,
            from,
            to,
            method,
            params,
            value,
        ),
        Operation::Call { to, method, params, value } => if v.frames.len() == 0 {
            v
        } else {
            send_view(v, v.frames.last().receiver, to, method, params, value)
        },
        Operation::Finish(exit_code) => if v.frames.len() == 0 {
            v
        } else {
            finish_view(v, exit_code)
        },
        Operation::Fail(f) => fail_view(v, f),
        Operation::SetRoot(root) => set_root_view(v, root),
        Operation::SelfDestruct(beneficiary) => self_destruct_view(v, beneficiary),
        Operation::BlockPut { codec, data } => block_put_view(v, codec, data),
        Operation::Log(entry) => EngineView { log: v.log.push(entry), ..v },
    }
}

/// The call manager after a list of operations, one after the other.
pub open spec fn run(v: EngineView, ops: Seq<Operation>) -> EngineView
    decreases ops.len(),
{
    if ops.len() == 0 {
        v
    } else {
        apply(run(v, ops.drop_last()), ops.last())
    }
}

/// How the stack of invocations can differ after one operation: it is the
/// same; or nothing runs any more; or the innermost invocation has ended; or
/// one more was entered; or the innermost was marked as destroyed.
pub open spec fn stack_step(before: Seq<FrameView>, after: Seq<FrameView>) -> bool {
    ||| after == before
    ||| after.len() == 0
    ||| (before.len() > 0 && after == before.drop_last())
    ||| (after.len() > 0 && after.drop_last() == before)
    ||| (before.len() > 0 && after == mark_destroyed(before))
}

/// What one operation keeps: the configuration and the gas limit; the gas
/// used, which can only grow, and stays within the limit; and the stack but
/// for one step.
pub open spec fn one_step(v: EngineView, w: EngineView) -> bool {
    &&& w.config == v.config
    &&& w.gas_limit == v.gas_limit
    &&& v.gas_used <= w.gas_used <= w.gas_limit
    &&& stack_step(v.frames, w.frames)
}

proof fn lemma_charge_step(v: EngineView, amount: u64)
    requires
        v.gas_used <= v.gas_limit <= u64::MAX,
    ensures
        one_step(v, charge_view(v, amount)),
        one_step(v, entry_view(v, amount)),
{
}

proof fn lemma_finish_step(v: EngineView, exit_code: ExitCode, f: FailureView)
    requires
        v.gas_used <= v.gas_limit <= u64::MAX,
    ensures
        v.frames.len() > 0 ==> one_step(v, finish_view(v, exit_code)),
        one_step(v, fail_view(v, f)),
        one_step(v, aborted_view(v)),
{
}

proof fn lemma_send_step(
    v: EngineView,
    from: ActorID,
    to: ActorID,
    method: MethodNum,
    params: Seq<u8>,
    value: TokenAmount,
)
    requires
        v.gas_used <= v.gas_limit <= u64::MAX,
    ensures
        one_step(v, send_view(v, from, to, method, params, value)),
{
    let prices = v.config.price_list;
    let cost = prices.spec_on_send(value, method);
    let charged = charge_view(v, cost);
    lemma_charge_step(v, cost);
    lemma_charge_step(charged, prices.create_actor);
    let w = send_view(v, from, to, method, params, value);
    if w.frames.len() > 0 && w.frames != v.frames {
        assert(w.frames.drop_last() =~= v.frames);
    }
}

proof fn lemma_actor_step(v: EngineView, root: CidView, beneficiary: ActorID, codec: u64, data: Seq<u8>)
    requires
        v.gas_used <= v.gas_limit <= u64::MAX,
    ensures
        one_step(v, set_root_view(v, root)),
        one_step(v, self_destruct_view(v, beneficiary)),
        one_step(v, block_put_view(v, codec, data)),
{
    lemma_charge_step(v, v.config.price_list.state_write);
    lemma_charge_step(v, v.config.price_list.self_destruct);
    lemma_charge_step(v, v.config.price_list.spec_on_block_write(data.len()));
}

/// Every operation is one step.
pub proof fn lemma_apply_is_one_step(v: EngineView, op: Operation)
    requires
        v.gas_used <= v.gas_limit <= u64::MAX,
    ensures
        one_step(v, apply(v, op)),
{
    match op {
        Operation::Charge(amount) => lemma_charge_step(v, amount),
        Operation::Read(cost) => lemma_charge_step(v, cost),
        Operation::Send { from, to, method, params, value } => lemma_send_step(
            v,
            from,
            to,
            method,
            params,
            value,
        ),
        Operation::Call { to, method, params, value } => {
            if v.frames.len() > 0 {
                lemma_send_step(v, v.frames.last().receiver, to, method, params, value);
            }
        },
        Operation::Finish(exit_code) => lemma_finish_step(
            v,
            exit_code,
            FailureView::Syscall(exit_code),
        ),
        Operation::Fail(f) => lemma_finish_step(v, ExitCode::OK, f),
        Operation::SetRoot(root) => lemma_actor_step(v, root, 0, 0, Seq::empty()),
        Operation::SelfDestruct(beneficiary) => lemma_actor_step(
            v,
            arbitrary(),
            beneficiary,
            0,
            Seq::empty(),
        ),
        Operation::BlockPut { codec, data } => lemma_actor_step(v, arbitrary(), 0, codec, data),
        Operation::Log(_) => {},
    }
}

/// No operation gives gas back, uses more than the limit, or changes the
/// limit.
pub proof fn lemma_step_gas(v: EngineView, op: Operation)
    requires
        v.gas_used <= v.gas_limit <= u64::MAX,
    ensures
        v.gas_used <= apply(v, op).gas_used <= apply(v, op).gas_limit,
        apply(v, op).gas_limit == v.gas_limit,
{
    lemma_apply_is_one_step(v, op);
}

/// Over any run of the call manager the gas used never falls and never
/// passes the limit, and the limit stays what it was. Undoing an
/// invocation, or giving the message up, is an operation like any other:
/// it does not give gas back.
pub proof fn lemma_gas_monotone(v: EngineView, ops: Seq<Operation>)
    requires
        v.gas_used <= v.gas_limit <= u64::MAX,
    ensures
        v.gas_used <= run(v, ops).gas_used <= run(v, ops).gas_limit,
        run(v, ops).gas_limit == v.gas_limit,
    decreases ops.len(),
{
    if ops.len() > 0 {
        lemma_gas_monotone(v, ops.drop_last());
        lemma_step_gas(run(v, ops.drop_last()), ops.last());
    }
}

/// Ending an invocation with an error, or giving the message up, leaves the
/// gas used as it is.
pub proof fn lemma_revert_keeps_gas(v: EngineView, exit_code: ExitCode, f: FailureView)
    ensures
        finish_view(v, exit_code).gas_used == v.gas_used,
        fail_view(v, f).gas_used == v.gas_used,
        aborted_view(v).gas_used == v.gas_used,
{
}

/// While an invocation that was entered at depth `depth` is running, the
/// invocations around it and the state that it was entered with are kept.
/// All that can change of its own frame is the mark that it destroyed
/// itself.
pub open spec fn keeps_invocation(
    start: EngineView,
    now: EngineView,
    depth: int,
) -> bool {
    &&& 1 <= depth <= start.frames.len()
    &&& now.frames.len() >= depth
    &&& now.frames.subrange(0, depth - 1) =~= start.frames.subrange(0, depth - 1)
    &&& now.frames[depth - 1] == (FrameView {
        destroyed: now.frames[depth - 1].destroyed,
        ..start.frames[depth - 1]
    })
    &&& now.config == start.config
    &&& now.gas_used <= now.gas_limit <= u64::MAX
}

/// One operation keeps the invocation at depth `depth` and all around it,
/// as long as it does not end that invocation.
pub proof fn lemma_step_keeps_invocation(start: EngineView, now: EngineView, op: Operation, depth: int)
    requires
        keeps_invocation(start, now, depth),
        apply(now, op).frames.len() >= depth,
    ensures
        keeps_invocation(start, apply(now, op), depth),
{
    let next = apply(now, op);
    lemma_apply_is_one_step(now, op);
    assert forall|i: int| 0 <= i < depth - 1 implies next.frames[i] == start.frames[i] by {
        assert(now.frames.subrange(0, depth - 1)[i] == start.frames.subrange(0, depth - 1)[i]);
        assert(now.frames[i] == start.frames[i]);
        if next.frames.len() > 0 && next.frames.drop_last() == now.frames {
            assert(next.frames.drop_last()[i] == now.frames[i]);
        }
    }
    assert(next.frames.subrange(0, depth - 1) =~= start.frames.subrange(0, depth - 1));
    if next.frames.len() > 0 && next.frames.drop_last() == now.frames {
        assert(next.frames.drop_last()[depth - 1] == now.frames[depth - 1]);
    }
}

/// A run of operations keeps the invocation at depth `depth` and all around
/// it, as long as no operation of the run ends that invocation.
pub proof fn lemma_run_keeps_invocation(start: EngineView, ops: Seq<Operation>, depth: int)
    requires
        1 <= depth <= start.frames.len(),
        start.gas_used <= start.gas_limit <= u64::MAX,
        forall|n: int| 0 <= n <= ops.len() ==> (#[trigger] run(start, ops.take(n))).frames.len()
            >= depth,
    ensures
        keeps_invocation(start, run(start, ops), depth),
    decreases ops.len(),
{
    if ops.len() == 0 {
    } else {
        let shorter = ops.drop_last();
        assert forall|n: int| 0 <= n <= shorter.len() implies (#[trigger] run(
            start,
            shorter.take(n),
        )).frames.len() >= depth by {
            assert(shorter.take(n) =~= ops.take(n));
        }
        lemma_run_keeps_invocation(start, shorter, depth);
        assert(ops.take(ops.len() as int) =~= ops);
        assert(run(start, ops.take(ops.len() as int)).frames.len() >= depth);
        lemma_step_keeps_invocation(start, run(start, shorter), ops.last(), depth);
    }
}

/// An invocation that fails leaves no trace in the state. Take a message
/// that enters an invocation. Whatever the code of the receiver does then,
/// and whatever the invocations inside it do, whether they succeed or fail:
/// once the invocation itself ends with an exit code other than success,
/// the state is what it was before the message was sent, and the
/// invocations around it are as they were. Only the gas stays used.
pub proof fn lemma_failed_invocation_leaves_no_trace(
    before: EngineView,
    from: ActorID,
    to: ActorID,
    method: MethodNum,
    params: Seq<u8>,
    value: TokenAmount,
    ops: Seq<Operation>,
    exit_code: ExitCode,
)
    requires
        before.gas_used <= before.gas_limit <= u64::MAX,
        before.frames.len() < u32::MAX,
        send_outcome(before, from, to, method, value) is Invoke,
        forall|n: int|
            0 <= n <= ops.len() ==> (#[trigger] run(
                send_view(before, from, to, method, params, value),
                ops.take(n),
            )).frames.len() > before.frames.len(),
        run(send_view(before, from, to, method, params, value), ops).frames.len() == before.frames.len()
            + 1,
        exit_code != ExitCode::OK,
    ensures
        ({
            let entered = send_view(before, from, to, method, params, value);
            let end = apply(run(entered, ops), Operation::Finish(exit_code));
            &&& end.state == before.state
            &&& end.frames == before.frames
            &&& end.gas_used >= before.gas_used
        }),
{
    let entered = send_view(before, from, to, method, params, value);
    let depth: int = before.frames.len() as int + 1;
    assert(entered.frames.len() == depth);
    lemma_step_gas(before, Operation::Send { from, to, method, params, value });
    lemma_run_keeps_invocation(entered, ops, depth);
    let last = run(entered, ops);
    assert(last.frames.drop_last() =~= last.frames.subrange(0, depth - 1));
    assert(entered.frames.subrange(0, depth - 1) =~= before.frames);
    assert(entered.frames.last().snapshot == before.state);
    let end = apply(last, Operation::Finish(exit_code));
    assert(end.frames =~= before.frames);
    lemma_step_gas(before, Operation::Send { from, to, method, params, value });
    lemma_gas_monotone(entered, ops);
}

/// The same holds where the invocation ends through `fail` with a
/// recoverable failure: the state is what it was before the message was
/// sent.
pub proof fn lemma_aborted_invocation_leaves_no_trace(
    before: EngineView,
    from: ActorID,
    to: ActorID,
    method: MethodNum,
    params: Seq<u8>,
    value: TokenAmount,
    ops: Seq<Operation>,
    code: ExitCode,
)
    requires
        before.gas_used <= before.gas_limit <= u64::MAX,
        before.frames.len() < u32::MAX,
        send_outcome(before, from, to, method, value) is Invoke,
        forall|n: int|
            0 <= n <= ops.len() ==> (#[trigger] run(
                send_view(before, from, to, method, params, value),
                ops.take(n),
            )).frames.len() > before.frames.len(),
        run(send_view(before, from, to, method, params, value), ops).frames.len() == before.frames.len()
            + 1,
    ensures
        ({
            let entered = send_view(before, from, to, method, params, value);
            let end = apply(run(entered, ops), Operation::Fail(FailureView::Syscall(code)));
            &&& end.state == before.state
            &&& end.frames == before.frames
        }),
{
    let entered = send_view(before, from, to, method, params, value);
    let depth: int = before.frames.len() as int + 1;
    lemma_step_gas(before, Operation::Send { from, to, method, params, value });
    lemma_run_keeps_invocation(entered, ops, depth);
    let last = run(entered, ops);
    assert(last.frames.drop_last() =~= last.frames.subrange(0, depth - 1));
    assert(entered.frames.subrange(0, depth - 1) =~= before.frames);
    let end = apply(last, Operation::Fail(FailureView::Syscall(code)));
    assert(end.frames =~= before.frames);
}

/// A message that is given up changes nothing in the state: after a fatal
/// failure the state is what it was before the outermost invocation was
/// entered, and nothing runs any more.
pub proof fn lemma_fatal_failure_changes_no_state(
    before: EngineView,
    from: ActorID,
    to: ActorID,
    method: MethodNum,
    params: Seq<u8>,
    value: TokenAmount,
    ops: Seq<Operation>,
    f: FailureView,
)
    requires
        before.frames.len() == 0,
        before.gas_used <= before.gas_limit <= u64::MAX,
        send_outcome(before, from, to, method, value) is Invoke,
        forall|n: int|
            0 <= n <= ops.len() ==> (#[trigger] run(
                send_view(before, from, to, method, params, value),
                ops.take(n),
            )).frames.len() >= 1,
        f is Fatal,
    ensures
        ({
            let entered = send_view(before, from, to, method, params, value);
            let end = apply(run(entered, ops), Operation::Fail(f));
            &&& end.state == before.state
            &&& end.frames.len() == 0
            &&& end.aborted
        }),
{
    let entered = send_view(before, from, to, method, params, value);
    lemma_step_gas(before, Operation::Send { from, to, method, params, value });
    lemma_run_keeps_invocation(entered, ops, 1);
}

} // verus!
