//! The call manager: the stack of running invocations, the state they work
//! on and the gas they share. The code of an actor runs outside; whoever
//! runs it drives the call manager step by step.

use vstd::prelude::*;
use crate::address::{blake2b_256, blake2b_256_spec, Address};
use crate::blockstore::{ActorBlockstore, Block};
use crate::bytes::bytes_copy;
use crate::crypto::{
    byte_strings, verify, verify_bls_aggregate, verify_bls_aggregate_spec, verify_spec, Signature,
    SignatureType,
};
use crate::error::{ActorError, ExecutionError, ExitCode, FailureView, FatalCause};
use crate::gas::{GasTracker, PriceList};
use crate::ipld::{block_cid, Cid, CidView, BLAKE2B_256, DAG_CBOR};
use crate::state_tree::{ActorID, ActorState, ActorStateView, Checkpoint, StateTree, TokenAmount};

verus! {

/// The number of a method of an actor.
pub type MethodNum = u64;

/// The method number of a bare transfer, which runs no code.
pub const METHOD_SEND: MethodNum = 0;

/// What the engine is built with. Made once and handed to the call manager.
#[derive(Debug)]
pub struct EngineConfig {
    /// The largest number of invocations that may be running, one inside the
    /// other.
    pub max_call_depth: u32,
    /// The cost of each kind of operation.
    pub price_list: PriceList,
    /// The code of an account that is created on first transfer.
    pub account_code: Cid,
    /// The state of an account that is created on first transfer.
    pub empty_state: Cid,
}

/// The configuration as plain values.
pub ghost struct ConfigView {
    pub max_call_depth: u32,
    pub price_list: PriceList,
    pub account_code: CidView,
    pub empty_state: CidView,
}

impl View for EngineConfig {
    type V = ConfigView;

    open spec fn view(&self) -> ConfigView {
        ConfigView {
            max_call_depth: self.max_call_depth,
            price_list: self.price_list,
            account_code: self.account_code@,
            empty_state: self.empty_state@,
        }
    }
}

/// One running invocation.
pub struct InvocationFrame {
    /// The actor that sent the message.
    pub caller: ActorID,
    /// The actor whose code runs.
    pub receiver: ActorID,
    /// The method that runs.
    pub method: MethodNum,
    /// The tokens that came with the message.
    pub value: TokenAmount,
    /// The parameters that came with the message.
    pub params: Vec<u8>,
    /// The gas limit of the message that this invocation belongs to.
    pub gas_limit: u64,
    /// The gas that the message had used when this invocation was entered.
    pub gas_at_entry: u64,
    /// The number of running invocations, this one counted.
    pub depth: u32,
    /// The state as it was before this invocation changed anything.
    snapshot: Checkpoint,
    /// Whether the receiver has destroyed itself, so that its record goes
    /// when the invocation is committed.
    destroyed: bool,
}

/// A running invocation as plain values.
pub ghost struct FrameView {
    pub caller: ActorID,
    pub receiver: ActorID,
    pub method: MethodNum,
    pub value: TokenAmount,
    pub params: Seq<u8>,
    pub gas_limit: u64,
    pub gas_at_entry: u64,
    pub depth: u32,
    pub snapshot: Map<ActorID, ActorStateView>,
    pub destroyed: bool,
}

impl View for InvocationFrame {
    type V = FrameView;

    closed spec fn view(&self) -> FrameView {
        FrameView {
            caller: self.caller,
            receiver: self.receiver,
            method: self.method,
            value: self.value,
            params: self.params@,
            gas_limit: self.gas_limit,
            gas_at_entry: self.gas_at_entry,
            depth: self.depth,
            snapshot: self.snapshot@,
            destroyed: self.destroyed,
        }
    }
}

/// What a completed invocation hands to its caller.
#[derive(Debug)]
pub struct InvocationResult {
    /// How the invocation ended.
    pub exit_code: ExitCode,
    /// What it returned.
    pub return_data: Vec<u8>,
    /// The gas that it and the invocations inside it used.
    pub gas_used: u64,
}

/// The call manager as plain values.
pub ghost struct EngineView {
    pub config: ConfigView,
    /// The record of every actor, as the running invocation sees it.
    pub state: Map<ActorID, ActorStateView>,
    /// The blocks that have been written.
    pub blocks: Map<CidView, Seq<u8>>,
    pub gas_limit: nat,
    pub gas_used: nat,
    /// The running invocations, the outermost first.
    pub frames: Seq<FrameView>,
    /// Whether the message was given up.
    pub aborted: bool,
    /// The errors that actors have raised, the oldest first.
    pub log: Seq<LoggedError>,
}

/// An error that an actor raised, as plain values.
pub ghost struct LoggedError {
    pub exit_code: ExitCode,
    pub message: Seq<char>,
}

/// What a list of errors holds.
pub open spec fn logged_errors(errors: Seq<ActorError>) -> Seq<LoggedError> {
    errors.map_values(|e: ActorError| LoggedError { exit_code: e.exit_code, message: e.msg@ })
}

/// The state as it was before the message changed anything.
pub open spec fn base_state(v: EngineView) -> Map<ActorID, ActorStateView> {
    if v.frames.len() == 0 {
        v.state
    } else {
        v.frames[0].snapshot
    }
}

/// The call manager after the message was given up: no invocation runs, and
/// the state is what it was before the message.
pub open spec fn aborted_view(v: EngineView) -> EngineView {
    EngineView { state: base_state(v), frames: Seq::empty(), aborted: true, ..v }
}

/// The call manager after the innermost invocation ended with `exit_code`.
/// On success its changes stay, and the record of a receiver that destroyed
/// itself goes. On failure the state is what it was when the invocation was
/// entered. The gas stays used either way.
pub open spec fn finish_view(v: EngineView, exit_code: ExitCode) -> EngineView
    recommends
        v.frames.len() > 0,
{
    let top = v.frames.last();
    EngineView {
        frames: v.frames.drop_last(),
        state: if exit_code == ExitCode::OK {
            if top.destroyed {
                v.state.remove(top.receiver)
            } else {
                v.state
            }
        } else {
            top.snapshot
        },
        ..v
    }
}

/// The call manager after `amount` gas was asked for: the gas is used where
/// it fits; where it does not, all gas is used, and the message is given up
/// unless an invocation inside the outermost one is running.
pub open spec fn charge_view(v: EngineView, amount: u64) -> EngineView {
    if v.gas_used + amount <= v.gas_limit {
        EngineView { gas_used: (v.gas_used + amount) as nat, ..v }
    } else if v.frames.len() >= 2 {
        EngineView { gas_used: v.gas_limit, ..v }
    } else {
        aborted_view(EngineView { gas_used: v.gas_limit, ..v })
    }
}

/// How a charge of `amount` gas ends: `None` where it fits.
pub open spec fn charge_failure(v: EngineView, amount: u64) -> Option<FailureView> {
    if v.gas_used + amount <= v.gas_limit {
        None
    } else if v.frames.len() >= 2 {
        Some(FailureView::Syscall(ExitCode::SysErrOutOfGas))
    } else {
        Some(FailureView::Fatal(FatalCause::OutOfGas))
    }
}

/// What a message asks the receiver to run.
#[derive(Debug)]
pub struct Invocation {
    /// The code to run: that of the receiver.
    pub code: Cid,
    pub caller: ActorID,
    pub receiver: ActorID,
    pub method: MethodNum,
    pub params: Vec<u8>,
    pub value: TokenAmount,
}

/// What the call manager answers to a message.
#[derive(Debug)]
pub enum SendStep {
    /// An invocation was entered: its code has to be run now, and the
    /// invocation ended with `finish` or `fail`.
    Invoke(Invocation),
    /// The message is dealt with and no code has to be run: it was refused,
    /// or it was a bare transfer.
    Done(InvocationResult),
}

/// The ways in which a message is dealt with.
pub ghost enum SendOutcome {
    /// The operation failed: the running invocation, or the whole message,
    /// cannot go on.
    Failed(FailureView),
    /// The message was refused with an exit code. Nothing but gas changed,
    /// and the sender goes on.
    Refused(ExitCode),
    /// The message was a bare transfer, and the tokens have moved.
    Transferred,
    /// The tokens have moved and an invocation was entered.
    Invoke,
}

/// The record of an account that is created on first transfer.
pub open spec fn new_account(config: ConfigView) -> ActorStateView {
    ActorStateView {
        code: config.account_code,
        state: config.empty_state,
        sequence: 0,
        balance: 0,
    }
}

/// The state after `value` has moved from `from` to `to`.
pub open spec fn transfer_state(
    state: Map<ActorID, ActorStateView>,
    from: ActorID,
    to: ActorID,
    value: TokenAmount,
) -> Map<ActorID, ActorStateView> {
    if from == to || value == 0 {
        state
    } else {
        state.insert(
            from,
            ActorStateView { balance: (state[from].balance - value) as u128, ..state[from] },
        ).insert(to, ActorStateView { balance: (state[to].balance + value) as u128, ..state[to] })
    }
}

/// The frame of an invocation that is entered in `v`.
pub open spec fn entered_frame(
    v: EngineView,
    from: ActorID,
    to: ActorID,
    method: MethodNum,
    params: Seq<u8>,
    value: TokenAmount,
) -> FrameView {
    FrameView {
        caller: from,
        receiver: to,
        method,
        value,
        params,
        gas_limit: v.gas_limit as u64,
        gas_at_entry: v.gas_used as u64,
        depth: (v.frames.len() + 1) as u32,
        snapshot: v.state,
        destroyed: false,
    }
}

/// How a message from `from` to `to` is dealt with. The checks are made in
/// this order: the depth of the stack, before any gas is charged; the gas
/// for the message; the sender and its balance; the receiver, which is
/// created where it is missing and tokens come with the message.
pub open spec fn send_outcome(
    v: EngineView,
    from: ActorID,
    to: ActorID,
    method: MethodNum,
    value: TokenAmount,
) -> SendOutcome {
    let prices = v.config.price_list;
    let cost = prices.spec_on_send(value, method);
    let charged = charge_view(v, cost);
    if v.aborted {
        SendOutcome::Failed(FailureView::Fatal(FatalCause::Aborted))
    } else if v.frames.len() >= v.config.max_call_depth {
        SendOutcome::Refused(ExitCode::SysErrForbidden)
    } else if charge_failure(v, cost) is Some {
        SendOutcome::Failed(charge_failure(v, cost)->0)
    } else if !v.state.contains_key(from) {
        SendOutcome::Refused(ExitCode::SysErrSenderInvalid)
    } else if v.state[from].balance < value {
        SendOutcome::Refused(ExitCode::SysErrInsufficientFunds)
    } else if !v.state.contains_key(to) && value == 0 {
        SendOutcome::Refused(ExitCode::SysErrInvalidReceiver)
    } else if !v.state.contains_key(to) && charge_failure(charged, prices.create_actor) is Some {
        SendOutcome::Failed(charge_failure(charged, prices.create_actor)->0)
    } else if v.state.contains_key(to) && to != from && v.state[to].balance + value > u128::MAX {
        SendOutcome::Failed(FailureView::Fatal(FatalCause::BalanceOverflow))
    } else if method == METHOD_SEND {
        SendOutcome::Transferred
    } else {
        SendOutcome::Invoke
    }
}

/// The call manager after a message from `from` to `to` was dealt with.
pub open spec fn send_view(
    v: EngineView,
    from: ActorID,
    to: ActorID,
    method: MethodNum,
    params: Seq<u8>,
    value: TokenAmount,
) -> EngineView {
    let prices = v.config.price_list;
    let cost = prices.spec_on_send(value, method);
    let charged = charge_view(v, cost);
    let missing = !v.state.contains_key(to);
    if v.aborted || v.frames.len() >= v.config.max_call_depth {
        v
    } else if charge_failure(v, cost) is Some {
        charged
    } else if !v.state.contains_key(from) || v.state[from].balance < value || (missing && value
        == 0) {
        charged
    } else if missing && charge_failure(charged, prices.create_actor) is Some {
        charge_view(charged, prices.create_actor)
    } else {
        let paid = if missing {
            charge_view(charged, prices.create_actor)
        } else {
            charged
        };
        if !missing && to != from && v.state[to].balance + value > u128::MAX {
            aborted_view(paid)
        } else {
            let funded = if missing {
                v.state.insert(to, new_account(v.config))
            } else {
                v.state
            };
            let state = transfer_state(funded, from, to, value);
            if method == METHOD_SEND {
                EngineView { state, ..paid }
            } else {
                EngineView {
                    state,
                    frames: v.frames.push(entered_frame(v, from, to, method, params, value)),
                    ..paid
                }
            }
        }
    }
}

/// Whether what `send` returned fits the way the message was dealt with.
pub open spec fn send_result_matches(
    r: Result<SendStep, ExecutionError>,
    outcome: SendOutcome,
    before: EngineView,
    after: EngineView,
    from: ActorID,
    to: ActorID,
    method: MethodNum,
    params: Seq<u8>,
    value: TokenAmount,
) -> bool {
    match outcome {
        SendOutcome::Failed(f) => failed_with(r, f),
        SendOutcome::Refused(code) => r matches Ok(SendStep::Done(res)) && res.exit_code == code
            && res.return_data@.len() == 0 && res.gas_used == after.gas_used - before.gas_used,
        SendOutcome::Transferred => r matches Ok(SendStep::Done(res)) && res.exit_code
            == ExitCode::OK && res.return_data@.len() == 0 && res.gas_used == after.gas_used
            - before.gas_used,
        SendOutcome::Invoke => r matches Ok(SendStep::Invoke(inv)) && inv.code@
            == after.state[to].code && inv.caller == from && inv.receiver == to && inv.method
            == method && inv.params@ == params && inv.value == value,
    }
}

/// How an invocation ends when the code of its actor cannot go on.
#[derive(Debug)]
pub enum Trap {
    /// The innermost invocation was ended with an error; the invocation
    /// around it, if there is one, goes on with this result.
    Exit(InvocationResult),
    /// The message was given up.
    Fatal(FatalCause),
}

/// The exit code with which an invocation ends after a recoverable failure:
/// the code of the failure, except that a failure never ends as a success.
pub open spec fn abort_code(code: ExitCode) -> ExitCode {
    if code == ExitCode::OK {
        ExitCode::SysErrIllegalArgument
    } else {
        code
    }
}

/// The call manager after the failure `f` was dealt with: a recoverable
/// failure ends the innermost invocation and undoes what it changed; a fatal
/// one, or a failure while nothing runs, gives the message up.
pub open spec fn fail_view(v: EngineView, f: FailureView) -> EngineView {
    match f {
        FailureView::Syscall(code) => if v.frames.len() == 0 {
            aborted_view(v)
        } else {
            finish_view(v, abort_code(code))
        },
        FailureView::Fatal(_) => aborted_view(v),
    }
}

/// How an operation of the kernel that costs `cost` fails before it does
/// anything: there is no running invocation, or the gas does not suffice.
pub open spec fn entry_failure(v: EngineView, cost: u64) -> Option<FailureView> {
    if v.frames.len() == 0 {
        Some(FailureView::Fatal(FatalCause::NoActiveInvocation))
    } else {
        charge_failure(v, cost)
    }
}

/// The call manager after an operation of the kernel that costs `cost` was
/// entered.
pub open spec fn entry_view(v: EngineView, cost: u64) -> EngineView {
    if v.frames.len() == 0 {
        v
    } else {
        charge_view(v, cost)
    }
}

/// Whether an operation that costs `cost` and only reads returned what it
/// had to: `value`, unless it failed at its entry.
pub open spec fn read_result<T>(r: Result<T, ExecutionError>, v: EngineView, cost: u64, value: T) -> bool {
    match entry_failure(v, cost) {
        Some(f) => failed_with(r, f),
        None => r == Ok::<T, ExecutionError>(value),
    }
}

/// The state after the record of actor `id` got the state root `root`.
pub open spec fn with_root(
    state: Map<ActorID, ActorStateView>,
    id: ActorID,
    root: CidView,
) -> Map<ActorID, ActorStateView> {
    state.insert(id, ActorStateView { state: root, ..state[id] })
}

/// The frames after the innermost one was marked as destroyed.
pub open spec fn mark_destroyed(frames: Seq<FrameView>) -> Seq<FrameView> {
    frames.drop_last().push(FrameView { destroyed: true, ..frames.last() })
}

/// How `set_root` fails: at its entry; on an identifier under which no block
/// was written; where the running actor has no record.
pub open spec fn set_root_failure(v: EngineView, root: CidView) -> Option<FailureView> {
    let cost = v.config.price_list.state_write;
    if entry_failure(v, cost) is Some {
        entry_failure(v, cost)
    } else if !v.blocks.contains_key(root) {
        Some(FailureView::Syscall(ExitCode::SysErrIllegalArgument))
    } else if !v.state.contains_key(v.frames.last().receiver) {
        Some(FailureView::Syscall(ExitCode::SysErrIllegalActor))
    } else {
        None
    }
}

/// How `self_destruct` fails: at its entry; where the beneficiary is the
/// running actor itself; where either of the two has no record; where the
/// beneficiary's balance would leave the range of token amounts.
pub open spec fn self_destruct_failure(v: EngineView, beneficiary: ActorID) -> Option<
    FailureView,
> {
    let cost = v.config.price_list.self_destruct;
    let me = v.frames.last().receiver;
    if entry_failure(v, cost) is Some {
        entry_failure(v, cost)
    } else if beneficiary == me {
        Some(FailureView::Syscall(ExitCode::SysErrIllegalArgument))
    } else if !v.state.contains_key(me) {
        Some(FailureView::Syscall(ExitCode::SysErrIllegalActor))
    } else if !v.state.contains_key(beneficiary) {
        Some(FailureView::Syscall(ExitCode::SysErrInvalidReceiver))
    } else if v.state[beneficiary].balance + v.state[me].balance > u128::MAX {
        Some(FailureView::Fatal(FatalCause::BalanceOverflow))
    } else {
        None
    }
}

/// The call manager after `self_destruct`: where it succeeds, the balance of
/// the running actor has moved to the beneficiary and the actor is marked, so
/// that its record goes when its invocation is committed. Where it fails,
/// nothing but the gas has changed, unless the message was given up.
pub open spec fn self_destruct_view(v: EngineView, beneficiary: ActorID) -> EngineView {
    let cost = v.config.price_list.self_destruct;
    let entered = entry_view(v, cost);
    let me = v.frames.last().receiver;
    match self_destruct_failure(v, beneficiary) {
        Some(FailureView::Fatal(FatalCause::BalanceOverflow)) => aborted_view(entered),
        Some(_) => entered,
        None => EngineView {
            state: transfer_state(v.state, me, beneficiary, v.state[me].balance),
            frames: mark_destroyed(v.frames),
            ..entered
        },
    }
}

/// How an operation that costs `cost` and reads the record of the running
/// actor fails: at its entry, or where the actor has no record.
pub open spec fn actor_read_failure(v: EngineView, cost: u64) -> Option<FailureView> {
    if entry_failure(v, cost) is Some {
        entry_failure(v, cost)
    } else if !v.state.contains_key(v.frames.last().receiver) {
        Some(FailureView::Syscall(ExitCode::SysErrIllegalActor))
    } else {
        None
    }
}

/// The call manager after `set_root`.
pub open spec fn set_root_view(v: EngineView, root: CidView) -> EngineView {
    let entered = entry_view(v, v.config.price_list.state_write);
    match set_root_failure(v, root) {
        Some(_) => entered,
        None => EngineView {
            state: with_root(v.state, v.frames.last().receiver, root),
            ..entered
        },
    }
}

/// The cost of checking a signature of the given scheme.
pub open spec fn verify_cost(prices: PriceList, sig_type: SignatureType) -> u64 {
    match sig_type {
        SignatureType::BLS => prices.verify_bls,
        SignatureType::Secp256k1 => prices.verify_secp256k1,
    }
}

/// The call manager after `block_put`: where it succeeds, the block is
/// stored under its identifier.
pub open spec fn block_put_view(v: EngineView, codec: u64, data: Seq<u8>) -> EngineView {
    let cost = v.config.price_list.spec_on_block_write(data.len());
    let entered = entry_view(v, cost);
    if entry_failure(v, cost) is Some {
        entered
    } else {
        match block_cid(codec, BLAKE2B_256, data) {
            Some(cid) => EngineView { blocks: v.blocks.insert(cid, data), ..entered },
            None => entered,
        }
    }
}

/// Whether `r` is the failure `f`.
pub open spec fn failed_with<T>(r: Result<T, ExecutionError>, f: FailureView) -> bool {
    r matches Err(e) && e@ == f
}

/// What a list of frames holds.
pub open spec fn frame_views(frames: Seq<InvocationFrame>) -> Seq<FrameView> {
    frames.map_values(|f: InvocationFrame| f@)
}

/// The call manager.
pub struct CallManager {
    config: EngineConfig,
    gas: GasTracker,
    state: StateTree,
    blocks: ActorBlockstore,
    frames: Vec<InvocationFrame>,
    aborted: bool,
    errors: Vec<ActorError>,
}

impl View for CallManager {
    type V = EngineView;

    closed spec fn view(&self) -> EngineView {
        EngineView {
            config: self.config@,
            state: self.state@,
            blocks: self.blocks@,
            gas_limit: self.gas.spec_limit() as nat,
            gas_used: self.gas.spec_used() as nat,
            frames: frame_views(self.frames@),
            aborted: self.aborted,
            log: logged_errors(self.errors@),
        }
    }
}

impl CallManager {
    /// What holds of a call manager between any two operations.
    pub closed spec fn wf(&self) -> bool {
        &&& self.gas.wf()
        &&& self.state.wf()
        &&& self.blocks.wf()
        &&& self.frames@.len() <= self.config.max_call_depth
        &&& self.aborted ==> self.frames@.len() == 0
        &&& forall|i: int|
            0 <= i < self.frames@.len() ==> {
                &&& (#[trigger] self.frames@[i]).snapshot.wf()
                &&& self.frames@[i].depth == i + 1
                &&& self.frames@[i].gas_at_entry <= self.gas.spec_used()
                &&& self.frames@[i].gas_limit == self.gas.spec_limit()
            }
    }

    /// What `wf` says of the view: the gas used is within the limit, the
    /// stack is no deeper than allowed, each frame knows its depth and
    /// entered with no more gas used than is used now.
    pub proof fn lemma_wf_view(&self)
        requires
            self.wf(),
        ensures
            self@.gas_used <= self@.gas_limit <= u64::MAX,
            self@.frames.len() <= self@.config.max_call_depth,
            self@.aborted ==> self@.frames.len() == 0,
            forall|i: int|
                0 <= i < self@.frames.len() ==> (#[trigger] self@.frames[i]).depth == i + 1
                    && self@.frames[i].gas_at_entry <= self@.gas_used && self@.frames[i].gas_limit
                    == self@.gas_limit,
    {
        assert forall|i: int| 0 <= i < self@.frames.len() implies (#[trigger] self@.frames[i]).depth
            == i + 1 && self@.frames[i].gas_at_entry <= self@.gas_used
            && self@.frames[i].gas_limit == self@.gas_limit by {
            assert(self@.frames[i] == self.frames@[i]@);
        }
    }

    /// A call manager for one message: nothing runs yet and no gas is used.
    pub fn new(
        config: EngineConfig,
        state: StateTree,
        blocks: ActorBlockstore,
        gas_limit: u64,
    ) -> (cm: CallManager)
        requires
            state.wf(),
            blocks.wf(),
        ensures
            cm.wf(),
            cm@ == (EngineView {
                config: config@,
                state: state@,
                blocks: blocks@,
                gas_limit: gas_limit as nat,
                gas_used: 0,
                frames: Seq::empty(),
                aborted: false,
                log: Seq::empty(),
            }),
    {
        let cm = CallManager {
            config,
            gas: GasTracker::new(gas_limit),
            state,
            blocks,
            frames: Vec::new(),
            aborted: false,
            errors: Vec::new(),
        };
        assert(frame_views(cm.frames@) =~= Seq::empty());
        assert(logged_errors(cm.errors@) =~= Seq::empty());
        cm
    }

    /// Records an error that the running actor has raised.
    pub fn push_actor_error(&mut self, exit_code: ExitCode, message: String)
        requires
            old(self).wf(),
        ensures
            final(self).wf(),
            final(self)@ == (EngineView {
                log: old(self)@.log.push(LoggedError { exit_code, message: message@ }),
                ..old(self)@
            }),
    {
        let ghost entry = LoggedError { exit_code, message: message@ };
        let ghost before = self.errors@;
        self.errors.push(ActorError::new(exit_code, message));
        assert(logged_errors(self.errors@) =~= logged_errors(before).push(entry));
    }

    /// The errors that actors have raised, the oldest first.
    pub fn actor_errors(&self) -> (log: &Vec<ActorError>)
        ensures
            logged_errors(log@) == self@.log,
    {
        &self.errors
    }

    /// The gas that the message has used.
    pub fn gas_used(&self) -> (g: u64)
        ensures
            g == self@.gas_used,
    {
        self.gas.gas_used()
    }

    /// The gas limit of the message.
    pub fn gas_limit(&self) -> (g: u64)
        ensures
            g == self@.gas_limit,
    {
        self.gas.gas_limit()
    }

    /// The number of running invocations.
    pub fn depth(&self) -> (d: usize)
        ensures
            d == self@.frames.len(),
    {
        self.frames.len()
    }

    /// Whether the message was given up.
    pub fn is_aborted(&self) -> (b: bool)
        ensures
            b == self@.aborted,
    {
        self.aborted
    }

    /// The state tree as the running invocation sees it.
    pub fn state(&self) -> (s: &StateTree)
        requires
            self.wf(),
        ensures
            s.wf(),
            s@ == self@.state,
    {
        &self.state
    }

    /// The blocks that have been written.
    pub fn blocks(&self) -> (b: &ActorBlockstore)
        requires
            self.wf(),
        ensures
            b.wf(),
            b@ == self@.blocks,
    {
        &self.blocks
    }

    /// The innermost running invocation, if anything runs.
    pub fn current_frame(&self) -> (f: Option<&InvocationFrame>)
        ensures
            match f {
                Some(frame) => self@.frames.len() > 0 && frame@ == self@.frames.last(),
                None => self@.frames.len() == 0,
            },
    {
        if self.frames.len() == 0 {
            None
        } else {
            assert(frame_views(self.frames@).last() == self.frames@.last()@);
            Some(&self.frames[self.frames.len() - 1])
        }
    }

    /// The configuration.
    pub fn config(&self) -> (c: &EngineConfig)
        ensures
            c@ == self@.config,
    {
        &self.config
    }

    /// Gives the message up: every running invocation is dropped and the
    /// state is taken back to what it was before the message.
    fn give_up(&mut self)
        requires
            old(self).wf(),
        ensures
            final(self).wf(),
            final(self)@ == aborted_view(old(self)@),
    {
        let ghost before = self.frames@;
        while self.frames.len() > 1
            invariant
                self.wf(),
                self.frames@.len() <= before.len(),
                before.len() > 0 ==> self.frames@.len() > 0 && self.frames@[0] == before[0],
                before.len() == 0 ==> self.frames@.len() == 0,
                self.state@ == old(self).state@,
                self.blocks@ == old(self).blocks@,
                self.gas == old(self).gas,
                self.config == old(self).config,
                self.errors == old(self).errors,
            decreases self.frames@.len(),
        {
            self.frames.pop();
        }
        match self.frames.pop() {
            Some(frame) => {
                assert(frame == before[0]);
                assert(frame_views(before)[0] == before[0]@);
                self.state.revert(frame.snapshot);
            },
            None => {},
        }
        self.aborted = true;
        assert(frame_views(self.frames@) =~= Seq::empty());
    }

    /// Charges `amount` gas to the message. Where the gas does not suffice,
    /// all of it is used up; the failure is recoverable if an invocation
    /// inside the outermost one is running, and else the message is given up.
    pub fn charge_gas(&mut self, amount: u64) -> (r: Result<(), ExecutionError>)
        requires
            old(self).wf(),
        ensures
            final(self).wf(),
            final(self)@ == charge_view(old(self)@, amount),
            match charge_failure(old(self)@, amount) {
                None => r is Ok,
                Some(f) => failed_with(r, f),
            },
            old(self)@.gas_used <= final(self)@.gas_used <= final(self)@.gas_limit,
    {
        self.charge(amount)
    }

    fn charge(&mut self, amount: u64) -> (r: Result<(), ExecutionError>)
        requires
            old(self).wf(),
        ensures
            final(self).wf(),
            final(self)@ == charge_view(old(self)@, amount),
            match charge_failure(old(self)@, amount) {
                None => r is Ok,
                Some(f) => failed_with(r, f),
            },
            old(self)@.gas_used <= final(self)@.gas_used <= final(self)@.gas_limit,
            r is Ok ==> final(self).frames@ == old(self).frames@ && final(self).state == old(
                self,
            ).state && final(self).blocks == old(self).blocks && final(self).config == old(
                self,
            ).config && final(self).errors == old(self).errors,
    {
        match self.gas.charge(amount) {
            Ok(_) => Ok(()),
            Err(_) => {
                if self.frames.len() >= 2 {
                    Err(ExecutionError::syscall(ExitCode::SysErrOutOfGas, "out of gas"))
                } else {
                    self.give_up();
                    Err(ExecutionError::Fatal(FatalCause::OutOfGas))
                }
            },
        }
    }

    /// Ends the innermost invocation with `exit_code`. On success what it
    /// changed stays; on any other code the state goes back to what it was
    /// when the invocation was entered. The gas stays used either way.
    pub fn finish(&mut self, exit_code: ExitCode, return_data: Vec<u8>) -> (r: Result<
        InvocationResult,
        ExecutionError,
    >)
        requires
            old(self).wf(),
        ensures
            final(self).wf(),
            old(self)@.frames.len() == 0 ==> failed_with(
                r,
                FailureView::Fatal(FatalCause::NoActiveInvocation),
            ) && final(self)@ == old(self)@,
            old(self)@.frames.len() > 0 ==> final(self)@ == finish_view(old(self)@, exit_code) && (r
                matches Ok(res) && res.exit_code == exit_code && res.return_data@ == return_data@
                && res.gas_used == old(self)@.gas_used - old(self)@.frames.last().gas_at_entry),
    {
        let ghost before = self.frames@;
        match self.frames.pop() {
            None => Err(ExecutionError::Fatal(FatalCause::NoActiveInvocation)),
            Some(frame) => {
                assert(frame == before.last());
                assert(frame_views(before).last() == frame@);
                assert(frame_views(self.frames@) =~= frame_views(before).drop_last());
                let gas_used = self.gas.gas_used() - frame.gas_at_entry;
                if exit_code.is_success() {
                    if frame.destroyed {
                        self.state.remove(frame.receiver);
                    }
                } else {
                    self.state.revert(frame.snapshot);
                }
                Ok(InvocationResult { exit_code, return_data, gas_used })
            },
        }
    }

    fn refused(&self, exit_code: ExitCode, gas_before: u64) -> (r: Result<SendStep, ExecutionError>)
        requires
            gas_before <= self.gas.spec_used(),
        ensures
            r matches Ok(SendStep::Done(res)) && res.exit_code == exit_code
                && res.return_data@.len() == 0 && res.gas_used == self.gas.spec_used()
                - gas_before,
    {
        Ok(
            SendStep::Done(
                InvocationResult {
                    exit_code,
                    return_data: Vec::new(),
                    gas_used: self.gas.gas_used() - gas_before,
                },
            ),
        )
    }

    /// Deals with a message from `from` to `to`: checks it, moves `value`,
    /// and enters an invocation of `method` unless the message is a bare
    /// transfer. A receiver that has no record yet gets the record of an
    /// account where tokens come with the message. A message that is refused
    /// changes nothing but the gas used.
    pub fn send(
        &mut self,
        from: ActorID,
        to: ActorID,
        method: MethodNum,
        params: Vec<u8>,
        value: TokenAmount,
    ) -> (r: Result<SendStep, ExecutionError>)
        requires
            old(self).wf(),
        ensures
            final(self).wf(),
            final(self)@ == send_view(old(self)@, from, to, method, params@, value),
            send_result_matches(
                r,
                send_outcome(old(self)@, from, to, method, value),
                old(self)@,
                final(self)@,
                from,
                to,
                method,
                params@,
                value,
            ),
            old(self)@.gas_used <= final(self)@.gas_used <= final(self)@.gas_limit,
    {
        if self.aborted {
            return Err(ExecutionError::Fatal(FatalCause::Aborted));
        }
        let gas_before = self.gas.gas_used();
        if self.frames.len() >= self.config.max_call_depth as usize {
            return self.refused(ExitCode::SysErrForbidden, gas_before);
        }
        let cost = self.config.price_list.on_send(value, method);
        match self.charge_gas(cost) {
            Ok(_) => {},
            Err(e) => {
                return Err(e);
            },
        }
        let sender = match self.state.get(from) {
            Some(record) => record,
            None => {
                return self.refused(ExitCode::SysErrSenderInvalid, gas_before);
            },
        };
        if sender.balance < value {
            return self.refused(ExitCode::SysErrInsufficientFunds, gas_before);
        }
        let receiver = match self.state.get(to) {
            Some(record) => record,
            None => {
                if value == 0 {
                    return self.refused(ExitCode::SysErrInvalidReceiver, gas_before);
                }
                match self.charge_gas(self.config.price_list.create_actor) {
                    Ok(_) => {},
                    Err(e) => {
                        return Err(e);
                    },
                }
                ActorState::new(
                    self.config.account_code.duplicate(),
                    self.config.empty_state.duplicate(),
                    0,
                    0,
                )
            },
        };
        if to != from && value > u128::MAX - receiver.balance {
            self.give_up();
            return Err(ExecutionError::Fatal(FatalCause::BalanceOverflow));
        }
        let code = receiver.code.duplicate();
        let snapshot = self.state.snapshot();
        let ghost funded = if old(self)@.state.contains_key(to) {
            old(self)@.state
        } else {
            old(self)@.state.insert(to, new_account(old(self)@.config))
        };
        if to != from && value > 0 {
            let paid = ActorState { balance: sender.balance - value, ..sender };
            let credited = ActorState { balance: receiver.balance + value, ..receiver };
            self.state.set(from, paid);
            self.state.set(to, credited);
            assert(self.state@ =~= transfer_state(funded, from, to, value));
        } else {
            self.state.set(to, receiver);
            assert(self.state@ =~= transfer_state(funded, from, to, value));
        }
        if method == METHOD_SEND {
            return self.refused(ExitCode::OK, gas_before);
        }
        let ghost frames_before = self.frames@;
        let frame = InvocationFrame {
            caller: from,
            receiver: to,
            method,
            value,
            params: bytes_copy(params.as_slice()),
            gas_limit: self.gas.gas_limit(),
            gas_at_entry: gas_before,
            depth: (self.frames.len() + 1) as u32,
            snapshot,
            destroyed: false,
        };
        assert(frame@ == entered_frame(old(self)@, from, to, method, params@, value));
        self.frames.push(frame);
        assert(frame_views(self.frames@) =~= frame_views(frames_before).push(
            entered_frame(old(self)@, from, to, method, params@, value),
        ));
        Ok(SendStep::Invoke(Invocation { code, caller: from, receiver: to, method, params, value }))
    }

    /// Deals with a failure of the running code: a recoverable failure ends
    /// the innermost invocation with the failure's exit code and undoes what
    /// the invocation changed; a fatal one gives the message up.
    pub fn fail(&mut self, err: ExecutionError) -> (t: Trap)
        requires
            old(self).wf(),
        ensures
            final(self).wf(),
            final(self)@ == fail_view(old(self)@, err@),
            final(self)@.gas_used == old(self)@.gas_used,
            match err@ {
                FailureView::Fatal(cause) => t == Trap::Fatal(cause),
                FailureView::Syscall(code) => if old(self)@.frames.len() == 0 {
                    t == Trap::Fatal(FatalCause::NoActiveInvocation)
                } else {
                    t matches Trap::Exit(res) && res.exit_code == abort_code(code)
                        && res.return_data@.len() == 0 && res.gas_used == old(self)@.gas_used
                        - old(self)@.frames.last().gas_at_entry
                },
            },
    {
        match err {
            ExecutionError::Fatal(cause) => {
                self.give_up();
                Trap::Fatal(cause)
            },
            ExecutionError::Syscall(e) => {
                let code = if e.exit_code.is_success() {
                    ExitCode::SysErrIllegalArgument
                } else {
                    e.exit_code
                };
                if self.frames.len() == 0 {
                    self.give_up();
                    return Trap::Fatal(FatalCause::NoActiveInvocation);
                }
                match self.finish(code, Vec::new()) {
                    Ok(res) => Trap::Exit(res),
                    Err(_) => Trap::Fatal(FatalCause::NoActiveInvocation),
                }
            },
        }
    }

    /// Sends a message from the running actor. See `send`.
    pub fn call(&mut self, to: ActorID, method: MethodNum, params: Vec<u8>, value: TokenAmount) -> (r:
        Result<SendStep, ExecutionError>)
        requires
            old(self).wf(),
        ensures
            final(self).wf(),
            old(self)@.gas_used <= final(self)@.gas_used <= final(self)@.gas_limit,
            old(self)@.frames.len() == 0 ==> final(self)@ == old(self)@ && failed_with(
                r,
                FailureView::Fatal(FatalCause::NoActiveInvocation),
            ),
            old(self)@.frames.len() > 0 ==> {
                let from = old(self)@.frames.last().receiver;
                &&& final(self)@ == send_view(old(self)@, from, to, method, params@, value)
                &&& send_result_matches(
                    r,
                    send_outcome(old(self)@, from, to, method, value),
                    old(self)@,
                    final(self)@,
                    from,
                    to,
                    method,
                    params@,
                    value,
                )
            },
    {
        if self.frames.len() == 0 {
            return Err(ExecutionError::Fatal(FatalCause::NoActiveInvocation));
        }
        let from = self.frames[self.frames.len() - 1].receiver;
        assert(frame_views(self.frames@).last() == self.frames@.last()@);
        self.send(from, to, method, params, value)
    }

    /// Enters an operation of the kernel: there has to be a running
    /// invocation, and the cost is charged before anything is done.
    fn enter(&mut self, cost: u64) -> (r: Result<(), ExecutionError>)
        requires
            old(self).wf(),
        ensures
            final(self).wf(),
            final(self)@ == entry_view(old(self)@, cost),
            match entry_failure(old(self)@, cost) {
                Some(f) => failed_with(r, f),
                None => r is Ok && final(self)@.frames.len() > 0,
            },
            r is Ok ==> final(self).frames@ == old(self).frames@ && final(self).state == old(
                self,
            ).state && final(self).blocks == old(self).blocks && final(self).config == old(
                self,
            ).config && final(self).errors == old(self).errors,
            old(self)@.gas_used <= final(self)@.gas_used <= final(self)@.gas_limit,
    {
        if self.frames.len() == 0 {
            return Err(ExecutionError::Fatal(FatalCause::NoActiveInvocation));
        }
        self.charge(cost)
    }

    /// The actor that sent the message of the running invocation.
    pub fn caller(&mut self) -> (r: Result<ActorID, ExecutionError>)
        requires
            old(self).wf(),
        ensures
            final(self).wf(),
            final(self)@ == entry_view(old(self)@, old(self)@.config.price_list.syscall_base),
            read_result(
                r,
                old(self)@,
                old(self)@.config.price_list.syscall_base,
                old(self)@.frames.last().caller,
            ),
            old(self)@.gas_used <= final(self)@.gas_used <= final(self)@.gas_limit,
    {
        match self.enter(self.config.price_list.syscall_base) {
            Ok(_) => {},
            Err(e) => {
                return Err(e);
            },
        }
        assert(frame_views(self.frames@).last() == self.frames@.last()@);
        Ok(self.frames[self.frames.len() - 1].caller)
    }

    /// The actor whose code runs in the running invocation.
    pub fn receiver(&mut self) -> (r: Result<ActorID, ExecutionError>)
        requires
            old(self).wf(),
        ensures
            final(self).wf(),
            final(self)@ == entry_view(old(self)@, old(self)@.config.price_list.syscall_base),
            read_result(
                r,
                old(self)@,
                old(self)@.config.price_list.syscall_base,
                old(self)@.frames.last().receiver,
            ),
            old(self)@.gas_used <= final(self)@.gas_used <= final(self)@.gas_limit,
    {
        match self.enter(self.config.price_list.syscall_base) {
            Ok(_) => {},
            Err(e) => {
                return Err(e);
            },
        }
        assert(frame_views(self.frames@).last() == self.frames@.last()@);
        Ok(self.frames[self.frames.len() - 1].receiver)
    }

    /// The method that runs in the running invocation.
    pub fn method_number(&mut self) -> (r: Result<MethodNum, ExecutionError>)
        requires
            old(self).wf(),
        ensures
            final(self).wf(),
            final(self)@ == entry_view(old(self)@, old(self)@.config.price_list.syscall_base),
            read_result(
                r,
                old(self)@,
                old(self)@.config.price_list.syscall_base,
                old(self)@.frames.last().method,
            ),
            old(self)@.gas_used <= final(self)@.gas_used <= final(self)@.gas_limit,
    {
        match self.enter(self.config.price_list.syscall_base) {
            Ok(_) => {},
            Err(e) => {
                return Err(e);
            },
        }
        assert(frame_views(self.frames@).last() == self.frames@.last()@);
        Ok(self.frames[self.frames.len() - 1].method)
    }

    /// The tokens that came with the message of the running invocation.
    pub fn value_received(&mut self) -> (r: Result<TokenAmount, ExecutionError>)
        requires
            old(self).wf(),
        ensures
            final(self).wf(),
            final(self)@ == entry_view(old(self)@, old(self)@.config.price_list.syscall_base),
            read_result(
                r,
                old(self)@,
                old(self)@.config.price_list.syscall_base,
                old(self)@.frames.last().value,
            ),
            old(self)@.gas_used <= final(self)@.gas_used <= final(self)@.gas_limit,
    {
        match self.enter(self.config.price_list.syscall_base) {
            Ok(_) => {},
            Err(e) => {
                return Err(e);
            },
        }
        assert(frame_views(self.frames@).last() == self.frames@.last()@);
        Ok(self.frames[self.frames.len() - 1].value)
    }

    /// The codec and the bytes of the parameters that came with the message
    /// of the running invocation.
    pub fn params_raw(&mut self) -> (r: Result<(u64, Vec<u8>), ExecutionError>)
        requires
            old(self).wf(),
        ensures
            final(self).wf(),
            final(self)@ == entry_view(old(self)@, old(self)@.config.price_list.block_read_base),
            match entry_failure(old(self)@, old(self)@.config.price_list.block_read_base) {
                Some(f) => failed_with(r, f),
                None => r matches Ok(found) && found.0 == DAG_CBOR && found.1@
                    == old(self)@.frames.last().params,
            },
            old(self)@.gas_used <= final(self)@.gas_used <= final(self)@.gas_limit,
    {
        match self.enter(self.config.price_list.block_read_base) {
            Ok(_) => {},
            Err(e) => {
                return Err(e);
            },
        }
        assert(frame_views(self.frames@).last() == self.frames@.last()@);
        let params = bytes_copy(self.frames[self.frames.len() - 1].params.as_slice());
        Ok((DAG_CBOR, params))
    }

    /// The balance of the running actor.
    pub fn current_balance(&mut self) -> (r: Result<TokenAmount, ExecutionError>)
        requires
            old(self).wf(),
        ensures
            final(self).wf(),
            final(self)@ == entry_view(old(self)@, old(self)@.config.price_list.state_read),
            match actor_read_failure(old(self)@, old(self)@.config.price_list.state_read) {
                Some(f) => failed_with(r, f),
                None => r == Ok::<TokenAmount, ExecutionError>(
                    old(self)@.state[old(self)@.frames.last().receiver].balance,
                ),
            },
            old(self)@.gas_used <= final(self)@.gas_used <= final(self)@.gas_limit,
    {
        match self.enter(self.config.price_list.state_read) {
            Ok(_) => {},
            Err(e) => {
                return Err(e);
            },
        }
        assert(frame_views(self.frames@).last() == self.frames@.last()@);
        let me = self.frames[self.frames.len() - 1].receiver;
        match self.state.balance_of(me) {
            Some(balance) => Ok(balance),
            None => Err(ExecutionError::syscall(ExitCode::SysErrIllegalActor, "actor not found")),
        }
    }

    /// The root of the state of the running actor.
    pub fn get_root(&mut self) -> (r: Result<Cid, ExecutionError>)
        requires
            old(self).wf(),
        ensures
            final(self).wf(),
            final(self)@ == entry_view(old(self)@, old(self)@.config.price_list.state_read),
            match actor_read_failure(old(self)@, old(self)@.config.price_list.state_read) {
                Some(f) => failed_with(r, f),
                None => r matches Ok(root) && root@
                    == old(self)@.state[old(self)@.frames.last().receiver].state,
            },
            old(self)@.gas_used <= final(self)@.gas_used <= final(self)@.gas_limit,
    {
        match self.enter(self.config.price_list.state_read) {
            Ok(_) => {},
            Err(e) => {
                return Err(e);
            },
        }
        assert(frame_views(self.frames@).last() == self.frames@.last()@);
        let me = self.frames[self.frames.len() - 1].receiver;
        match self.state.get(me) {
            Some(record) => Ok(record.state),
            None => Err(ExecutionError::syscall(ExitCode::SysErrIllegalActor, "actor not found")),
        }
    }

    /// Makes `root` the root of the state of the running actor. A block has
    /// to have been written under `root`.
    pub fn set_root(&mut self, root: &Cid) -> (r: Result<(), ExecutionError>)
        requires
            old(self).wf(),
        ensures
            final(self).wf(),
            final(self)@ == set_root_view(old(self)@, root@),
            match set_root_failure(old(self)@, root@) {
                Some(f) => failed_with(r, f),
                None => r is Ok,
            },
            old(self)@.gas_used <= final(self)@.gas_used <= final(self)@.gas_limit,
    {
        match self.enter(self.config.price_list.state_write) {
            Ok(_) => {},
            Err(e) => {
                return Err(e);
            },
        }
        assert(frame_views(self.frames@).last() == self.frames@.last()@);
        if !self.blocks.has(root) {
            return Err(
                ExecutionError::syscall(ExitCode::SysErrIllegalArgument, "root is not reachable"),
            );
        }
        let me = self.frames[self.frames.len() - 1].receiver;
        match self.state.get(me) {
            Some(record) => {
                let updated = ActorState { state: root.duplicate(), ..record };
                self.state.set(me, updated);
                Ok(())
            },
            None => Err(ExecutionError::syscall(ExitCode::SysErrIllegalActor, "actor not found")),
        }
    }

    /// Destroys the running actor: its balance goes to `beneficiary`, which
    /// cannot be the actor itself, and its record goes when the invocation is
    /// committed.
    pub fn self_destruct(&mut self, beneficiary: ActorID) -> (r: Result<(), ExecutionError>)
        requires
            old(self).wf(),
        ensures
            final(self).wf(),
            final(self)@ == self_destruct_view(old(self)@, beneficiary),
            match self_destruct_failure(old(self)@, beneficiary) {
                Some(f) => failed_with(r, f),
                None => r is Ok,
            },
            old(self)@.gas_used <= final(self)@.gas_used <= final(self)@.gas_limit,
    {
        match self.enter(self.config.price_list.self_destruct) {
            Ok(_) => {},
            Err(e) => {
                return Err(e);
            },
        }
        assert(frame_views(self.frames@).last() == self.frames@.last()@);
        let me = self.frames[self.frames.len() - 1].receiver;
        if beneficiary == me {
            return Err(
                ExecutionError::syscall(
                    ExitCode::SysErrIllegalArgument,
                    "an actor cannot be its own beneficiary",
                ),
            );
        }
        let own = match self.state.get(me) {
            Some(record) => record,
            None => {
                return Err(
                    ExecutionError::syscall(ExitCode::SysErrIllegalActor, "actor not found"),
                );
            },
        };
        let heir = match self.state.get(beneficiary) {
            Some(record) => record,
            None => {
                return Err(
                    ExecutionError::syscall(
                        ExitCode::SysErrInvalidReceiver,
                        "beneficiary not found",
                    ),
                );
            },
        };
        if own.balance > u128::MAX - heir.balance {
            self.give_up();
            return Err(ExecutionError::Fatal(FatalCause::BalanceOverflow));
        }
        let value = own.balance;
        if value > 0 {
            let credited = ActorState { balance: heir.balance + value, ..heir };
            let emptied = ActorState { balance: 0, ..own };
            self.state.set(me, emptied);
            self.state.set(beneficiary, credited);
        }
        assert(self.state@ =~= transfer_state(old(self)@.state, me, beneficiary, value));
        let ghost frames_before = self.frames@;
        match self.frames.pop() {
            Some(frame) => {
                let marked = InvocationFrame { destroyed: true, ..frame };
                self.frames.push(marked);
                assert(frame_views(self.frames@) =~= mark_destroyed(frame_views(frames_before)));
            },
            None => {},
        }
        Ok(())
    }

    /// Writes a block of the given codec and returns its identifier, made
    /// with the 256-bit BLAKE2b hash of the data.
    pub fn block_put(&mut self, codec: u64, data: &[u8]) -> (r: Result<Cid, ExecutionError>)
        requires
            old(self).wf(),
        ensures
            final(self).wf(),
            old(self)@.gas_used <= final(self)@.gas_used <= final(self)@.gas_limit,
            final(self)@ == block_put_view(old(self)@, codec, data@),
            ({
                let v = old(self)@;
                let cost = v.config.price_list.spec_on_block_write(data@.len());
                let entered = entry_view(v, cost);
                match entry_failure(v, cost) {
                    Some(f) => failed_with(r, f) && final(self)@ == entered,
                    None => match block_cid(codec, BLAKE2B_256, data@) {
                        Some(cid) => r matches Ok(k) && k@ == cid && final(self)@ == (EngineView {
                            blocks: v.blocks.insert(cid, data@),
                            ..entered
                        }),
                        None => failed_with(
                            r,
                            FailureView::Syscall(ExitCode::SysErrIllegalArgument),
                        ) && final(self)@ == entered,
                    },
                }
            }),
    {
        match self.enter(self.config.price_list.on_block_write(data.len())) {
            Ok(_) => {},
            Err(e) => {
                return Err(e);
            },
        }
        let block = Block::new(codec, bytes_copy(data));
        match self.blocks.put(BLAKE2B_256, &block) {
            Ok(cid) => Ok(cid),
            Err(_) => Err(
                ExecutionError::syscall(ExitCode::SysErrIllegalArgument, "unsupported hash"),
            ),
        }
    }

    /// Reads the block that was written under `cid`.
    pub fn block_get(&mut self, cid: &Cid) -> (r: Result<Vec<u8>, ExecutionError>)
        requires
            old(self).wf(),
        ensures
            final(self).wf(),
            final(self)@ == entry_view(old(self)@, old(self)@.config.price_list.block_read_base),
            old(self)@.gas_used <= final(self)@.gas_used <= final(self)@.gas_limit,
            match entry_failure(old(self)@, old(self)@.config.price_list.block_read_base) {
                Some(f) => failed_with(r, f),
                None => if old(self)@.blocks.contains_key(cid@) {
                    r matches Ok(data) && data@ == old(self)@.blocks[cid@]
                } else {
                    failed_with(r, FailureView::Syscall(ExitCode::SysErrIllegalArgument))
                },
            },
    {
        match self.enter(self.config.price_list.block_read_base) {
            Ok(_) => {},
            Err(e) => {
                return Err(e);
            },
        }
        match self.blocks.get(cid) {
            Ok(Some(data)) => Ok(data),
            _ => Err(ExecutionError::syscall(ExitCode::SysErrIllegalArgument, "block not found")),
        }
    }

    /// The 256-bit BLAKE2b hash of `data`.
    pub fn hash_blake2b(&mut self, data: &[u8]) -> (r: Result<Vec<u8>, ExecutionError>)
        requires
            old(self).wf(),
        ensures
            final(self).wf(),
            final(self)@ == entry_view(
                old(self)@,
                old(self)@.config.price_list.spec_on_hashing(data@.len()),
            ),
            old(self)@.gas_used <= final(self)@.gas_used <= final(self)@.gas_limit,
            match entry_failure(
                old(self)@,
                old(self)@.config.price_list.spec_on_hashing(data@.len()),
            ) {
                Some(f) => failed_with(r, f),
                None => r matches Ok(digest) && digest@ == blake2b_256_spec(data@) && digest@.len()
                    == 32,
            },
    {
        match self.enter(self.config.price_list.on_hashing(data.len())) {
            Ok(_) => {},
            Err(e) => {
                return Err(e);
            },
        }
        Ok(blake2b_256(data))
    }

    /// Whether `signature` is a signature over `plaintext` by the key that
    /// `signer` stands for. An address that names no key, and a signature or
    /// key that is malformed, give false.
    pub fn verify_signature(
        &mut self,
        signature: &Signature,
        signer: &Address,
        plaintext: &[u8],
    ) -> (r: Result<bool, ExecutionError>)
        requires
            old(self).wf(),
        ensures
            final(self).wf(),
            final(self)@ == entry_view(
                old(self)@,
                verify_cost(old(self)@.config.price_list, signature.spec_type()),
            ),
            old(self)@.gas_used <= final(self)@.gas_used <= final(self)@.gas_limit,
            match entry_failure(
                old(self)@,
                verify_cost(old(self)@.config.price_list, signature.spec_type()),
            ) {
                Some(f) => failed_with(r, f),
                None => r == Ok::<bool, ExecutionError>(
                    verify_spec(signature.spec_bytes(), plaintext@, signer@) is Ok,
                ),
            },
    {
        let cost = match signature.signature_type() {
            SignatureType::BLS => self.config.price_list.verify_bls,
            SignatureType::Secp256k1 => self.config.price_list.verify_secp256k1,
        };
        match self.enter(cost) {
            Ok(_) => {},
            Err(e) => {
                return Err(e);
            },
        }
        Ok(verify(signature, plaintext, signer).is_ok())
    }

    /// Whether `aggregate_sig` is the aggregate BLS signature of `data` under
    /// `pub_keys`, one key for each message.
    pub fn verify_aggregate(
        &mut self,
        aggregate_sig: &Signature,
        data: &[&[u8]],
        pub_keys: &[&[u8]],
    ) -> (r: Result<bool, ExecutionError>)
        requires
            old(self).wf(),
        ensures
            final(self).wf(),
            final(self)@ == entry_view(
                old(self)@,
                old(self)@.config.price_list.spec_on_verify_aggregate(pub_keys@.len()),
            ),
            old(self)@.gas_used <= final(self)@.gas_used <= final(self)@.gas_limit,
            match entry_failure(
                old(self)@,
                old(self)@.config.price_list.spec_on_verify_aggregate(pub_keys@.len()),
            ) {
                Some(f) => failed_with(r, f),
                None => r == Ok::<bool, ExecutionError>(
                    verify_bls_aggregate_spec(
                        byte_strings(data@),
                        byte_strings(pub_keys@),
                        aggregate_sig.spec_bytes(),
                    ),
                ),
            },
    {
        match self.enter(self.config.price_list.on_verify_aggregate(pub_keys.len())) {
            Ok(_) => {},
            Err(e) => {
                return Err(e);
            },
        }
        Ok(verify_bls_aggregate(data, pub_keys, aggregate_sig))
    }
}

} // verus!
