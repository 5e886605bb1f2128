//! The system calls that tell an actor about the message it was sent.

use vstd::prelude::*;
use crate::call_manager::{
    entry_failure, entry_view, CallManager, EngineView, MethodNum, Trap,
};
use crate::error::{ExecutionError, ExitCode, FailureView};
use crate::ipld::DAG_CBOR;
use crate::state_tree::ActorID;
use crate::syscalls::{
    in_bounds, memory_with, or_trap, settled, split_token_amount, token_halves, try_write,
};

verus! {

/// Whether a system call that only reads returned what it had to: `value`,
/// unless the operation failed at its entry, which stops the running code.
pub open spec fn read_call<T>(r: Result<T, Trap>, v: EngineView, cost: u64, value: T) -> bool {
    if entry_failure(v, cost) is Some {
        r is Err
    } else {
        r == Ok::<T, Trap>(value)
    }
}

/// The call manager after a system call that only reads, at the given cost.
pub open spec fn read_call_view(v: EngineView, cost: u64) -> EngineView {
    settled(entry_view(v, cost), entry_failure(v, cost))
}

/// The identifier of the actor that sent the message.
pub fn caller(kernel: &mut CallManager) -> (r: Result<ActorID, Trap>)
    requires
        old(kernel).wf(),
    ensures
        final(kernel).wf(),
        final(kernel)@ == read_call_view(old(kernel)@, old(kernel)@.config.price_list.syscall_base),
        read_call(
            r,
            old(kernel)@,
            old(kernel)@.config.price_list.syscall_base,
            old(kernel)@.frames.last().caller,
        ),
{
    let outcome = kernel.caller();
    or_trap(kernel, outcome)
}

/// The identifier of the actor that runs.
pub fn receiver(kernel: &mut CallManager) -> (r: Result<ActorID, Trap>)
    requires
        old(kernel).wf(),
    ensures
        final(kernel).wf(),
        final(kernel)@ == read_call_view(old(kernel)@, old(kernel)@.config.price_list.syscall_base),
        read_call(
            r,
            old(kernel)@,
            old(kernel)@.config.price_list.syscall_base,
            old(kernel)@.frames.last().receiver,
        ),
{
    let outcome = kernel.receiver();
    or_trap(kernel, outcome)
}

/// The number of the method that runs.
pub fn method_number(kernel: &mut CallManager) -> (r: Result<MethodNum, Trap>)
    requires
        old(kernel).wf(),
    ensures
        final(kernel).wf(),
        final(kernel)@ == read_call_view(old(kernel)@, old(kernel)@.config.price_list.syscall_base),
        read_call(
            r,
            old(kernel)@,
            old(kernel)@.config.price_list.syscall_base,
            old(kernel)@.frames.last().method,
        ),
{
    let outcome = kernel.method_number();
    or_trap(kernel, outcome)
}

/// The tokens that came with the message, as the low and the high 64 bits
/// of the amount.
pub fn value_received(kernel: &mut CallManager) -> (r: Result<(u64, u64), Trap>)
    requires
        old(kernel).wf(),
    ensures
        final(kernel).wf(),
        final(kernel)@ == read_call_view(old(kernel)@, old(kernel)@.config.price_list.syscall_base),
        read_call(
            r,
            old(kernel)@,
            old(kernel)@.config.price_list.syscall_base,
            token_halves(old(kernel)@.frames.last().value),
        ),
{
    let outcome = kernel.value_received();
    match or_trap(kernel, outcome) {
        Ok(value) => Ok(split_token_amount(value)),
        Err(trap) => Err(trap),
    }
}

/// How `params_raw` ends: the failure that stops the running code, if there
/// is one. The buffer that is too small is none.
pub open spec fn params_failure(
    v: EngineView,
    memory_len: nat,
    obuf_off: u32,
    obuf_len: u32,
) -> Option<FailureView> {
    let cost = v.config.price_list.block_read_base;
    if entry_failure(v, cost) is Some {
        entry_failure(v, cost)
    } else {
        let len = v.frames.last().params.len();
        if len > u32::MAX {
            Some(FailureView::Syscall(ExitCode::SysErrIllegalArgument))
        } else if len <= obuf_len && !in_bounds(memory_len, obuf_off, len as u32) {
            Some(FailureView::Syscall(ExitCode::SysErrIllegalArgument))
        } else {
            None
        }
    }
}

/// Writes the parameters of the message into the buffer of `obuf_len`
/// bytes at `obuf_off`, and returns their codec and their length. Where the
/// buffer is too small, which the caller sees by the length, nothing is
/// written and the call succeeds all the same.
pub fn params_raw(kernel: &mut CallManager, memory: &mut [u8], obuf_off: u32, obuf_len: u32) -> (r:
    Result<(u64, u32), Trap>)
    requires
        old(kernel).wf(),
    ensures
        final(kernel).wf(),
        final(memory)@.len() == old(memory)@.len(),
        ({
            let v = old(kernel)@;
            let cost = v.config.price_list.block_read_base;
            let failure = params_failure(v, old(memory)@.len(), obuf_off, obuf_len);
            let params = v.frames.last().params;
            &&& final(kernel)@ == settled(entry_view(v, cost), failure)
            &&& failure is Some ==> r is Err && final(memory)@ == old(memory)@
            &&& failure is None ==> r == Ok::<(u64, u32), Trap>((DAG_CBOR, params.len() as u32))
                && final(memory)@ == if params.len() <= obuf_len {
                memory_with(old(memory)@, obuf_off, params)
            } else {
                old(memory)@
            }
        }),
{
    let outcome = kernel.params_raw();
    let (codec, params) = match or_trap(kernel, outcome) {
        Ok(found) => found,
        Err(trap) => {
            return Err(trap);
        },
    };
    if params.len() > u32::MAX as usize {
        return Err(
            kernel.fail(
                ExecutionError::syscall(ExitCode::SysErrIllegalArgument, "parameters too long"),
            ),
        );
    }
    let len = params.len() as u32;
    if len > obuf_len {
        // The buffer is too small: the caller learns the length it needs.
        return Ok((codec, len));
    }
    let written = try_write(memory, obuf_off, params.as_slice());
    match or_trap(kernel, written) {
        Ok(_) => Ok((codec, len)),
        Err(trap) => Err(trap),
    }
}

} // verus!
