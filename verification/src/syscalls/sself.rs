//! The system calls with which an actor reads and changes its own record.

use vstd::prelude::*;
use crate::address::{parse_address, Address, Protocol};
use crate::call_manager::{
    actor_read_failure, entry_view, self_destruct_failure, self_destruct_view,
    set_root_failure, set_root_view, CallManager, EngineView, Trap,
};
use crate::encoding::{cid_bytes, cid_from_bytes, cid_to_bytes, decode_cid};
use crate::error::{ExecutionError, ExitCode, FailureView, FatalCause};
use crate::ipld::CidView;
use crate::state_tree::ActorID;
use crate::syscalls::{
    in_bounds, memory_with, or_trap, settled, split_token_amount, token_halves, try_slice,
    try_write,
};

verus! {

/// The content identifier that a system call is handed in memory, if the
/// range lies inside the memory and holds the bytes of one.
pub open spec fn cid_argument(memory: Seq<u8>, offset: u32, len: u32) -> Option<CidView> {
    if in_bounds(memory.len(), offset, len) {
        decode_cid(memory.subrange(offset as int, offset + len))
    } else {
        None
    }
}

/// The actor that a system call is handed in memory as an address, if the
/// range lies inside the memory and holds the bytes of an identifier
/// address.
pub open spec fn actor_argument(memory: Seq<u8>, offset: u32, len: u32) -> Option<ActorID> {
    if in_bounds(memory.len(), offset, len) {
        match parse_address(memory.subrange(offset as int, offset + len)) {
            Ok(a) => if a.protocol == Protocol::ID {
                Some(a.id)
            } else {
                None
            },
            Err(_) => None,
        }
    } else {
        None
    }
}

/// How `get_root` ends: the failure that stops the running code, if there
/// is one. The buffer that is too small is none.
pub open spec fn get_root_failure(
    v: EngineView,
    memory_len: nat,
    obuf_off: u32,
    obuf_len: u32,
) -> Option<FailureView> {
    let cost = v.config.price_list.state_read;
    if actor_read_failure(v, cost) is Some {
        actor_read_failure(v, cost)
    } else {
        let len = cid_bytes(v.state[v.frames.last().receiver].state).len();
        if len > u32::MAX {
            Some(FailureView::Fatal(FatalCause::CorruptIdentifier))
        } else if len <= obuf_len && !in_bounds(memory_len, obuf_off, len as u32) {
            Some(FailureView::Syscall(ExitCode::SysErrIllegalArgument))
        } else {
            None
        }
    }
}

/// Writes the root of the running actor's state, as the bytes of a content
/// identifier, into the buffer of `obuf_len` bytes at `obuf_off`, and
/// returns the number of bytes of the identifier. Where the buffer is too
/// small, which the caller sees by the number, nothing is written and the
/// call succeeds all the same: the caller can come again with a larger
/// buffer. A buffer that is large enough but lies outside the memory is an
/// illegal argument.
pub fn get_root(kernel: &mut CallManager, memory: &mut [u8], obuf_off: u32, obuf_len: u32) -> (r:
    Result<u32, Trap>)
    requires
        old(kernel).wf(),
    ensures
        final(kernel).wf(),
        final(memory)@.len() == old(memory)@.len(),
        ({
            let v = old(kernel)@;
            let cost = v.config.price_list.state_read;
            let failure = get_root_failure(v, old(memory)@.len(), obuf_off, obuf_len);
            let bytes = cid_bytes(v.state[v.frames.last().receiver].state);
            &&& final(kernel)@ == settled(entry_view(v, cost), failure)
            &&& failure is Some ==> r is Err && final(memory)@ == old(memory)@
            &&& failure is None ==> r == Ok::<u32, Trap>(bytes.len() as u32) && final(memory)@
                == if bytes.len() <= obuf_len {
                memory_with(old(memory)@, obuf_off, bytes)
            } else {
                old(memory)@
            }
        }),
{
    let outcome = kernel.get_root();
    let root = match or_trap(kernel, outcome) {
        Ok(root) => root,
        Err(trap) => {
            return Err(trap);
        },
    };
    let bytes = cid_to_bytes(&root);
    if bytes.len() > u32::MAX as usize {
        return Err(kernel.fail(ExecutionError::Fatal(FatalCause::CorruptIdentifier)));
    }
    let len = bytes.len() as u32;
    if len > obuf_len {
        // The buffer is too small: the caller learns the length it needs.
        return Ok(len);
    }
    let written = try_write(memory, obuf_off, bytes.as_slice());
    match or_trap(kernel, written) {
        Ok(_) => Ok(len),
        Err(trap) => Err(trap),
    }
}

/// How `set_root` ends: the failure that stops the running code, if there
/// is one.
pub open spec fn set_root_call_failure(v: EngineView, root: Option<CidView>) -> Option<
    FailureView,
> {
    match root {
        Some(cid) => set_root_failure(v, cid),
        None => Some(FailureView::Syscall(ExitCode::SysErrIllegalArgument)),
    }
}

/// Makes the content identifier whose bytes lie in the range of `cid_len`
/// bytes at `cid_off` the root of the running actor's state.
pub fn set_root(kernel: &mut CallManager, memory: &[u8], cid_off: u32, cid_len: u32) -> (r: Result<
    (),
    Trap,
>)
    requires
        old(kernel).wf(),
    ensures
        final(kernel).wf(),
        ({
            let v = old(kernel)@;
            let root = cid_argument(memory@, cid_off, cid_len);
            let failure = set_root_call_failure(v, root);
            &&& r is Ok <==> failure is None
            &&& final(kernel)@ == settled(
                match root {
                    Some(cid) => set_root_view(v, cid),
                    None => v,
                },
                failure,
            )
        }),
{
    let bytes = match try_slice(memory, cid_off, cid_len) {
        Ok(bytes) => bytes,
        Err(e) => {
            return Err(kernel.fail(e));
        },
    };
    let root = match cid_from_bytes(bytes) {
        Some(root) => root,
        None => {
            return Err(
                kernel.fail(
                    ExecutionError::syscall(ExitCode::SysErrIllegalArgument, "invalid cid"),
                ),
            );
        },
    };
    let outcome = kernel.set_root(&root);
    or_trap(kernel, outcome)
}

/// The balance of the running actor, as the low and the high 64 bits of the
/// amount.
pub fn current_balance(kernel: &mut CallManager) -> (r: Result<(u64, u64), Trap>)
    requires
        old(kernel).wf(),
    ensures
        final(kernel).wf(),
        ({
            let v = old(kernel)@;
            let cost = v.config.price_list.state_read;
            let failure = actor_read_failure(v, cost);
            &&& final(kernel)@ == settled(entry_view(v, cost), failure)
            &&& failure is Some ==> r is Err
            &&& failure is None ==> r == Ok::<(u64, u64), Trap>(
                token_halves(v.state[v.frames.last().receiver].balance),
            )
        }),
{
    let outcome = kernel.current_balance();
    match or_trap(kernel, outcome) {
        Ok(balance) => Ok(split_token_amount(balance)),
        Err(trap) => Err(trap),
    }
}

/// How `self_destruct` ends: the failure that stops the running code, if
/// there is one.
pub open spec fn self_destruct_call_failure(v: EngineView, beneficiary: Option<ActorID>) -> Option<
    FailureView,
> {
    match beneficiary {
        Some(id) => self_destruct_failure(v, id),
        None => Some(FailureView::Syscall(ExitCode::SysErrIllegalArgument)),
    }
}

/// Destroys the running actor and hands its balance to the actor whose
/// address lies in the range of `addr_len` bytes at `addr_off`. The address
/// has to be an identifier address, and not the actor's own.
pub fn self_destruct(kernel: &mut CallManager, memory: &[u8], addr_off: u32, addr_len: u32) -> (r:
    Result<(), Trap>)
    requires
        old(kernel).wf(),
    ensures
        final(kernel).wf(),
        ({
            let v = old(kernel)@;
            let beneficiary = actor_argument(memory@, addr_off, addr_len);
            let failure = self_destruct_call_failure(v, beneficiary);
            &&& r is Ok <==> failure is None
            &&& final(kernel)@ == settled(
                match beneficiary {
                    Some(id) => self_destruct_view(v, id),
                    None => v,
                },
                failure,
            )
        }),
{
    let bytes = match try_slice(memory, addr_off, addr_len) {
        Ok(bytes) => bytes,
        Err(e) => {
            return Err(kernel.fail(e));
        },
    };
    let beneficiary = match Address::from_bytes(bytes) {
        Ok(address) => address.id(),
        Err(_) => None,
    };
    match beneficiary {
        Some(id) => {
            let outcome = kernel.self_destruct(id);
            or_trap(kernel, outcome)
        },
        None => Err(
            kernel.fail(
                ExecutionError::syscall(
                    ExitCode::SysErrIllegalArgument,
                    "beneficiary is no identifier address",
                ),
            ),
        ),
    }
}

} // verus!
