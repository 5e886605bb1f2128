//! The bridge between the sandbox and the kernel: each system call takes
//! numbers and ranges of the sandbox's memory, checks them, calls the kernel,
//! and hands back a result or a trap that ends the running code.

pub mod crypto;
pub mod message;
pub mod sself;
pub mod vm;

use vstd::prelude::*;
use vstd::slice::slice_subrange;
use crate::call_manager::{fail_view, CallManager, EngineView, Trap};
use crate::error::{ExecutionError, ExitCode, FailureView};
use crate::state_tree::TokenAmount;

verus! {

/// Whether the range of `len` bytes at `offset` lies inside a memory of
/// `memory_len` bytes.
pub open spec fn in_bounds(memory_len: nat, offset: u32, len: u32) -> bool {
    offset + len <= memory_len
}

/// The range of `len` bytes at `offset` of the sandbox's memory. A range
/// that does not lie inside the memory is an illegal argument.
pub fn try_slice<'a>(memory: &'a [u8], offset: u32, len: u32) -> (r: Result<
    &'a [u8],
    ExecutionError,
>)
    ensures
        match r {
            Ok(bytes) => in_bounds(memory@.len(), offset, len) && bytes@ == memory@.subrange(
                offset as int,
                offset + len,
            ),
            Err(e) => !in_bounds(memory@.len(), offset, len) && e@ == FailureView::Syscall(
                ExitCode::SysErrIllegalArgument,
            ),
        },
{
    let start = offset as usize;
    let count = len as usize;
    if start > memory.len() || count > memory.len() - start {
        return Err(ExecutionError::syscall(ExitCode::SysErrIllegalArgument, "buffer out of bounds"));
    }
    Ok(slice_subrange(memory, start, start + count))
}

/// The memory after `data` was written at `offset`.
pub open spec fn memory_with(memory: Seq<u8>, offset: u32, data: Seq<u8>) -> Seq<u8> {
    memory.subrange(0, offset as int) + data + memory.subrange(
        offset + data.len(),
        memory.len() as int,
    )
}

/// The call manager after an operation that left it as `v` and failed with
/// `failure`, if it failed: the failure is dealt with.
pub open spec fn settled(v: EngineView, failure: Option<FailureView>) -> EngineView {
    match failure {
        Some(f) => fail_view(v, f),
        None => v,
    }
}

/// Writes `data` into the sandbox's memory at `offset`. A range that does
/// not lie inside the memory is an illegal argument, and nothing is written.
pub fn try_write(memory: &mut [u8], offset: u32, data: &[u8]) -> (r: Result<(), ExecutionError>)
    ensures
        final(memory)@.len() == old(memory)@.len(),
        match r {
            Ok(_) => offset + data@.len() <= old(memory)@.len() && final(memory)@ == memory_with(
                old(memory)@,
                offset,
                data@,
            ),
            Err(e) => offset + data@.len() > old(memory)@.len() && e@ == FailureView::Syscall(
                ExitCode::SysErrIllegalArgument,
            ) && final(memory)@ == old(memory)@,
        },
{
    let start = offset as usize;
    if start > memory.len() || data.len() > memory.len() - start {
        return Err(ExecutionError::syscall(ExitCode::SysErrIllegalArgument, "buffer out of bounds"));
    }
    let mut i: usize = 0;
    while i < data.len()
        invariant
            i <= data@.len(),
            start + data@.len() <= memory@.len() <= usize::MAX,
            memory@.len() == old(memory)@.len(),
            forall|j: int| 0 <= j < start ==> memory@[j] == old(memory)@[j],
            forall|j: int| 0 <= j < i ==> memory@[start + j] == data@[j],
            forall|j: int| start + i <= j < memory@.len() ==> memory@[j] == old(memory)@[j],
        decreases data@.len() - i,
    {
        memory[start + i] = data[i];
        i = i + 1;
    }
    assert(memory@ =~= memory_with(old(memory)@, offset, data@));
    Ok(())
}

/// Hands on what an operation of the kernel returned; where it failed, the
/// failure is dealt with first, and the running code is stopped by a trap.
pub fn or_trap<T>(kernel: &mut CallManager, outcome: Result<T, ExecutionError>) -> (r: Result<
    T,
    Trap,
>)
    requires
        old(kernel).wf(),
    ensures
        final(kernel).wf(),
        match outcome {
            Ok(value) => r == Ok::<T, Trap>(value) && final(kernel)@ == old(kernel)@,
            Err(e) => r is Err && final(kernel)@ == fail_view(old(kernel)@, e@),
        },
        final(kernel)@.gas_used == old(kernel)@.gas_used,
{
    match outcome {
        Ok(value) => Ok(value),
        Err(e) => Err(kernel.fail(e)),
    }
}

/// The low and the high 64 bits of a token amount.
pub open spec fn token_halves(amount: TokenAmount) -> (u64, u64) {
    ((amount % 0x1_0000_0000_0000_0000) as u64, (amount / 0x1_0000_0000_0000_0000) as u64)
}

/// The token amount with the given low and high 64 bits.
pub open spec fn token_from_halves(lo: u64, hi: u64) -> TokenAmount {
    (hi * 0x1_0000_0000_0000_0000 + lo) as u128
}

/// Splits a token amount into its low and its high 64 bits, as the system
/// calls hand it over.
pub fn split_token_amount(amount: TokenAmount) -> (halves: (u64, u64))
    ensures
        halves == token_halves(amount),
        token_from_halves(halves.0, halves.1) == amount,
{
    let lo = (amount % 0x1_0000_0000_0000_0000) as u64;
    let hi = (amount / 0x1_0000_0000_0000_0000) as u64;
    (lo, hi)
}

/// Puts a token amount together from its low and its high 64 bits.
pub fn join_token_amount(lo: u64, hi: u64) -> (amount: TokenAmount)
    ensures
        amount == token_from_halves(lo, hi),
        token_halves(amount) == (lo, hi),
{
    let wide: u128 = hi as u128;
    wide * 0x1_0000_0000_0000_0000 + lo as u128
}

/// Splitting a token amount and putting the halves together gives the
/// amount back, and the other way round.
pub proof fn lemma_token_halves_round_trip(amount: TokenAmount, lo: u64, hi: u64)
    ensures
        token_from_halves(token_halves(amount).0, token_halves(amount).1) == amount,
        token_halves(token_from_halves(lo, hi)) == (lo, hi),
{
}

} // verus!
