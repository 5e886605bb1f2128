//! The system call with which an actor gives up.

use vstd::prelude::*;
use vstd::string::StringExecFns;
use vstd::utf8::{decode_utf8, valid_utf8};
use crate::call_manager::{fail_view, CallManager, EngineView, LoggedError, Trap};
use crate::error::{ExecutionError, ExitCode, FailureView, FatalCause};
use crate::syscalls::{in_bounds, try_slice};

verus! {

/// Reads `bytes` as UTF-8 text with `std::str::from_utf8`, which accepts
/// exactly the valid encodings and gives the text that they spell.
#[verifier::external_body]
fn utf8_text(bytes: &[u8]) -> (r: Option<String>)
    ensures
        match r {
            Some(text) => valid_utf8(bytes@) && text@ == decode_utf8(bytes@),
            None => !valid_utf8(bytes@),
        },
{
    match std::str::from_utf8(bytes) {
        Ok(text) => Some(text.to_owned()),
        Err(_) => None,
    }
}

/// The exit code with which an actor aborts when it asks for the code
/// numbered `code`: that code, unless it is unknown or one of the system's,
/// which an actor may not use.
pub open spec fn abort_exit_code(code: u32) -> ExitCode {
    match ExitCode::spec_from_u32(code) {
        Some(c) => if c.spec_is_system_error() {
            ExitCode::SysErrIllegalArgument
        } else {
            c
        },
        None => ExitCode::SysErrIllegalArgument,
    }
}

/// The message that is recorded when an actor aborts with the message at
/// `offset`, `len` bytes long: a standard one for an empty message; the
/// message itself where it can be read; else a note on why it cannot.
pub open spec fn abort_message(memory: Seq<u8>, offset: u32, len: u32) -> Seq<char> {
    if len == 0 {
        "actor aborted"@
    } else if !in_bounds(memory.len(), offset, len) {
        "actor aborted with an invalid message: "@ + "buffer out of bounds"@
            + " (code=SysErrIllegalArgument)"@
    } else if !valid_utf8(memory.subrange(offset as int, offset + len)) {
        "actor aborted with an invalid message: "@ + "error message was not utf8"@
            + " (code=SysErrIllegalArgument)"@
    } else {
        decode_utf8(memory.subrange(offset as int, offset + len))
    }
}

/// Computes `abort_exit_code`.
pub fn exit_code_for_abort(code: u32) -> (c: ExitCode)
    ensures
        c == abort_exit_code(code),
        c != ExitCode::OK,
{
    match ExitCode::from_u32(code) {
        Some(c) => if c.is_system_error() {
            ExitCode::SysErrIllegalArgument
        } else {
            c
        },
        None => ExitCode::SysErrIllegalArgument,
    }
}

fn invalid_message(reason: &str) -> (m: String)
    ensures
        m@ == "actor aborted with an invalid message: "@ + reason@
            + " (code=SysErrIllegalArgument)"@,
{
    "actor aborted with an invalid message: ".to_owned().concat(reason).concat(
        " (code=SysErrIllegalArgument)",
    )
}

/// Computes `abort_message`.
pub fn message_for_abort(memory: &[u8], message_off: u32, message_len: u32) -> (m: String)
    ensures
        m@ == abort_message(memory@, message_off, message_len),
{
    if message_len == 0 {
        "actor aborted".to_owned()
    } else {
        match try_slice(memory, message_off, message_len) {
            Err(_) => invalid_message("buffer out of bounds"),
            Ok(bytes) => match utf8_text(bytes) {
                Some(text) => text,
                None => invalid_message("error message was not utf8"),
            },
        }
    }
}

/// The call manager after an actor aborted: the error is recorded, and the
/// running invocation is ended with the exit code and undone.
pub open spec fn abort_view(v: EngineView, exit_code: ExitCode, message: Seq<char>) -> EngineView {
    fail_view(
        EngineView { log: v.log.push(LoggedError { exit_code, message }), ..v },
        FailureView::Syscall(exit_code),
    )
}

/// The system call with which an actor gives up: the running invocation
/// ends with the exit code that the actor names, and what it changed is
/// undone. The call never returns to the actor: its result is always a trap.
pub fn abort(
    kernel: &mut CallManager,
    memory: &[u8],
    code: u32,
    message_off: u32,
    message_len: u32,
) -> (r: Result<(), Trap>)
    requires
        old(kernel).wf(),
    ensures
        final(kernel).wf(),
        final(kernel)@ == abort_view(
            old(kernel)@,
            abort_exit_code(code),
            abort_message(memory@, message_off, message_len),
        ),
        r matches Err(trap) && if old(kernel)@.frames.len() == 0 {
            trap == Trap::Fatal(FatalCause::NoActiveInvocation)
        } else {
            trap matches Trap::Exit(res) && res.exit_code == abort_exit_code(code)
                && res.return_data@.len() == 0 && res.gas_used == old(kernel)@.gas_used - old(
                kernel,
            )@.frames.last().gas_at_entry
        },
{
    // An unknown code, or one that is the system's, becomes an illegal argument.
    let code = exit_code_for_abort(code);
    let message = message_for_abort(memory, message_off, message_len);
    kernel.push_actor_error(code, message);
    Err(kernel.fail(ExecutionError::syscall(code, "actor aborted")))
}

} // verus!
