//! Exit codes and the two tiers of failure.

use vstd::prelude::*;

verus! {

/// The first exit code that an actor may use for an error of its own. The
/// codes below it are for the system.
pub const FIRST_ACTOR_ERROR_CODE: u32 = 16;

/// The classification attached to every completed invocation.
#[derive(Clone, Copy, Debug, PartialEq, Eq, Structural)]
pub enum ExitCode {
    OK,
    SysErrSenderInvalid,
    SysErrSenderStateInvalid,
    SysErrInvalidMethod,
    SysErrReserved1,
    SysErrInvalidReceiver,
    SysErrInsufficientFunds,
    SysErrOutOfGas,
    SysErrForbidden,
    SysErrIllegalActor,
    SysErrIllegalArgument,
    SysErrReserved2,
    SysErrReserved3,
    SysErrReserved4,
    SysErrReserved5,
    SysErrReserved6,
    ErrIllegalArgument,
    ErrNotFound,
    ErrForbidden,
    ErrInsufficientFunds,
    ErrIllegalState,
    ErrSerialization,
    ErrTooManyProveCommits,
    ErrPlaceholder,
}

impl ExitCode {
    /// The number of the exit code.
    pub open spec fn spec_value(self) -> u32 {
        match self {
            ExitCode::OK => 0,
            ExitCode::SysErrSenderInvalid => 1,
            ExitCode::SysErrSenderStateInvalid => 2,
            ExitCode::SysErrInvalidMethod => 3,
            ExitCode::SysErrReserved1 => 4,
            ExitCode::SysErrInvalidReceiver => 5,
            ExitCode::SysErrInsufficientFunds => 6,
            ExitCode::SysErrOutOfGas => 7,
            ExitCode::SysErrForbidden => 8,
            ExitCode::SysErrIllegalActor => 9,
            ExitCode::SysErrIllegalArgument => 10,
            ExitCode::SysErrReserved2 => 11,
            ExitCode::SysErrReserved3 => 12,
            ExitCode::SysErrReserved4 => 13,
            ExitCode::SysErrReserved5 => 14,
            ExitCode::SysErrReserved6 => 15,
            ExitCode::ErrIllegalArgument => 16,
            ExitCode::ErrNotFound => 17,
            ExitCode::ErrForbidden => 18,
            ExitCode::ErrInsufficientFunds => 19,
            ExitCode::ErrIllegalState => 20,
            ExitCode::ErrSerialization => 21,
            ExitCode::ErrTooManyProveCommits => 32,
            ExitCode::ErrPlaceholder => 1000,
        }
    }

    /// The exit code with the given number, if there is one.
    pub open spec fn spec_from_u32(value: u32) -> Option<ExitCode> {
        if value == 0 {
            Some(ExitCode::OK)
        } else if value == 1 {
            Some(ExitCode::SysErrSenderInvalid)
        } else if value == 2 {
            Some(ExitCode::SysErrSenderStateInvalid)
        } else if value == 3 {
            Some(ExitCode::SysErrInvalidMethod)
        } else if value == 4 {
            Some(ExitCode::SysErrReserved1)
        } else if value == 5 {
            Some(ExitCode::SysErrInvalidReceiver)
        } else if value == 6 {
            Some(ExitCode::SysErrInsufficientFunds)
        } else if value == 7 {
            Some(ExitCode::SysErrOutOfGas)
        } else if value == 8 {
            Some(ExitCode::SysErrForbidden)
        } else if value == 9 {
            Some(ExitCode::SysErrIllegalActor)
        } else if value == 10 {
            Some(ExitCode::SysErrIllegalArgument)
        } else if value == 11 {
            Some(ExitCode::SysErrReserved2)
        } else if value == 12 {
            Some(ExitCode::SysErrReserved3)
        } else if value == 13 {
            Some(ExitCode::SysErrReserved4)
        } else if value == 14 {
            Some(ExitCode::SysErrReserved5)
        } else if value == 15 {
            Some(ExitCode::SysErrReserved6)
        } else if value == 16 {
            Some(ExitCode::ErrIllegalArgument)
        } else if value == 17 {
            Some(ExitCode::ErrNotFound)
        } else if value == 18 {
            Some(ExitCode::ErrForbidden)
        } else if value == 19 {
            Some(ExitCode::ErrInsufficientFunds)
        } else if value == 20 {
            Some(ExitCode::ErrIllegalState)
        } else if value == 21 {
            Some(ExitCode::ErrSerialization)
        } else if value == 32 {
            Some(ExitCode::ErrTooManyProveCommits)
        } else if value == 1000 {
            Some(ExitCode::ErrPlaceholder)
        } else {
            None
        }
    }

    /// Whether the code stands for success.
    pub open spec fn spec_is_success(self) -> bool {
        self == ExitCode::OK
    }

    /// Whether the code lies below the codes that actors may use.
    pub open spec fn spec_is_system_error(self) -> bool {
        self.spec_value() < FIRST_ACTOR_ERROR_CODE
    }

    /// The number of the exit code.
    pub fn value(self) -> (v: u32)
        ensures
            v == self.spec_value(),
    {
        match self {
            ExitCode::OK => 0,
            ExitCode::SysErrSenderInvalid => 1,
            ExitCode::SysErrSenderStateInvalid => 2,
            ExitCode::SysErrInvalidMethod => 3,
            ExitCode::SysErrReserved1 => 4,
            ExitCode::SysErrInvalidReceiver => 5,
            ExitCode::SysErrInsufficientFunds => 6,
            ExitCode::SysErrOutOfGas => 7,
            ExitCode::SysErrForbidden => 8,
            ExitCode::SysErrIllegalActor => 9,
            ExitCode::SysErrIllegalArgument => 10,
            ExitCode::SysErrReserved2 => 11,
            ExitCode::SysErrReserved3 => 12,
            ExitCode::SysErrReserved4 => 13,
            ExitCode::SysErrReserved5 => 14,
            ExitCode::SysErrReserved6 => 15,
            ExitCode::ErrIllegalArgument => 16,
            ExitCode::ErrNotFound => 17,
            ExitCode::ErrForbidden => 18,
            ExitCode::ErrInsufficientFunds => 19,
            ExitCode::ErrIllegalState => 20,
            ExitCode::ErrSerialization => 21,
            ExitCode::ErrTooManyProveCommits => 32,
            ExitCode::ErrPlaceholder => 1000,
        }
    }

    /// The exit code with the given number, if there is one.
    pub fn from_u32(value: u32) -> (r: Option<ExitCode>)
        ensures
            r == Self::spec_from_u32(value),
            r matches Some(c) ==> c.spec_value() == value,
            r is None ==> forall|c: ExitCode| c.spec_value() != value,
    {
        match value {
            0 => Some(ExitCode::OK),
            1 => Some(ExitCode::SysErrSenderInvalid),
            2 => Some(ExitCode::SysErrSenderStateInvalid),
            3 => Some(ExitCode::SysErrInvalidMethod),
            4 => Some(ExitCode::SysErrReserved1),
            5 => Some(ExitCode::SysErrInvalidReceiver),
            6 => Some(ExitCode::SysErrInsufficientFunds),
            7 => Some(ExitCode::SysErrOutOfGas),
            8 => Some(ExitCode::SysErrForbidden),
            9 => Some(ExitCode::SysErrIllegalActor),
            10 => Some(ExitCode::SysErrIllegalArgument),
            11 => Some(ExitCode::SysErrReserved2),
            12 => Some(ExitCode::SysErrReserved3),
            13 => Some(ExitCode::SysErrReserved4),
            14 => Some(ExitCode::SysErrReserved5),
            15 => Some(ExitCode::SysErrReserved6),
            16 => Some(ExitCode::ErrIllegalArgument),
            17 => Some(ExitCode::ErrNotFound),
            18 => Some(ExitCode::ErrForbidden),
            19 => Some(ExitCode::ErrInsufficientFunds),
            20 => Some(ExitCode::ErrIllegalState),
            21 => Some(ExitCode::ErrSerialization),
            32 => Some(ExitCode::ErrTooManyProveCommits),
            1000 => Some(ExitCode::ErrPlaceholder),
            _ => None,
        }
    }

    /// Whether the code stands for success.
    pub fn is_success(self) -> (b: bool)
        ensures
            b == self.spec_is_success(),
    {
        match self {
            ExitCode::OK => true,
            _ => false,
        }
    }

    /// Whether the code lies below the codes that actors may use. The code
    /// for success is one of them.
    pub fn is_system_error(self) -> (b: bool)
        ensures
            b == self.spec_is_system_error(),
    {
        self.value() < FIRST_ACTOR_ERROR_CODE
    }
}

/// Reading an exit code's number and looking the number up gives the code
/// back.
pub proof fn lemma_exit_code_round_trip(code: ExitCode)
    ensures
        ExitCode::spec_from_u32(code.spec_value()) == Some(code),
{
}

/// An error that an actor raises or is shown: an exit code and a message.
#[derive(Debug)]
pub struct ActorError {
    pub exit_code: ExitCode,
    pub msg: String,
}

impl ActorError {
    /// An error with the given code and message.
    pub fn new(exit_code: ExitCode, msg: String) -> (e: ActorError)
        ensures
            e.exit_code == exit_code,
            e.msg@ == msg@,
    {
        ActorError { exit_code, msg }
    }

    /// The exit code of the error.
    pub fn exit_code(&self) -> (c: ExitCode)
        ensures
            c == self.exit_code,
    {
        self.exit_code
    }

    /// The message of the error.
    pub fn msg(&self) -> (m: &str)
        ensures
            m@ == self.msg@,
    {
        self.msg.as_str()
    }
}

/// What broke inside the engine when an execution cannot go on.
#[derive(Clone, Copy, Debug, PartialEq, Eq, Structural)]
pub enum FatalCause {
    /// The gas ran out while the outermost frame was running.
    OutOfGas,
    /// A block that the engine itself had written could not be read back.
    MissingBlock,
    /// An identifier that the engine itself had made did not round-trip.
    CorruptIdentifier,
    /// A balance left the range of token amounts.
    BalanceOverflow,
    /// An operation needs a running invocation and there is none.
    NoActiveInvocation,
    /// The execution was given up before and was used again.
    Aborted,
}

/// The outcome of an operation that failed.
#[derive(Debug)]
pub enum ExecutionError {
    /// The caller can correct it. The running actor sees an abort with the
    /// exit code; only its frame is undone.
    Syscall(ActorError),
    /// The engine cannot go on. The whole message is undone.
    Fatal(FatalCause),
}

/// A failed operation as plain values. The message of a recoverable error
/// is for people and stands in no contract.
pub ghost enum FailureView {
    Syscall(ExitCode),
    Fatal(FatalCause),
}

impl View for ExecutionError {
    type V = FailureView;

    open spec fn view(&self) -> FailureView {
        match self {
            ExecutionError::Syscall(e) => FailureView::Syscall(e.exit_code),
            ExecutionError::Fatal(c) => FailureView::Fatal(*c),
        }
    }
}

impl ExecutionError {
    /// A recoverable error with the given code and message.
    pub fn syscall(exit_code: ExitCode, msg: &str) -> (e: ExecutionError)
        ensures
            e@ == FailureView::Syscall(exit_code),
    {
        ExecutionError::Syscall(ActorError::new(exit_code, msg.to_owned()))
    }

    /// Whether the engine cannot go on.
    pub fn is_fatal(&self) -> (b: bool)
        ensures
            b == (self@ is Fatal),
    {
        match self {
            ExecutionError::Fatal(_) => true,
            ExecutionError::Syscall(_) => false,
        }
    }
}

} // verus!
