//! Execution core of an actor virtual machine: gas metering, content-addressed
//! state, the invocation stack and the kernel operations that actors reach
//! through system calls.

pub mod account_actor;
pub mod address;
pub mod blockstore;
pub mod bytes;
pub mod call_manager;
pub mod crypto;
pub mod encoding;
pub mod error;
pub mod ext;
pub mod gas;
pub mod ipld;
pub mod laws;
pub mod state_tree;
pub mod syscalls;
