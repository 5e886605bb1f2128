//! What the engine has to know of the built-in actors that it calls: the
//! numbers of their methods, and the tuples that go in and come out.

pub mod init;
pub mod miner;
pub mod reward;
