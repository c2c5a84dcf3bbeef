//! A register-based bytecode machine that runs isolated actors which talk
//! to each other only through mailboxes.

pub mod value;
pub mod inst;
pub mod arith;
pub mod register;
pub mod mailbox;
pub mod actor;
pub mod system;
