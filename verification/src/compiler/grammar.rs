//! The grammar of commands, tests and capabilities.

pub mod action_notify;
pub mod capability;
pub mod command;
pub mod instruction;
pub mod jumps;
pub mod options;
pub mod test;
pub mod tree;
