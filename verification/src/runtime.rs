//! Script execution: the interpreter and the state it keeps for a message.

pub mod condition;
pub mod context;
pub mod envelope;
pub mod event;
pub mod laws;
pub mod machine;
pub mod maps;
pub mod message;
pub mod string;
