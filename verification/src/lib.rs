//! A command description, parsing, and dispatch engine for chat-style
//! assistants.
//!
//! Commands are declared as a tree of functions, groups and typed arguments,
//! validated once at startup, and then shared read-only. Inbound invocations
//! arrive either as free text (tokenized under a quoting grammar) or as a
//! structured payload; both are resolved to exactly one leaf command with
//! bound, typed arguments, and every handler registered for that leaf runs,
//! their outcomes reduced to a single response.

pub mod arg;
pub mod builder;
pub mod error;
pub mod function;
pub mod handle;
pub mod help;
pub mod mention;
pub mod numbers;
pub mod parser;

use vstd::prelude::*;

verus! {

/// Events of the host process's control channel.
#[derive(Debug)]
pub enum BotEvent {
    Shutdown,
}

} // verus!
