//! Handler registrations and their invocation kinds.
//!
//! A handler itself is an asynchronous callback owned by the host; the tree
//! refers to it by an opaque handler identifier the host assigns. Each
//! registration binds one handler to one invocation kind.

use vstd::prelude::*;

verus! {

/// The four invocation kinds a handler can serve.
#[derive(Debug, Clone, Copy, PartialEq, Eq, Hash, Structural)]
pub enum FunctionKind {
    /// A command triggered by a prefixed free-text message.
    Classic,
    /// A command triggered by a structured interaction payload.
    Slash,
    /// A GUI-based command on a message.
    Message,
    /// A GUI-based command on a user.
    User,
}

/// One handler registration: an invocation kind together with the host's
/// identifier for the handler callback.
#[derive(Debug, Clone, Copy, PartialEq, Eq, Structural)]
pub enum Function {
    Classic(u64),
    Slash(u64),
    Message(u64),
    User(u64),
}

impl Function {
    /// The invocation kind this registration serves.
    pub open spec fn spec_kind(&self) -> FunctionKind {
        match self {
            Function::Classic(_) => FunctionKind::Classic,
            Function::Slash(_) => FunctionKind::Slash,
            Function::Message(_) => FunctionKind::Message,
            Function::User(_) => FunctionKind::User,
        }
    }

    /// The host's identifier for the handler callback.
    pub open spec fn spec_handler(&self) -> u64 {
        match self {
            Function::Classic(h) => *h,
            Function::Slash(h) => *h,
            Function::Message(h) => *h,
            Function::User(h) => *h,
        }
    }

    /// The invocation kind this registration serves.
    pub fn kind(&self) -> (r: FunctionKind)
        ensures
            r == self.spec_kind(),
    {
        match self {
            Function::Classic(_) => FunctionKind::Classic,
            Function::Slash(_) => FunctionKind::Slash,
            Function::Message(_) => FunctionKind::Message,
            Function::User(_) => FunctionKind::User,
        }
    }

    /// The host's identifier for the handler callback.
    pub fn handler(&self) -> (r: u64)
        ensures
            r == self.spec_handler(),
    {
        match self {
            Function::Classic(h) => *h,
            Function::Slash(h) => *h,
            Function::Message(h) => *h,
            Function::User(h) => *h,
        }
    }
}

} // verus!
