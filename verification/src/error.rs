//! Errors of command resolution and dispatch, and the dispatch outcome.

use vstd::prelude::*;

verus! {

/// Errors of command resolution, argument binding and handler execution.
///
/// `NotPrefixed` is a classification signal for the caller — the message was
/// not a command at all — rather than a failure.
#[derive(Debug, Clone)]
pub enum CommandError {
    /// The message did not match any configured prefix.
    NotPrefixed,
    /// No top-level command of this name is registered.
    NotFound(String),
    /// A required argument or token is absent; the detail names it.
    MissingArgs(String),
    /// An argument is present, but under a different type than requested.
    ArgsMismatch,
    /// Trailing unconsumed input, or an argument of the wrong shape.
    UnexpectedArgs(String),
    /// A permission check failed upstream.
    AccessDenied,
    /// Any other failure, with its message.
    Other(String),
}

/// Which variant of `CommandError` a value is; equality of command errors
/// goes by variant alone, carried detail is not compared.
pub open spec fn same_command_error_variant(a: &CommandError, b: &CommandError) -> bool {
    match (a, b) {
        (CommandError::NotPrefixed, CommandError::NotPrefixed) => true,
        (CommandError::NotFound(_), CommandError::NotFound(_)) => true,
        (CommandError::MissingArgs(_), CommandError::MissingArgs(_)) => true,
        (CommandError::ArgsMismatch, CommandError::ArgsMismatch) => true,
        (CommandError::UnexpectedArgs(_), CommandError::UnexpectedArgs(_)) => true,
        (CommandError::AccessDenied, CommandError::AccessDenied) => true,
        (CommandError::Other(_), CommandError::Other(_)) => true,
        _ => false,
    }
}

impl PartialEq for CommandError {
    fn eq(&self, other: &Self) -> (r: bool) {
        match (self, other) {
            (CommandError::NotPrefixed, CommandError::NotPrefixed) => true,
            (CommandError::NotFound(_), CommandError::NotFound(_)) => true,
            (CommandError::MissingArgs(_), CommandError::MissingArgs(_)) => true,
            (CommandError::ArgsMismatch, CommandError::ArgsMismatch) => true,
            (CommandError::UnexpectedArgs(_), CommandError::UnexpectedArgs(_)) => true,
            (CommandError::AccessDenied, CommandError::AccessDenied) => true,
            (CommandError::Other(_), CommandError::Other(_)) => true,
            _ => false,
        }
    }
}

impl vstd::std_specs::cmp::PartialEqSpecImpl for CommandError {
    open spec fn obeys_eq_spec() -> bool {
        true
    }

    open spec fn eq_spec(&self, other: &Self) -> bool {
        same_command_error_variant(self, other)
    }
}

/// The single outcome of one dispatched command invocation.
#[derive(Debug, Clone)]
pub enum Response {
    /// No visible action.
    Nothing,
    /// Remove a placeholder or acknowledgement.
    Clear,
    /// Send or edit a reply with the given text.
    CreateMessage(String),
}

impl Response {
    /// A response that asks for no visible action.
    pub fn none() -> (r: Response)
        ensures
            r is Nothing,
    {
        Response::Nothing
    }
}

/// Structural equality of responses; message texts are compared by their
/// characters.
pub open spec fn response_eq(a: &Response, b: &Response) -> bool {
    match (a, b) {
        (Response::Nothing, Response::Nothing) => true,
        (Response::Clear, Response::Clear) => true,
        (Response::CreateMessage(x), Response::CreateMessage(y)) => x@ == y@,
        _ => false,
    }
}

impl PartialEq for Response {
    fn eq(&self, other: &Self) -> (r: bool) {
        match (self, other) {
            (Response::Nothing, Response::Nothing) => true,
            (Response::Clear, Response::Clear) => true,
            (Response::CreateMessage(x), Response::CreateMessage(y)) => *x == *y,
            _ => false,
        }
    }
}

impl vstd::std_specs::cmp::PartialEqSpecImpl for Response {
    open spec fn obeys_eq_spec() -> bool {
        true
    }

    open spec fn eq_spec(&self, other: &Self) -> bool {
        response_eq(self, other)
    }
}

} // verus!
