//! The errors of commands, and how the shell shows them.

use vstd::prelude::*;
use vstd::string::StringExecFns;

verus! {

/// What went wrong, in broad terms.
#[derive(Clone, Copy, Debug, PartialEq, Eq)]
pub enum ErrorKind {
    /// The arguments of a command were wrong; the message is its usage.
    Args,
    /// A file, socket or pipe failed.
    Io,
    /// A system call failed with this error number.
    Errno(i32),
    /// A protocol was violated, such as a TLS handshake that failed.
    Protocol,
    /// Anything else.
    Other,
}

/// An error of a command.
#[derive(Debug, PartialEq, Eq)]
pub struct Error {
    /// What went wrong, in broad terms.
    pub kind: ErrorKind,
    /// The details, for the user.
    pub message: String,
}

/// What the shell prints for an error with this kind and message: the usage
/// message alone for wrong arguments, `error: ` and the details otherwise.
pub open spec fn rendering(kind: ErrorKind, message: Seq<char>) -> Seq<char> {
    if kind == ErrorKind::Args {
        message
    } else {
        "error: "@ + message
    }
}

/// The number of the last failed system call.
///
/// Trusted: calls `errno::errno` and takes the number out of its result.
/// Nothing is claimed of the number.
#[verifier::external_body]
fn last_errno() -> i32 {
    errno::errno().0
}

/// What the system says of an error number.
///
/// Trusted: formats an `errno::Errno` with its `Display` impl, which asks
/// the system for the description. Nothing is claimed of the text.
#[verifier::external_body]
fn describe_errno(code: i32) -> String {
    format!("{}", errno::Errno(code))
}

impl Error {
    /// An error of the given kind.
    pub fn new(kind: ErrorKind, message: String) -> (e: Error)
        ensures
            e.kind == kind,
            e.message == message,
    {
        Error { kind, message }
    }

    /// A usage error, with the usage message of the command.
    pub fn args(message: String) -> (e: Error)
        ensures
            e.kind == ErrorKind::Args,
            e.message == message,
    {
        Error { kind: ErrorKind::Args, message }
    }

    /// An error that is no usage error and has no better kind.
    pub fn other(message: &str) -> (e: Error)
        ensures
            e.kind == ErrorKind::Other,
            e.message@ == message@,
    {
        Error { kind: ErrorKind::Other, message: message.to_owned() }
    }

    /// An input or output error.
    pub fn io(message: &str) -> (e: Error)
        ensures
            e.kind == ErrorKind::Io,
            e.message@ == message@,
    {
        Error { kind: ErrorKind::Io, message: message.to_owned() }
    }

    /// The error of a system call that failed with the number `code`, of
    /// which the system says `message`.
    pub fn of_errno(code: i32, message: String) -> (e: Error)
        ensures
            e.kind == ErrorKind::Errno(code),
            e.message == message,
    {
        Error { kind: ErrorKind::Errno(code), message }
    }

    /// Whether the error is a usage error.
    pub fn is_usage(&self) -> (r: bool)
        ensures
            r == (self.kind == ErrorKind::Args),
    {
        match self.kind {
            ErrorKind::Args => true,
            _ => false,
        }
    }

    /// What the shell prints for the error.
    pub fn render(&self) -> (text: String)
        ensures
            text@ == rendering(self.kind, self.message@),
    {
        if self.is_usage() {
            self.message.clone()
        } else {
            let mut text = String::from_str("error: ");
            text.append(self.message.as_str());
            text
        }
    }
}

/// The error of the system call that failed last.
pub fn errno() -> (e: Error)
    ensures
        e.kind is Errno,
{
    let code = last_errno();
    Error::of_errno(code, describe_errno(code))
}

} // verus!
