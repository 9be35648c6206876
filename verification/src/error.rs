use vstd::prelude::*;

verus! {

/// The failure categories of the pipeline. Read failures against the presence
/// backend (`BackendRead`) abort only the sync attempt that saw them, while
/// write failures (`BackendWrite`) are best-effort telemetry losses that a
/// caller must never treat as pipeline-fatal; the two are therefore distinct.
#[derive(Clone, Copy, Debug, PartialEq, Eq, Structural)]
pub enum ErrorKind {
    /// Malformed or unreadable configuration.
    Config,
    /// The replay store was unreachable or corrupt.
    Storage,
    /// Malformed payload, wrong key or payload length, or a cipher failure.
    Decode,
    /// Replay or clock-skew rejection.
    Skew,
    /// Malformed schedule range string: a configuration defect, propagated.
    Policy,
    /// Presence-backend read failure; aborts only that sync attempt.
    BackendRead,
    /// Presence-backend write failure; logged and swallowed by callers.
    BackendWrite,
}

/// An error with a category and a human-readable message.
#[derive(Clone, Debug, PartialEq)]
pub struct Error {
    pub kind: ErrorKind,
    pub message: String,
}

impl Error {
    /// Builds an error of the given category.
    pub fn categorized(kind: ErrorKind, message: String) -> (e: Error)
        ensures
            e.kind == kind,
            e.message@ == message@,
    {
        Error { kind, message }
    }

    /// The message carried by this error.
    pub fn message(&self) -> (m: &String)
        ensures
            m@ == self.message@,
    {
        &self.message
    }
}

/// Builds a plain configuration-defect error from a message.
pub fn new(message: String) -> (e: Error)
    ensures
        e.kind == ErrorKind::Config,
        e.message@ == message@,
{
    Error { kind: ErrorKind::Config, message }
}

} // verus!
