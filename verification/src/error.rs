//! The failures that the control plane and its client report.

use crate::text::{append_str, chars_of, string_of};
use vstd::prelude::*;

verus! {

/// What went wrong.
#[derive(Clone, Copy, Debug, PartialEq, Eq, Structural)]
pub enum ErrorKind {
    /// No screen has the name that was asked for.
    NotFound,
    /// The capability provider of a new screen could not be made.
    ProviderInitFailed,
    /// No installed package with the wanted prefix is free.
    NoFreePackage,
    /// The provider has no frame yet and none was captured before.
    NoFrameAvailable,
    /// A captured frame could not be encoded.
    EncodeFailed,
    /// The provider returned no accessibility dump.
    EmptyDump,
    /// The package could not be launched, or an address not opened in it.
    LaunchFailed,
    /// A command on the package failed.
    CommandFailed,
    /// No node carries the label that was asked for.
    NodeNotFound,
    /// The control plane did not answer before the deadline.
    ServerNotReady,
}

/// A failure: its kind, and a message for the caller.
#[derive(Clone, Debug)]
pub struct AppError {
    pub kind: ErrorKind,
    pub message: String,
}

/// The status that the control plane answers with for a failure of kind
/// `kind`: 404 for an unknown screen, 500 for everything else.
pub open spec fn status_of(kind: ErrorKind) -> u16 {
    if kind == ErrorKind::NotFound {
        404
    } else {
        500
    }
}

impl AppError {
    /// A failure of kind `kind` with the message `message`.
    pub fn new(kind: ErrorKind, message: &str) -> (e: AppError)
        ensures
            e.kind == kind,
            e.message@ == message@,
    {
        let chars = chars_of(message);
        AppError { kind, message: string_of(&chars) }
    }

    /// The failure for a screen name that no screen has.
    pub fn not_found(name: &str) -> (e: AppError)
        ensures
            e.kind == ErrorKind::NotFound,
            e.message@ == "screen "@ + name@ + " not found"@,
    {
        let mut buf: Vec<char> = Vec::new();
        append_str(&mut buf, "screen ");
        append_str(&mut buf, name);
        append_str(&mut buf, " not found");
        assert(buf@ =~= "screen "@ + name@ + " not found"@);
        AppError { kind: ErrorKind::NotFound, message: string_of(&buf) }
    }

    /// The status that the control plane answers with for this failure.
    pub fn status(&self) -> (code: u16)
        ensures
            code == status_of(self.kind),
    {
        match self.kind {
            ErrorKind::NotFound => 404,
            _ => 500,
        }
    }
}

} // verus!
