//! Failures as the library reports them.

use vstd::prelude::*;
use vstd::string::StringExecFns;

verus! {

/// The kinds of failure that a command can end in.
#[derive(Clone, Copy, Debug, PartialEq, Eq, Structural)]
pub enum ErrorKind {
    /// A parameter is missing or has the wrong type.
    Param,
    /// A path, a descriptor or a remote resource is missing.
    NotFound,
    /// A shared state could not be locked in time.
    LockTimeout,
    /// A tool is not installed, or its probe failed.
    ToolUnavailable,
    /// The file system, the network, an archive or a process failed.
    Io,
    /// A manifest or a configuration is not what it has to be.
    Format,
    /// The command or the format is not known.
    Unsupported,
}

/// A failed command: its kind, and the message shown to the user.
#[derive(Clone, Debug, PartialEq)]
pub struct CommandError {
    pub kind: ErrorKind,
    pub message: String,
}

/// A failure as contracts speak of it.
pub struct ErrorModel {
    pub kind: ErrorKind,
    pub message: Seq<char>,
}

impl View for CommandError {
    type V = ErrorModel;

    open spec fn view(&self) -> ErrorModel {
        ErrorModel { kind: self.kind, message: self.message@ }
    }
}

/// The failure of the given kind and message.
pub open spec fn failure(kind: ErrorKind, message: Seq<char>) -> ErrorModel {
    ErrorModel { kind, message }
}

impl CommandError {
    pub fn new(kind: ErrorKind, message: &str) -> (e: CommandError)
        ensures
            e@ == failure(kind, message@),
    {
        CommandError { kind, message: String::from_str(message) }
    }

    /// The message, as the user sees it.
    pub fn to_string(&self) -> (s: String)
        ensures
            s@ == self.message@,
    {
        self.message.clone()
    }
}

/// The error that the remote procedure surface hands to the user interface: a
/// message and nothing else.
#[derive(Clone, Debug, PartialEq)]
pub struct CallError {
    msg: String,
}

impl View for CallError {
    type V = Seq<char>;

    closed spec fn view(&self) -> Seq<char> {
        self.msg@
    }
}

impl CallError {
    pub fn new(msg: &str) -> (e: CallError)
        ensures
            e@ == msg@,
    {
        CallError { msg: String::from_str(msg) }
    }

    pub fn msg(&self) -> (m: &str)
        ensures
            m@ == self@,
    {
        self.msg.as_str()
    }

    pub fn to_string(&self) -> (s: String)
        ensures
            s@ == self@,
    {
        self.msg.clone()
    }
}

/// A failed call with the given message.
pub fn pack_called_error(msg: &str) -> (r: Result<String, CallError>)
    ensures
        r is Err,
        r->Err_0@ == msg@,
{
    Err(CallError::new(msg))
}

} // verus!
