//! A failure carrying its message and, optionally, the exit code it ends the process with.

use vstd::prelude::*;

verus! {

/// An error with a message and an optional exit code.
#[derive(Debug, Clone)]
pub struct CliptoolsError {
    message: String,
    exit_code: Option<u8>,
}

impl CliptoolsError {
    /// The message of the error.
    pub closed spec fn message_view(&self) -> Seq<char> {
        self.message@
    }

    /// The exit code of the error, if it has one.
    pub closed spec fn exit_code_view(&self) -> Option<u8> {
        self.exit_code
    }

    /// An error with `message` and `exit_code`.
    pub fn new(message: String, exit_code: Option<u8>) -> (r: CliptoolsError)
        ensures
            r.message_view() == message@,
            r.exit_code_view() == exit_code,
    {
        CliptoolsError { message, exit_code }
    }

    /// The error as text: its message.
    pub fn to_string(&self) -> (r: String)
        ensures
            r@ == self.message_view(),
    {
        self.message.clone()
    }
}

} // verus!
