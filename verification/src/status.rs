//! Error signaling: a status code plus a human-readable message.

use vstd::prelude::*;

verus! {

/// The kind of failure that a fallible operation reports.
#[derive(Clone, Copy, PartialEq, Eq, Structural, Debug)]
pub enum StatusCode {
    OK,
    OutOfMemory,
    KeyError,
    Invalid,
    IOError,
    NotImplemented,
}

/// An error carried by every `Err` result of the library: a status code
/// other than `OK` together with a descriptive message.
#[derive(Debug)]
pub struct ArrowError {
    code: StatusCode,
    message: String,
}

impl ArrowError {
    /// The status code, for use in contracts.
    pub closed spec fn code_spec(&self) -> StatusCode {
        self.code
    }

    /// The message, for use in contracts.
    pub closed spec fn message_spec(&self) -> Seq<char> {
        self.message@
    }

    pub fn new(code: StatusCode, message: String) -> (r: ArrowError)
        ensures
            r.code_spec() == code,
            r.message_spec() == message@,
    {
        ArrowError { code, message }
    }

    pub fn code(&self) -> (r: StatusCode)
        ensures
            r == self.code_spec(),
    {
        self.code
    }

    pub fn message(&self) -> (r: &String)
        ensures
            r@ == self.message_spec(),
    {
        &self.message
    }

    pub fn out_of_memory(message: &str) -> (r: ArrowError)
        ensures
            r.code_spec() == StatusCode::OutOfMemory,
            r.message_spec() == message@,
    {
        ArrowError { code: StatusCode::OutOfMemory, message: message.to_owned() }
    }

    pub fn key_error(message: &str) -> (r: ArrowError)
        ensures
            r.code_spec() == StatusCode::KeyError,
            r.message_spec() == message@,
    {
        ArrowError { code: StatusCode::KeyError, message: message.to_owned() }
    }

    pub fn invalid(message: &str) -> (r: ArrowError)
        ensures
            r.code_spec() == StatusCode::Invalid,
            r.message_spec() == message@,
    {
        ArrowError { code: StatusCode::Invalid, message: message.to_owned() }
    }

    pub fn io_error(message: &str) -> (r: ArrowError)
        ensures
            r.code_spec() == StatusCode::IOError,
            r.message_spec() == message@,
    {
        ArrowError { code: StatusCode::IOError, message: message.to_owned() }
    }

    pub fn not_implemented(message: &str) -> (r: ArrowError)
        ensures
            r.code_spec() == StatusCode::NotImplemented,
            r.message_spec() == message@,
    {
        ArrowError { code: StatusCode::NotImplemented, message: message.to_owned() }
    }
}

} // verus!
