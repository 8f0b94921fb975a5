//! Errors of the library and of the programs built on it.

use vstd::prelude::*;
use vstd::string::StringExecFns;

verus! {

/// What went wrong, with the value that caused it.
#[derive(Clone, Debug, PartialEq, Eq)]
pub enum ErrorKind {
    RequiredInputMissing,
    ParseIntError(String),
    PathNotExistError(String),
    FastaReadFileError(String),
    FastaError(String),
}

/// The one-line description of `e`.
pub open spec fn error_message(e: ErrorKind) -> Seq<char> {
    match e {
        ErrorKind::RequiredInputMissing => "Required input not provided."@,
        ErrorKind::ParseIntError(s) => "Couldn't parse as integer: "@ + s@,
        ErrorKind::PathNotExistError(s) => "Couldn't find file at path: "@ + s@,
        ErrorKind::FastaReadFileError(s) => "Couldn't read file at path: "@ + s@,
        ErrorKind::FastaError(s) => "Error with Fasta: "@ + s@,
    }
}

/// The message `prefix` followed by `value`.
fn message_with(prefix: &str, value: &String) -> (r: String)
    ensures
        r@ == prefix@ + value@,
{
    let mut r = String::from_str(prefix);
    r.append(value.as_str());
    r
}

impl ErrorKind {
    /// The exit code of a program that stops on this error.
    pub fn ecode(&self) -> (r: i32)
        ensures
            r == 1,
    {
        match self {
            ErrorKind::RequiredInputMissing => 1,
            ErrorKind::ParseIntError(_) => 1,
            ErrorKind::PathNotExistError(_) => 1,
            ErrorKind::FastaReadFileError(_) => 1,
            ErrorKind::FastaError(_) => 1,
        }
    }

    /// A one-line description of the error.
    pub fn pretty_error(&self) -> (r: String)
        ensures
            r@ == error_message(*self),
    {
        match self {
            ErrorKind::RequiredInputMissing => String::from_str("Required input not provided."),
            ErrorKind::ParseIntError(s) => message_with("Couldn't parse as integer: ", s),
            ErrorKind::PathNotExistError(s) => message_with("Couldn't find file at path: ", s),
            ErrorKind::FastaReadFileError(s) => message_with("Couldn't read file at path: ", s),
            ErrorKind::FastaError(s) => message_with("Error with Fasta: ", s),
        }
    }
}

} // verus!
