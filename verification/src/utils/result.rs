//! Errors of input and output as plain values, and a way to say what was
//! being done when one came up.

use std::io::ErrorKind;
use vstd::prelude::*;
use vstd::string::StringExecFns;

verus! {

#[verifier::external_type_specification]
#[verifier::external_body]
pub struct ExErrorKind(ErrorKind);

/// An error of input or output: its kind and its message.
#[derive(Debug)]
pub struct IoError {
    pub kind: ErrorKind,
    pub message: String,
}

pub type IoResult<T> = Result<T, IoError>;

impl IoError {
    pub fn new(kind: ErrorKind, message: &str) -> (e: IoError)
        ensures
            e.kind == kind,
            e.message@ == message@,
    {
        IoError { kind, message: String::from_str(message) }
    }

    pub fn kind(&self) -> (k: ErrorKind)
        ensures
            k == self.kind,
    {
        self.kind
    }

    /// The message, as it would be shown.
    pub fn to_string(&self) -> (s: String)
        ensures
            s@ == self.message@,
    {
        self.message.clone()
    }
}

/// The message `message` with `description` put before it: the description,
/// a colon, a space, the message.
pub open spec fn described(description: Seq<char>, message: Seq<char>) -> Seq<char> {
    description + seq![':', ' '] + message
}

/// A way to describe errors of functions that return a `Result`.
pub trait DescribeErr: Sized {
    /// `out` is `self` with `description` put before its error message, if
    /// it is an error, and `self` as it was if not.
    spec fn describes(self, description: Seq<char>, out: Self) -> bool;

    /// Puts `description` before the error message if the result is an
    /// `Err`, and leaves an `Ok` untouched.
    fn describe_err(self, description: &str) -> (out: Self)
        ensures
            self.describes(description@, out),
    ;
}

impl<T> DescribeErr for IoResult<T> {
    open spec fn describes(self, description: Seq<char>, out: Self) -> bool {
        match (self, out) {
            (Ok(before), Ok(after)) => before == after,
            (Err(before), Err(after)) => after.kind == before.kind && after.message@ == described(
                description,
                before.message@,
            ),
            _ => false,
        }
    }

    fn describe_err(self, description: &str) -> (out: Self) {
        match self {
            Ok(value) => Ok(value),
            Err(error) => {
                let kind = error.kind();
                let mut msg = String::from_str(description);
                msg.append(": ");
                msg.append(error.message.as_str());
                proof {
                    reveal_strlit(": ");
                    assert(": "@ =~= seq![':', ' ']);
                }
                Err(IoError { kind, message: msg })
            },
        }
    }
}

} // verus!
