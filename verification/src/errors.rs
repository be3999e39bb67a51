//! The one recoverable error of the crate: a numeric mode whose octal form
//! is not exactly six digits long.

use vstd::prelude::*;

verus! {

/// Returned when a numeric mode cannot be decomposed into a file kind and
/// three permission digits. It carries a diagnostic message naming the
/// offending octal string.
#[derive(Debug, PartialEq, Eq)]
pub struct FullPermissionError {
    message: String,
}

impl FullPermissionError {
    /// The characters of the message the error carries.
    pub closed spec fn message_spec(&self) -> Seq<char> {
        self.message@
    }

    /// Wraps a diagnostic message.
    pub fn new(message: String) -> (r: Self)
        ensures
            r.message_spec() == message@,
    {
        FullPermissionError { message }
    }

    /// The diagnostic message.
    pub fn message(&self) -> (r: &str)
        ensures
            r@ == self.message_spec(),
    {
        self.message.as_str()
    }
}

} // verus!
