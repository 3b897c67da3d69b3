//! The library's error type: a human-readable message.

use vstd::prelude::*;

verus! {

/// An error with a message meant for the user.
#[derive(Debug)]
pub struct CliError {
    pub message: String,
}

impl CliError {
    /// An error carrying `msg`.
    pub fn new(msg: &str) -> (r: CliError)
        ensures
            r.message@ == msg@,
    {
        CliError { message: msg.to_owned() }
    }

    /// An error carrying the characters of `msg`.
    pub fn from_chars(msg: &Vec<char>) -> (r: CliError)
        ensures
            r.message@ == msg@,
    {
        CliError { message: crate::text::string_of(msg) }
    }
}

} // verus!
