//! Error type reported by the command-line layer.

use vstd::prelude::*;

verus! {

/// An error that can occur while driving the pipeline from the command line.
#[derive(Debug)]
pub struct CliError {
    message: String,
}

impl View for CliError {
    type V = Seq<char>;

    closed spec fn view(&self) -> Seq<char> {
        self.message@
    }
}

impl CliError {
    /// Builds an error carrying the given message.
    pub fn new(message: &str) -> (r: Self)
        ensures
            r@ == message@,
    {
        CliError { message: message.to_owned() }
    }

    /// The message the error was built with.
    pub fn message(&self) -> (r: &str)
        ensures
            r@ == self@,
    {
        self.message.as_str()
    }
}

} // verus!
