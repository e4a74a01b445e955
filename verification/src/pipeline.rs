//! Pipeline stages and the values they hand each other.

pub mod flashcard;
pub mod load;
pub mod transform;
pub mod visual_vocab;

use vstd::prelude::*;
use crate::pipeline::flashcard::Flashcard;

verus! {

/// What one pipeline stage hands the next: a finished document, text for
/// the clipboard, or a batch of flashcards.
#[derive(Debug)]
pub enum PipelineIO {
    Document { name: String, content: Vec<u8> },
    Clipboard(String),
    Flashcard(Vec<Flashcard>),
}

/// An error raised by a pipeline stage.
#[derive(Debug)]
pub struct PipelineError {
    message: String,
}

impl View for PipelineError {
    type V = Seq<char>;

    closed spec fn view(&self) -> Seq<char> {
        self.message@
    }
}

impl PipelineError {
    /// Builds an error carrying the given message.
    pub fn new(message: &str) -> (r: Self)
        ensures
            r@ == message@,
    {
        PipelineError { message: message.to_owned() }
    }

    /// The message the error was built with.
    pub fn message(&self) -> (r: &str)
        ensures
            r@ == self@,
    {
        self.message.as_str()
    }
}

} // verus!
