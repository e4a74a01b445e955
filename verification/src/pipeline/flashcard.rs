//! The input unit of the pipeline: one word with its definition.
//!
//! On disk a flashcard is a two-element sequence `[word, definition]`;
//! the codec here owns that shape.

use vstd::prelude::*;
use crate::pipeline::PipelineError;

verus! {

/// One word/definition pair.
#[derive(Debug, Clone)]
pub struct Flashcard {
    pub word: String,
    pub definition: String,
}

/// The shape of a [`Flashcard`].
#[verifier::ext_equal]
pub struct FlashcardView {
    pub word: Seq<char>,
    pub definition: Seq<char>,
}

impl View for Flashcard {
    type V = FlashcardView;

    open spec fn view(&self) -> FlashcardView {
        FlashcardView { word: self.word@, definition: self.definition@ }
    }
}

/// The shapes of an executable flashcard list.
pub open spec fn fcs_view(cs: Seq<Flashcard>) -> Seq<FlashcardView> {
    Seq::new(
        cs.len(),
        |i: int|
            if 0 <= i < cs.len() {
                cs[i]@
            } else {
                FlashcardView { word: Seq::empty(), definition: Seq::empty() }
            },
    )
}

impl Flashcard {
    /// The on-disk shape of this card: the two-element sequence
    /// `[word, definition]`.
    pub fn to_fields(&self) -> (r: Vec<String>)
        ensures
            r@.len() == 2,
            r@[0]@ == self.word@,
            r@[1]@ == self.definition@,
    {
        let mut r: Vec<String> = Vec::new();
        r.push(self.word.clone());
        r.push(self.definition.clone());
        r
    }

    /// Reads a card back from its on-disk shape. Succeeds exactly on
    /// two-element sequences: the word, then the definition.
    pub fn from_fields(fields: &Vec<String>) -> (r: Result<Self, PipelineError>)
        ensures
            fields@.len() == 2 <==> r is Ok,
            r matches Ok(c) ==> c.word@ == fields@[0]@ && c.definition@ == fields@[1]@,
    {
        if fields.len() != 2 {
            Err(PipelineError::new("expected a sequence with two elements"))
        } else {
            Ok(Flashcard { word: fields[0].clone(), definition: fields[1].clone() })
        }
    }
}

} // verus!
