use vstd::prelude::*;

use super::sentence::Sentence;

verus! {

/// The sentences of an analysed text, in order.
#[derive(Debug, Clone)]
pub struct Document {
    sentences: Vec<Sentence>,
}

impl View for Document {
    type V = Seq<Sentence>;

    closed spec fn view(&self) -> Seq<Sentence> {
        self.sentences@
    }
}

impl Document {
    /// A document without sentences.
    pub fn new() -> (r: Document)
        ensures
            r@ == Seq::<Sentence>::empty(),
    {
        Document { sentences: Vec::new() }
    }

    /// The sentences, in order.
    pub fn sentences(&self) -> (r: &[Sentence])
        ensures
            r@ == self@,
    {
        self.sentences.as_slice()
    }

    /// The sentences, to be changed in place.
    pub fn sentences_mut(&mut self) -> (r: &mut Vec<Sentence>)
        ensures
            r@ == old(self)@,
            final(self)@ == final(r)@,
    {
        &mut self.sentences
    }
}

} // verus!
