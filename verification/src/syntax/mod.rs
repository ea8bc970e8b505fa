//! The structure of analysed text: documents, sentences and their constituents.
pub mod constituent;
pub mod determinator;
pub mod document;
pub mod range;
pub mod sentence;
pub mod substantive;

pub use self::constituent::{NounConstituent, NounConstituentCore, Verb, VerbConjugation, VerbConstituent};
pub use self::determinator::{Article, AtomicDeterminator, Determinator};
pub use self::document::Document;
pub use self::range::{Range, Ranged};
pub use self::sentence::{IndependentClause, Sentence, SentenceKind, Subject};
pub use self::substantive::Substantive;

use vstd::prelude::*;

verus! {

/// A value shared by several owners.
pub type Shared<T> = std::rc::Rc<T>;

} // verus!
