use vstd::prelude::*;

verus! {

/// A determinator: the word before a noun that fixes what it refers to.
#[derive(Debug, Clone, Copy, PartialEq, Eq, Structural)]
pub enum Determinator {
    Atomic(AtomicDeterminator),
}

/// A determinator made of a single word.
#[derive(Debug, Clone, Copy, PartialEq, Eq, Structural)]
pub enum AtomicDeterminator {
    Article(Article),
}

/// The Dutch articles.
#[derive(Debug, Clone, Copy, PartialEq, Eq, Structural)]
pub enum Article {
    De,
    Het,
    Een,
}

} // verus!
