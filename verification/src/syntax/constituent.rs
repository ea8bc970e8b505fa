use vstd::prelude::*;

use super::determinator::Determinator;
use super::range::{Range, Ranged};
use super::substantive::Substantive;
use crate::catalog::{ConjugationKind, VerbId};

verus! {

/// The noun constituent is a noun with optional helper words surrounding it.
#[derive(Debug, Clone, Copy)]
pub struct NounConstituent {
    pub range: Range,
    pub determinator: Option<Ranged<Determinator>>,
    pub core: Ranged<NounConstituentCore>,
}

/// The word a noun constituent is built around.
#[derive(Debug, Clone, Copy, PartialEq, Eq, Structural)]
pub enum NounConstituentCore {
    Substantive(Substantive),
}

/// A conjugated verb form in a clause.
#[derive(Debug, Clone, Copy)]
pub struct Verb {
    pub range: Range,
    pub id: VerbId,
    pub conjugation: VerbConjugation,
}

/// The person, number and tense of a conjugated verb form.
#[derive(Debug, Clone, Copy, PartialEq, Eq, Structural)]
pub struct VerbConjugation {
    pub kind: ConjugationKind,
    pub is_past: bool,
}

/// The verbs of a clause.
#[derive(Debug, Default, Clone)]
pub struct VerbConstituent {
    pub verbs: Vec<Verb>,
}

} // verus!
