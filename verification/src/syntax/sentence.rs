use vstd::prelude::*;

use super::constituent::{NounConstituent, VerbConstituent};
use crate::catalog::ConjugationKind;

verus! {

/// A sentence of the analysed text.
#[derive(Debug, Clone)]
pub struct Sentence {
    pub kind: SentenceKind,
}

/// The forms a sentence can take.
#[derive(Debug, Clone)]
pub enum SentenceKind {
    IndependentClause(IndependentClause),
    NounConstituent(NounConstituent),
}

/// A clause that can stand on its own: a subject and its verbs.
#[derive(Debug, Clone)]
pub struct IndependentClause {
    pub subject: Subject,
    pub verb: VerbConstituent,
}

/// The subject of a clause.
#[derive(Debug, Clone, Copy)]
pub enum Subject {
    NounConstituent(NounConstituent),
}

impl Subject {
    /// Whether a verb conjugated as `conjugation` can go with this subject: for now the
    /// third person, whatever the subject.
    pub open spec fn spec_allows_conjugation(self, conjugation: ConjugationKind) -> bool {
        match self {
            Subject::NounConstituent(constituent) => spec_noun_constituent_allows_conjugation(
                constituent,
                conjugation,
            ),
        }
    }

    /// Whether a verb conjugated as `conjugation` can go with this subject.
    pub fn allows_conjugation(&self, conjugation: ConjugationKind) -> (r: bool)
        ensures
            r == self.spec_allows_conjugation(conjugation),
            r == (conjugation == ConjugationKind::ThirdPerson),
    {
        match self {
            Subject::NounConstituent(constituent) => noun_constituent_allows_conjugation(
                constituent,
                conjugation,
            ),
        }
    }
}

/// Which conjugations a subject allows does not depend on the subject: only the third
/// person is allowed.
pub proof fn lemma_allows_conjugation_ignores_subject(
    first: Subject,
    second: Subject,
    conjugation: ConjugationKind,
)
    ensures
        first.spec_allows_conjugation(conjugation) == second.spec_allows_conjugation(conjugation),
        first.spec_allows_conjugation(conjugation) == (conjugation == ConjugationKind::ThirdPerson),
{
}

/// Whether a verb conjugated as `conjugation` can go with `constituent` as subject: for
/// now the third person, whatever the constituent.
pub open spec fn spec_noun_constituent_allows_conjugation(
    constituent: NounConstituent,
    conjugation: ConjugationKind,
) -> bool {
    conjugation == ConjugationKind::ThirdPerson
}

/// Which conjugations a noun constituent allows as subject does not depend on the
/// constituent: only the third person is allowed.
pub proof fn lemma_noun_constituent_allows_conjugation_ignores_constituent(
    first: NounConstituent,
    second: NounConstituent,
    conjugation: ConjugationKind,
)
    ensures
        spec_noun_constituent_allows_conjugation(first, conjugation)
            == spec_noun_constituent_allows_conjugation(second, conjugation),
        spec_noun_constituent_allows_conjugation(first, conjugation) == (conjugation
            == ConjugationKind::ThirdPerson),
{
}

/// A noun constituent as subject takes the third person.
fn noun_constituent_allows_conjugation(
    constituent: &NounConstituent,
    conjugation: ConjugationKind,
) -> (r: bool)
    ensures
        r == spec_noun_constituent_allows_conjugation(*constituent, conjugation),
        r == (conjugation == ConjugationKind::ThirdPerson),
{
    conjugation == ConjugationKind::ThirdPerson
}

} // verus!
