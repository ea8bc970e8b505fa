use vstd::prelude::*;
use vstd::std_specs::iter::IteratorSpec;
use std::sync::Arc;

use super::verb::{ConjugationKind, VerbId};

verus! {

/// The grammatical gender of a noun.
#[derive(Debug, Clone, Copy, PartialEq, Eq, Structural)]
pub enum Gender {
    Masculine,
    Feminine,
    Neuter,
}

/// The gender that the catalog stores as `code`.
pub open spec fn gender_of_code(code: u8) -> Gender {
    if code == 0 {
        Gender::Masculine
    } else if code == 1 {
        Gender::Feminine
    } else {
        Gender::Neuter
    }
}

impl Gender {
    /// Decodes the catalog's numeric code of a gender (0 to 2).
    pub fn from_u8(value: u8) -> (r: Gender)
        requires
            value <= 2,
        ensures
            r == gender_of_code(value),
    {
        match value {
            0 => Gender::Masculine,
            1 => Gender::Feminine,
            _ => Gender::Neuter,
        }
    }
}

/// Whether a noun form names one thing or several.
#[derive(Debug, Clone, Copy, PartialEq, Eq, Structural)]
pub enum Multiplicity {
    Singular,
    Plural,
}

/// The multiplicity that the catalog stores as `code`.
pub open spec fn multiplicity_of_code(code: u8) -> Multiplicity {
    if code == 0 {
        Multiplicity::Singular
    } else {
        Multiplicity::Plural
    }
}

impl Multiplicity {
    /// Decodes the catalog's numeric code of a multiplicity (0 or 1).
    pub fn from_u8(value: u8) -> (r: Multiplicity)
        requires
            value <= 1,
        ensures
            r == multiplicity_of_code(value),
    {
        match value {
            0 => Multiplicity::Singular,
            _ => Multiplicity::Plural,
        }
    }
}

/// One grammatical role that a word form can play.
#[derive(Debug, Clone, Copy, PartialEq, Eq, Structural)]
pub enum WordTrait {
    Noun { gender: Gender, multiplicity: Multiplicity },
    Verb { verb: VerbId },
    VerbConjugationIndicative { verb: VerbId, kind: ConjugationKind, is_past: bool },
}

/// An immutable list that several words may share.
#[derive(Debug)]
pub struct SharedVec<T> {
    inner: Arc<Vec<T>>,
}

/// Calls `Arc::clone` of std. Trusted: the contract takes from its documentation that the
/// result points to the same allocation, so it holds the same value.
#[verifier::external_body]
fn clone_arc<T>(a: &Arc<T>) -> (r: Arc<T>)
    ensures
        r == *a,
{
    a.clone()
}

impl<T> Clone for SharedVec<T> {
    /// Another handle on the same items.
    fn clone(&self) -> (r: Self)
        ensures
            r@ == self@,
    {
        SharedVec { inner: clone_arc(&self.inner) }
    }
}

impl<T> View for SharedVec<T> {
    type V = Seq<T>;

    closed spec fn view(&self) -> Seq<T> {
        self.inner@
    }
}

impl<T> SharedVec<T> {
    /// An iterator over the items, in order.
    pub fn iter(&self) -> (r: core::slice::Iter<'_, T>)
        ensures
            r.remaining().unref() == self@,
    {
        let r = (*self.inner).as_slice().iter();
        proof {
            broadcast use vstd::std_specs::slice::axiom_spec_slice_iter;

            assert(r.remaining().unref() =~= self@);
        }
        r
    }

    /// The number of items.
    pub fn len(&self) -> (n: usize)
        ensures
            n == self@.len(),
    {
        self.inner.len()
    }

    /// The item at position `i`.
    pub fn get(&self, i: usize) -> (r: &T)
        requires
            i < self@.len(),
        ensures
            *r == self@[i as int],
    {
        &self.inner[i]
    }
}

impl<'a, T> IntoIterator for &'a SharedVec<T> {
    type Item = &'a T;

    type IntoIter = core::slice::Iter<'a, T>;

    fn into_iter(self) -> (r: core::slice::Iter<'a, T>)
        ensures
            r.remaining().unref() == self@,
    {
        let r = (*self.inner).as_slice().iter();
        proof {
            broadcast use vstd::std_specs::slice::axiom_spec_slice_iter;

            assert(r.remaining().unref() =~= self@);
        }
        r
    }
}

impl<T> From<Vec<T>> for SharedVec<T> {
    fn from(value: Vec<T>) -> (r: Self)
        ensures
            r@ == value@,
    {
        SharedVec { inner: Arc::new(value) }
    }
}

impl<T> vstd::std_specs::convert::FromSpecImpl<Vec<T>> for SharedVec<T> {
    open spec fn obeys_from_spec() -> bool {
        false
    }

    closed spec fn from_spec(v: Vec<T>) -> Self {
        choose|s: SharedVec<T>| s@ == v@
    }
}

/// What a word of the catalog is, as plain values.
pub struct WordView {
    pub text: Seq<char>,
    pub traits: Seq<WordTrait>,
}

/// A word form of the catalog with its grammatical roles.
#[derive(Debug)]
pub struct Word {
    pub text: String,
    pub traits: SharedVec<WordTrait>,
}

impl View for Word {
    type V = WordView;

    open spec fn view(&self) -> WordView {
        WordView { text: self.text@, traits: self.traits@ }
    }
}

/// Whether one of `traits` marks an indicative conjugation of kind `kind` whose tense is
/// past exactly when `is_past` is.
pub open spec fn has_conjugation(traits: Seq<WordTrait>, kind: ConjugationKind, is_past: bool) -> bool {
    exists|i: int|
        0 <= i < traits.len() && (#[trigger] traits[i] matches WordTrait::VerbConjugationIndicative {
            kind: k,
            is_past: p,
            ..
        } && k == kind && p == is_past)
}

impl Clone for Word {
    /// A copy of the spelling, sharing the roles.
    fn clone(&self) -> (r: Word)
        ensures
            r@ == self@,
    {
        Word { text: self.text.clone(), traits: self.traits.clone() }
    }
}

impl Word {
    /// Whether this word is the indicative conjugation of kind `kind`, in the past tense
    /// exactly when `is_past` is.
    pub fn is_conjugation(&self, kind: ConjugationKind, is_past: bool) -> (r: bool)
        ensures
            r == has_conjugation(self.traits@, kind, is_past),
    {
        let query_kind = kind;
        let query_is_past = is_past;
        let n = self.traits.len();
        let mut i: usize = 0;
        while i < n
            invariant
                n == self.traits@.len(),
                i <= n,
                query_kind == kind,
                query_is_past == is_past,
                forall|j: int|
                    0 <= j < i ==> !(#[trigger] self.traits@[j] matches WordTrait::VerbConjugationIndicative {
                        kind: k,
                        is_past: p,
                        ..
                    } && k == query_kind && p == query_is_past),
            decreases n - i,
        {
            if let WordTrait::VerbConjugationIndicative { kind: k, is_past: p, .. } = *self.traits.get(i) {
                if k == query_kind && p == query_is_past {
                    assert(self.traits@[i as int] matches WordTrait::VerbConjugationIndicative {
                        kind: k,
                        is_past: p,
                        ..
                    } && k == query_kind && p == query_is_past);
                    return true;
                }
            }
            i = i + 1;
        }
        false
    }
}

} // verus!
