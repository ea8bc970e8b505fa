use vstd::prelude::*;
use vstd::string::StringExecFns;

use crate::parser::article_of;
use crate::syntax::{Article, AtomicDeterminator, Determinator};
use crate::text::ascii_lower_chars;

verus! {

/// What a determinator has to do with plural nouns.
pub trait DeterminatorExtensions {
    /// Whether this determinator can stand before a plural noun.
    spec fn spec_is_valid_for_plural(&self) -> bool;

    /// The text that replaces this determinator before a plural noun.
    spec fn spec_plural_form(&self) -> Seq<char>;

    /// Whether this determinator can stand before a plural noun.
    fn is_valid_for_plural(&self) -> (r: bool)
        ensures
            r == self.spec_is_valid_for_plural(),
    ;

    /// Get the replacement [`String`] to convert this determinator to a
    /// plural form.
    fn to_plural_form(&self) -> (r: String)
        ensures
            r@ == self.spec_plural_form(),
    ;
}

impl DeterminatorExtensions for Article {
    open spec fn spec_is_valid_for_plural(&self) -> bool {
        *self == Article::De
    }

    open spec fn spec_plural_form(&self) -> Seq<char> {
        "de"@
    }

    fn is_valid_for_plural(&self) -> (r: bool) {
        *self == Article::De
    }

    fn to_plural_form(&self) -> (r: String) {
        String::from_str("de")
    }
}

impl DeterminatorExtensions for AtomicDeterminator {
    open spec fn spec_is_valid_for_plural(&self) -> bool {
        match self {
            AtomicDeterminator::Article(art) => art.spec_is_valid_for_plural(),
        }
    }

    open spec fn spec_plural_form(&self) -> Seq<char> {
        match self {
            AtomicDeterminator::Article(art) => art.spec_plural_form(),
        }
    }

    fn is_valid_for_plural(&self) -> (r: bool) {
        match self {
            AtomicDeterminator::Article(art) => art.is_valid_for_plural(),
        }
    }

    fn to_plural_form(&self) -> (r: String) {
        match self {
            AtomicDeterminator::Article(art) => art.to_plural_form(),
        }
    }
}

impl DeterminatorExtensions for Determinator {
    open spec fn spec_is_valid_for_plural(&self) -> bool {
        match self {
            Determinator::Atomic(atomic) => atomic.spec_is_valid_for_plural(),
        }
    }

    open spec fn spec_plural_form(&self) -> Seq<char> {
        match self {
            Determinator::Atomic(atomic) => atomic.spec_plural_form(),
        }
    }

    fn is_valid_for_plural(&self) -> (r: bool) {
        match self {
            Determinator::Atomic(atomic) => atomic.is_valid_for_plural(),
        }
    }

    fn to_plural_form(&self) -> (r: String) {
        match self {
            Determinator::Atomic(atomic) => atomic.to_plural_form(),
        }
    }
}

/// The replacement offered for a determinator before a plural noun is read back as the
/// article `de`, which can stand before a plural noun.
pub proof fn lemma_plural_form_is_valid_for_plural(determinator: Determinator)
    ensures
        article_of(determinator.spec_plural_form()) == Some(Article::De),
        Article::De.spec_is_valid_for_plural(),
{
    reveal_strlit("de");
    reveal_strlit("het");
    assert(ascii_lower_chars("de"@).len() == 2);
    assert(ascii_lower_chars("het"@).len() == 3);
}

} // verus!
