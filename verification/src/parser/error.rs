use vstd::prelude::*;

use super::input::Range;

verus! {

/// The result of a parse step.
pub type ParseResult<T> = Result<T, ParseError>;

/// Why a parse step failed, and on which span of text.
#[derive(Debug, Clone, Copy, PartialEq, Eq, Structural)]
pub struct ParseError {
    pub kind: ParseErrorKind,
    pub range: Range,
}

/// The kinds of parse failure.
#[derive(Debug, Clone, Copy, PartialEq, Eq, Structural)]
pub enum ParseErrorKind {
    /// The word is not an article.
    ExpectedArticleDeterminator,
    /// A noun was expected, but the catalog does not know the word.
    ExpectedSubstantiveWasUnknownWord,
    /// A noun was expected, but the catalog does not know the word as a noun.
    ExpectedSubstantiveWasNot,
}

} // verus!
