//! Parsing text into a document of noun constituents, one word at a time.
pub mod document;
pub mod error;
pub mod input;
pub mod parser;
pub mod sentence;

pub use self::document::{parse_document, parse_document_with_failures};
pub use self::error::{ParseError, ParseErrorKind, ParseResult};
pub use self::input::{Input, InputView, Range};
pub use self::parser::{
    article_of, parse_article, parse_determinator, parse_noun_constituent,
    parse_noun_constituent_core, parse_substantive,
};
pub use self::sentence::{parse_independent_clause, parse_sentence, parse_subject};
