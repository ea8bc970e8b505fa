//! Agreement checks for Dutch noun phrases: a catalog of words, a parser for
//! noun constituents, and an analysis of determinators against the nouns they
//! precede.
pub mod analysis;
pub mod catalog;
pub mod parser;
pub mod syntax;
pub mod text;
pub mod verb_page;
