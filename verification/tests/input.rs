use mango3::parser::{Input, ParseError, ParseErrorKind, ParseResult, Range};

#[test]
fn new_skips_leading_white_space() {
    let input = Input::new("  \t hallo wereld");
    assert_eq!(input.offset(), 4);
    assert_eq!(input.original_str(), "  \t hallo wereld");
    assert!(input.has_next());
}

#[test]
fn offsets_count_bytes() {
    // U+00A0 is white space of two bytes, `é` a letter of two bytes.
    let text = "\u{a0}café  thé";
    let mut input = Input::new(text);
    assert_eq!(input.offset(), 2);
    let (word, range) = input.consume_until_space();
    assert_eq!(word, "café");
    assert_eq!(range, Range::new(2, 7));
    assert_eq!(&text[range.start..range.end], word);
    let (word, range) = input.consume_until_space();
    assert_eq!(word, "thé");
    assert_eq!(range, Range::new(9, 13));
    assert_eq!(&text[range.start..range.end], word);
    assert!(!input.has_next());
}

#[test]
fn consume_until_space_at_end() {
    let mut input = Input::new("een");
    let (word, range) = input.consume_until_space();
    assert_eq!(word, "een");
    assert_eq!(range, Range::new(0, 3));
    assert_eq!(input.offset(), 3);
    let (word, range) = input.consume_until_space();
    assert_eq!(word, "");
    assert_eq!(range, Range::new(3, 3));
}

#[test]
fn consume_until_space_skips_unicode_white_space() {
    let text = "a\u{3000}b";
    let mut input = Input::new(text);
    assert_eq!(input.consume_until_space().0, "a");
    let (word, range) = input.consume_until_space();
    assert_eq!(word, "b");
    assert_eq!(range, Range::new(4, 5));
}

#[test]
fn has_next_ignores_white_space() {
    let input = Input::new(" \n\t ");
    assert!(!input.has_next());
    assert_eq!(input.offset(), 4);
    let empty = Input::new("");
    assert!(!empty.has_next());
    assert_eq!(empty.offset(), 0);
}

#[test]
fn trim_start_moves_offset() {
    let mut input = Input::new("a   b");
    input.consume_until_space();
    assert_eq!(input.offset(), 1);
    input.trim_start();
    assert_eq!(input.offset(), 4);
    assert_eq!(input.consume_until_space().0, "b");
}

#[test]
fn trim_counts_trailing_white_space_in_offset() {
    let mut input = Input::new("a  ");
    input.trim();
    // two trailing spaces removed: the offset moves on by them
    assert_eq!(input.offset(), 2);
    let (word, _) = input.consume_until_space();
    assert_eq!(word, "a");
    assert_eq!(input.offset(), 3);
}

#[test]
fn with_offset_tracking_measures_the_step() {
    let mut input = Input::new("de kat");
    let ((word, inner), outer) = input.with_offset_tracking(|i| i.consume_until_space());
    assert_eq!(word, "de");
    assert_eq!(inner, Range::new(0, 2));
    assert_eq!(outer, Range::new(0, 4));
    assert_eq!(input.offset(), 4);
}

#[test]
fn attempt_restores_on_failure() {
    let mut input = Input::new("hond kat");
    let failed: ParseResult<()> = input.attempt(|i| {
        let (_, range) = i.consume_until_space();
        range.to_error(ParseErrorKind::ExpectedArticleDeterminator)
    });
    assert_eq!(
        failed,
        Err(ParseError { kind: ParseErrorKind::ExpectedArticleDeterminator, range: Range::new(0, 4) })
    );
    assert_eq!(input.offset(), 0);
    let succeeded: ParseResult<usize> = input.attempt(|i| Ok(i.consume_until_space().1.end));
    assert_eq!(succeeded, Ok(4));
    assert_eq!(input.offset(), 4);
}

#[test]
fn to_error_keeps_the_range() {
    let result: ParseResult<u8> = Range::new(3, 9).to_error(ParseErrorKind::ExpectedSubstantiveWasNot);
    assert_eq!(
        result,
        Err(ParseError { kind: ParseErrorKind::ExpectedSubstantiveWasNot, range: Range { start: 3, end: 9 } })
    );
}

#[test]
fn ascii_punctuation_matches_std() {
    for c in ['!', '/', ':', '@', '[', '`', '{', '~', 'a', 'Z', '0', ' ', '\u{7f}', '\u{a1}', '\u{2014}'] {
        assert_eq!(mango3::text::char_is_ascii_punctuation(c), c.is_ascii_punctuation());
    }
}
