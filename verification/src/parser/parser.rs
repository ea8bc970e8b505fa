use vstd::prelude::*;

use super::error::{ParseError, ParseErrorKind, ParseResult};
use super::input::{lemma_advances_to, lemma_steps_advance, lemma_word_count_steps, Input, InputView};
use crate::catalog::{find_word, Catalog, CatalogIndex, SharedVec, WordTrait, WordView};
use crate::syntax::{
    Article, AtomicDeterminator, Determinator, NounConstituent, NounConstituentCore, Range, Ranged,
    Substantive,
};
use crate::text::{ascii_lower, ascii_lower_chars, str_eq_ignore_ascii_case, utf8_len, word_count};

verus! {

/// The article that `word` spells, whatever the case of its ASCII letters.
pub open spec fn article_of(word: Seq<char>) -> Option<Article> {
    if ascii_lower_chars(word) == ascii_lower_chars("het"@) {
        Some(Article::Het)
    } else if ascii_lower_chars(word) == ascii_lower_chars("de"@) {
        Some(Article::De)
    } else if ascii_lower_chars(word) == ascii_lower_chars("een"@) {
        Some(Article::Een)
    } else {
        None
    }
}

/// Whether one of `traits` marks a noun.
pub open spec fn has_noun_trait(traits: Seq<WordTrait>) -> bool {
    exists|i: int| 0 <= i < traits.len() && #[trigger] traits[i] is Noun
}

/// The span of the text between two offsets.
pub open spec fn span(from: InputView, to: InputView) -> Range {
    Range { start: from.offset as usize, end: to.offset as usize }
}

/// Reading an article: the next word is consumed, and it is the article it spells,
/// or a failure on its span.
pub open spec fn spec_parse_article(v: InputView) -> (ParseResult<Article>, InputView) {
    match article_of(v.next_word()) {
        Some(a) => (Ok(a), v.consume()),
        None => (
            Err(ParseError { kind: ParseErrorKind::ExpectedArticleDeterminator, range: v.next_word_range() }),
            v.consume(),
        ),
    }
}

/// Reading a determinator: an article, spanning from where the input stood.
pub open spec fn spec_parse_determinator(v: InputView) -> (ParseResult<Ranged<Determinator>>, InputView) {
    let (r, w) = spec_parse_article(v);
    match r {
        Ok(a) => (
            Ok(Ranged { range: span(v, w), t: Determinator::Atomic(AtomicDeterminator::Article(a)) }),
            w,
        ),
        Err(e) => (Err(e), w),
    }
}

/// Trying to read a determinator: the input moves on only when one is read.
pub open spec fn spec_attempt_determinator(v: InputView) -> (Option<Ranged<Determinator>>, InputView) {
    let (r, w) = spec_parse_determinator(v);
    match r {
        Ok(d) => (Some(d), w),
        Err(_) => (None, v),
    }
}

/// Reading a noun: the next word is consumed; it must be in the catalog, and the first
/// entry spelled so must be a noun.
pub open spec fn spec_parse_substantive(cat: Seq<Option<WordView>>, v: InputView) -> (
    ParseResult<Substantive>,
    InputView,
) {
    let range = v.next_word_range();
    match find_word(cat, v.next_word()) {
        None => (
            Err(ParseError { kind: ParseErrorKind::ExpectedSubstantiveWasUnknownWord, range }),
            v.consume(),
        ),
        Some((i, w)) => if has_noun_trait(w.traits) {
            (Ok(Substantive { catalog_index: CatalogIndex(i) }), v.consume())
        } else {
            (Err(ParseError { kind: ParseErrorKind::ExpectedSubstantiveWasNot, range }), v.consume())
        },
    }
}

/// Reading the core of a noun constituent: a noun, with its span.
pub open spec fn spec_parse_noun_constituent_core(cat: Seq<Option<WordView>>, v: InputView) -> (
    ParseResult<Ranged<NounConstituentCore>>,
    InputView,
) {
    let (r, w) = spec_parse_substantive(cat, v);
    match r {
        Ok(s) => (Ok(Ranged { range: span(v, w), t: NounConstituentCore::Substantive(s) }), w),
        Err(e) => (Err(e), w),
    }
}

/// Reading a noun constituent: an optional determinator, then a noun; the span runs
/// from where the input stood to the end of the noun.
pub open spec fn spec_parse_noun_constituent(cat: Seq<Option<WordView>>, v: InputView) -> (
    ParseResult<NounConstituent>,
    InputView,
) {
    let (determinator, v1) = spec_attempt_determinator(v);
    let (core, v2) = spec_parse_noun_constituent_core(cat, v1.trim_start());
    match core {
        Ok(c) => (Ok(NounConstituent { range: span(v, v2), determinator, core: c }), v2),
        Err(e) => (Err(e), v2),
    }
}

/// Lower-casing the ASCII letters of a text a second time changes nothing.
proof fn lemma_ascii_lower_idempotent(word: Seq<char>)
    ensures
        ascii_lower_chars(ascii_lower_chars(word)) == ascii_lower_chars(word),
{
    assert forall|i: int| 0 <= i < word.len() implies ascii_lower(ascii_lower(word[i])) == ascii_lower(
        word[i],
    ) by {
        let c = word[i];
        if 'A' <= c && c <= 'Z' {
            assert(((c as u32) + 32) as char == ascii_lower(c));
        }
    }
    assert(ascii_lower_chars(ascii_lower_chars(word)) =~= ascii_lower_chars(word));
}

/// Which article a word spells does not depend on the case of its ASCII letters: a word
/// reads as "het", "de" or "een" exactly when its lower-case form is that word, so
/// "Een", "EEN" and "een" are all the indefinite article.
pub proof fn lemma_article_ignores_ascii_case(word: Seq<char>)
    ensures
        article_of(word) == article_of(ascii_lower_chars(word)),
        article_of(word) == Some(Article::Het) <==> ascii_lower_chars(word) == "het"@,
        article_of(word) == Some(Article::De) <==> ascii_lower_chars(word) == "de"@,
        article_of(word) == Some(Article::Een) <==> ascii_lower_chars(word) == "een"@,
        article_of(word) is None <==> (ascii_lower_chars(word) != "het"@ && ascii_lower_chars(word)
            != "de"@ && ascii_lower_chars(word) != "een"@),
{
    reveal_strlit("het");
    reveal_strlit("de");
    reveal_strlit("een");
    lemma_ascii_lower_idempotent(word);
    assert(ascii_lower_chars("het"@) =~= "het"@);
    assert(ascii_lower_chars("de"@) =~= "de"@);
    assert(ascii_lower_chars("een"@) =~= "een"@);
    assert("een"@[0] != "het"@[0]);
    assert("een"@.len() != "de"@.len());
    assert("het"@.len() != "de"@.len());
}

/// A noun constituent keeps the determinator that starts it: when the first word is an
/// article, the constituent read has that article, spanning the word, as determinator,
/// and its noun is the word after it; when it is not, it has no determinator and its noun
/// is the first word.
pub proof fn lemma_noun_constituent_keeps_determinator(cat: Seq<Option<WordView>>, v: InputView)
    ensures
        spec_parse_noun_constituent(cat, v).0 matches Ok(noun) ==> match article_of(v.next_word()) {
            Some(a) => {
                &&& noun.determinator == Some(
                    Ranged {
                        range: span(v, v.consume()),
                        t: Determinator::Atomic(AtomicDeterminator::Article(a)),
                    },
                )
                &&& spec_parse_noun_constituent_core(cat, v.consume().trim_start()).0 == Ok::<
                    Ranged<NounConstituentCore>,
                    ParseError,
                >(noun.core)
            },
            None => {
                &&& noun.determinator is None
                &&& spec_parse_noun_constituent_core(cat, v.trim_start()).0 == Ok::<
                    Ranged<NounConstituentCore>,
                    ParseError,
                >(noun.core)
            },
        },
{
}

/// Each parse step consumes a prefix of the input; reading a noun constituent from an
/// input with more than white space left consumes something, whether it succeeds or fails.
pub proof fn lemma_noun_constituent_advances(cat: Seq<Option<WordView>>, v: InputView)
    ensures
        v.advances_to(spec_parse_article(v).1),
        v.advances_to(spec_parse_determinator(v).1),
        v.advances_to(spec_attempt_determinator(v).1),
        v.advances_to(spec_parse_substantive(cat, v).1),
        v.advances_to(spec_parse_noun_constituent_core(cat, v).1),
        v.advances_to(spec_parse_noun_constituent(cat, v).1),
        v.has_next() ==> spec_parse_noun_constituent(cat, v).1.offset > v.offset,
{
    lemma_steps_advance(v);
    let v1 = spec_attempt_determinator(v).1;
    let v2 = v1.trim_start();
    lemma_steps_advance(v1);
    lemma_steps_advance(v2);
    lemma_advances_to(v, v1, v2);
    lemma_advances_to(v, v2, v2.consume());
    lemma_advances_to(v1, v2, v2.consume());
    if v.has_next() {
        if spec_parse_determinator(v).0 is Ok {
            lemma_advances_to(v, v1, v2.consume());
            lemma_advances_to(v1, v2, v2.consume());
        } else {
            assert(v1 == v);
            lemma_trim_start_keeps_next(v);
        }
    }
}

/// A noun constituent spans from where the input stood to the end of its noun, and its
/// determinator, if any, lies between its start and the start of its noun.
pub proof fn lemma_noun_constituent_spans(cat: Seq<Option<WordView>>, v: InputView)
    requires
        0 <= v.offset,
        v.offset + utf8_len(v.data) <= usize::MAX,
    ensures
        spec_parse_noun_constituent(cat, v).0 matches Ok(noun) ==> {
            &&& noun.range.start == v.offset
            &&& noun.range.start <= noun.core.range.start <= noun.core.range.end
            &&& noun.core.range.end == noun.range.end
            &&& noun.determinator matches Some(d) ==> noun.range.start == d.range.start
                <= d.range.end <= noun.core.range.start
        },
{
    lemma_noun_constituent_advances(cat, v);
    let v1 = spec_attempt_determinator(v).1;
    let v2 = v1.trim_start();
    let v3 = spec_parse_noun_constituent_core(cat, v2).1;
    lemma_steps_advance(v1);
    lemma_noun_constituent_advances(cat, v2);
    lemma_advances_to(v, v1, v2);
    lemma_advances_to(v1, v2, v3);
    lemma_advances_to(v, v2, v3);
    lemma_advances_to(v, v3, v3);
    lemma_advances_to(v2, v3, v3);
    lemma_advances_to(v1, v1, v1);
    crate::text::lemma_utf8_len_bounds(v1.data);
    crate::text::lemma_utf8_len_bounds(v2.data);
    crate::text::lemma_utf8_len_bounds(v3.data);
}

/// Reading a noun constituent never adds words to the input, and takes at least one
/// from an input with more than white space left, whether it succeeds or fails.
pub proof fn lemma_noun_constituent_words(cat: Seq<Option<WordView>>, v: InputView)
    ensures
        word_count(spec_parse_noun_constituent(cat, v).1.data) <= word_count(v.data),
        v.has_next() ==> word_count(spec_parse_noun_constituent(cat, v).1.data) < word_count(
            v.data,
        ),
{
    let v1 = spec_attempt_determinator(v).1;
    let v2 = v1.trim_start();
    lemma_word_count_steps(v);
    lemma_word_count_steps(v1);
    lemma_word_count_steps(v2);
    assert(spec_parse_noun_constituent(cat, v).1 == v2.consume());
}

/// Trimming white space keeps whether anything but white space is left, and the next
/// word then holds a character.
proof fn lemma_trim_start_keeps_next(v: InputView)
    requires
        v.has_next(),
    ensures
        v.trim_start().has_next(),
        v.trim_start().consume().offset > v.trim_start().offset,
{
    lemma_steps_advance(v);
    crate::text::lemma_leading_white_space(v.data);
    let k = crate::text::leading_white_space(v.data) as int;
    assert(crate::text::trim_start_chars(v.data) =~= v.data.skip(k));
    crate::text::lemma_leading_white_space(v.data.skip(k));
    assert(crate::text::leading_white_space(v.data.skip(k)) == 0) by {
        crate::text::lemma_trim_empty(v.data);
        if v.data.skip(k).len() > 0 {
            assert(v.data.skip(k)[0] == v.data[k]);
        }
    }
    assert(v.data.skip(k).skip(0) =~= v.data.skip(k));
    assert(v.trim_start().trim_start().data =~= v.trim_start().data);
    lemma_steps_advance(v.trim_start());
}

/// Reads an article: consumes the next word, and gives the article it spells whatever
/// the case of its letters (`het`, `de` or `een`), or fails on its span.
pub fn parse_article(input: &mut Input<'_>) -> (r: ParseResult<Article>)
    requires
        old(input).wf(),
    ensures
        final(input).wf(),
        final(input).original() == old(input).original(),
        (r, final(input)@) == spec_parse_article(old(input)@),
        old(input).aligned() ==> final(input).aligned(),
{
    let (word, range) = input.consume_until_space();
    if str_eq_ignore_ascii_case(word, "het") {
        Ok(Article::Het)
    } else if str_eq_ignore_ascii_case(word, "de") {
        Ok(Article::De)
    } else if str_eq_ignore_ascii_case(word, "een") {
        Ok(Article::Een)
    } else {
        range.to_error(ParseErrorKind::ExpectedArticleDeterminator)
    }
}

/// Reads a determinator (an article) and the span it was read from.
pub fn parse_determinator(input: &mut Input<'_>) -> (r: ParseResult<Ranged<Determinator>>)
    requires
        old(input).wf(),
    ensures
        final(input).wf(),
        final(input).original() == old(input).original(),
        (r, final(input)@) == spec_parse_determinator(old(input)@),
        old(input).aligned() ==> final(input).aligned(),
{
    let start = input.offset();
    let article = match parse_article(input) {
        Ok(article) => article,
        Err(e) => return Err(e),
    };
    let range = Range::new(start, input.offset());
    Ok(Ranged::new(range, Determinator::Atomic(AtomicDeterminator::Article(article))))
}

/// Reads a noun constituent: a determinator if one comes first, then a noun.
pub fn parse_noun_constituent(input: &mut Input<'_>, catalog: &Catalog) -> (r: ParseResult<
    NounConstituent,
>)
    requires
        old(input).wf(),
    ensures
        final(input).wf(),
        final(input).original() == old(input).original(),
        (r, final(input)@) == spec_parse_noun_constituent(catalog@, old(input)@),
        old(input).aligned() ==> final(input).aligned(),
{
    let start = input.offset();
    let determinator = input.attempt(parse_determinator).ok();
    input.trim_start();
    let core = match parse_noun_constituent_core(input, catalog) {
        Ok(core) => core,
        Err(e) => return Err(e),
    };
    let range = Range { start, end: input.offset() };
    Ok(NounConstituent { determinator, core, range })
}

/// Reads a noun: the next word must be in the catalog as a noun.
pub fn parse_substantive(input: &mut Input<'_>, catalog: &Catalog) -> (r: ParseResult<Substantive>)
    requires
        old(input).wf(),
    ensures
        final(input).wf(),
        final(input).original() == old(input).original(),
        (r, final(input)@) == spec_parse_substantive(catalog@, old(input)@),
        old(input).aligned() ==> final(input).aligned(),
{
    let (text, range) = input.consume_until_space();
    let (catalog_index, word) = match catalog.find(text) {
        Some(found) => found,
        None => return range.to_error(ParseErrorKind::ExpectedSubstantiveWasUnknownWord),
    };
    if !is_noun(&word.traits) {
        return range.to_error(ParseErrorKind::ExpectedSubstantiveWasNot);
    }
    Ok(Substantive { catalog_index })
}

/// Reads the core of a noun constituent (a noun) and the span it was read from.
pub fn parse_noun_constituent_core(input: &mut Input<'_>, catalog: &Catalog) -> (r: ParseResult<
    Ranged<NounConstituentCore>,
>)
    requires
        old(input).wf(),
    ensures
        final(input).wf(),
        final(input).original() == old(input).original(),
        (r, final(input)@) == spec_parse_noun_constituent_core(catalog@, old(input)@),
        old(input).aligned() ==> final(input).aligned(),
{
    let start = input.offset();
    let core = NounConstituentCore::Substantive(
        match parse_substantive(input, catalog) {
            Ok(substantive) => substantive,
            Err(e) => return Err(e),
        },
    );
    Ok(Ranged::new(Range::new(start, input.offset()), core))
}

/// Whether one of `traits` marks a noun.
fn is_noun(traits: &SharedVec<WordTrait>) -> (r: bool)
    ensures
        r == has_noun_trait(traits@),
{
    let n = traits.len();
    let mut i: usize = 0;
    while i < n
        invariant
            n == traits@.len(),
            i <= n,
            forall|j: int| 0 <= j < i ==> !(#[trigger] traits@[j] is Noun),
        decreases n - i,
    {
        if let WordTrait::Noun { .. } = traits.get(i) {
            return true;
        }
        i = i + 1;
    }
    false
}

} // verus!
