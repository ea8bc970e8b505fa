use vstd::prelude::*;
use vstd::string::StrSliceExecFns;

use super::error::ParseResult;
use super::input::{lemma_advances_to, lemma_steps_advance, Input, InputView};
use super::parser::{lemma_noun_constituent_advances, lemma_noun_constituent_words, parse_noun_constituent, spec_parse_noun_constituent};
use crate::catalog::{find_word, Catalog, WordView};
use crate::syntax::{IndependentClause, Sentence, SentenceKind, Subject, VerbConstituent};
use crate::text::{char_is_ascii_punctuation, is_ascii_punctuation_char, word_count};

verus! {

/// Reading a sentence: a noun constituent.
pub open spec fn spec_parse_sentence(cat: Seq<Option<WordView>>, v: InputView) -> (
    ParseResult<Sentence>,
    InputView,
) {
    let (r, w) = spec_parse_noun_constituent(cat, v);
    match r {
        Ok(nc) => (Ok(Sentence { kind: SentenceKind::NounConstituent(nc) }), w),
        Err(e) => (Err(e), w),
    }
}

/// Reading a subject: a noun constituent.
pub open spec fn spec_parse_subject(cat: Seq<Option<WordView>>, v: InputView) -> (
    ParseResult<Subject>,
    InputView,
) {
    let (r, w) = spec_parse_noun_constituent(cat, v);
    match r {
        Ok(nc) => (Ok(Subject::NounConstituent(nc)), w),
        Err(e) => (Err(e), w),
    }
}

/// What is left of the input once the words after a subject are passed over: words
/// are consumed one by one until nothing but white space is left, or until a consumed
/// word starts with ASCII punctuation or is not in the catalog.
pub open spec fn spec_skip_clause_words(cat: Seq<Option<WordView>>, v: InputView) -> InputView
    decreases v.data.len(),
{
    if !v.has_next() {
        v
    } else {
        let word = v.next_word();
        let w = v.consume();
        proof {
            lemma_steps_advance(v);
            lemma_advances_to(v, w, w);
        }
        if word.len() > 0 && is_ascii_punctuation_char(word[0]) {
            w
        } else if find_word(cat, word) is None {
            w
        } else {
            spec_skip_clause_words(cat, w)
        }
    }
}

/// Passing over the words of a clause consumes a prefix of the input.
pub proof fn lemma_skip_clause_words_advances(cat: Seq<Option<WordView>>, v: InputView)
    ensures
        v.advances_to(spec_skip_clause_words(cat, v)),
    decreases v.data.len(),
{
    lemma_advances_to(v, v, v);
    if v.has_next() {
        let w = v.consume();
        lemma_steps_advance(v);
        lemma_advances_to(v, w, w);
        let word = v.next_word();
        if !(word.len() > 0 && is_ascii_punctuation_char(word[0])) && find_word(cat, word) is Some {
            lemma_skip_clause_words_advances(cat, w);
            lemma_advances_to(v, w, spec_skip_clause_words(cat, w));
        }
    }
}

/// Reads an independent clause: its subject, then passes over the words that follow
/// it until the end of the input, a word starting with ASCII punctuation, or a word
/// that is not in the catalog. The clause has no verbs.
pub fn parse_independent_clause(input: &mut Input<'_>, catalog: &Catalog) -> (r: ParseResult<
    IndependentClause,
>)
    requires
        old(input).wf(),
    ensures
        final(input).wf(),
        final(input).original() == old(input).original(),
        old(input).aligned() ==> final(input).aligned(),
        match spec_parse_subject(catalog@, old(input)@) {
            (Ok(subject), w) => r matches Ok(clause) && clause.subject == subject
                && clause.verb.verbs@.len() == 0 && final(input)@ == spec_skip_clause_words(
                catalog@,
                w,
            ),
            (Err(e), w) => r == Err::<IndependentClause, _>(e) && final(input)@ == w,
        },
{
    let subject = match parse_subject(input, catalog) {
        Ok(subject) => subject,
        Err(e) => return Err(e),
    };
    let clause = IndependentClause { subject, verb: VerbConstituent { verbs: Vec::new() } };
    let ghost start = input@;
    let ghost was_aligned = input.aligned();
    let ghost original = input.original();
    loop
        invariant_except_break
            spec_skip_clause_words(catalog@, input@) == spec_skip_clause_words(catalog@, start),
        invariant
            input.wf(),
            input.original() == original,
            was_aligned ==> input.aligned(),
        ensures
            input@ == spec_skip_clause_words(catalog@, start),
        decreases input@.data.len(),
    {
        if !input.has_next() {
            break;
        }
        let ghost before = input@;
        proof {
            lemma_steps_advance(before);
            lemma_advances_to(before, before.consume(), before.consume());
        }
        let (text, _text_range) = input.consume_until_space();
        if !text.is_empty() && char_is_ascii_punctuation(text.get_char(0)) {
            break;
        }
        if catalog.find(text).is_none() {
            break;
        }
        // The verb forms among these words are not recorded in the clause yet.
    }
    Ok(clause)
}

/// Reads a sentence: a noun constituent.
pub fn parse_sentence(input: &mut Input<'_>, catalog: &Catalog) -> (r: ParseResult<Sentence>)
    requires
        old(input).wf(),
    ensures
        final(input).wf(),
        final(input).original() == old(input).original(),
        (r, final(input)@) == spec_parse_sentence(catalog@, old(input)@),
        old(input).aligned() ==> final(input).aligned(),
{
    let noun_constituent = match parse_noun_constituent(input, catalog) {
        Ok(nc) => nc,
        Err(e) => return Err(e),
    };
    Ok(Sentence { kind: SentenceKind::NounConstituent(noun_constituent) })
}

/// Reads the subject of a clause: a noun constituent.
pub fn parse_subject(input: &mut Input<'_>, catalog: &Catalog) -> (r: ParseResult<Subject>)
    requires
        old(input).wf(),
    ensures
        final(input).wf(),
        final(input).original() == old(input).original(),
        (r, final(input)@) == spec_parse_subject(catalog@, old(input)@),
        old(input).aligned() ==> final(input).aligned(),
{
    let noun_constituent = match parse_noun_constituent(input, catalog) {
        Ok(nc) => nc,
        Err(e) => return Err(e),
    };
    Ok(Subject::NounConstituent(noun_constituent))
}

/// Reading a sentence consumes a prefix of the input; when more than white space is
/// left it consumes at least one word, whether it succeeds or fails.
pub proof fn lemma_sentence_advances(cat: Seq<Option<WordView>>, v: InputView)
    ensures
        v.advances_to(spec_parse_sentence(cat, v).1),
        v.has_next() ==> spec_parse_sentence(cat, v).1.offset > v.offset,
        word_count(spec_parse_sentence(cat, v).1.data) <= word_count(v.data),
        v.has_next() ==> word_count(spec_parse_sentence(cat, v).1.data) < word_count(v.data),
{
    lemma_noun_constituent_advances(cat, v);
    lemma_noun_constituent_words(cat, v);
}

} // verus!
