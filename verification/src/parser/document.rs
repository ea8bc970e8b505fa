use vstd::prelude::*;

use super::error::ParseError;
use super::input::{lemma_advances_to, lemma_word_count_steps, Input, InputView};
use super::parser::{has_noun_trait, spec_attempt_determinator};
use super::sentence::{lemma_sentence_advances, parse_sentence, spec_parse_sentence};
use crate::analysis::{core_index, nouns_in_catalog};
use crate::catalog::{find_word, lookup, Catalog, WordView};
use crate::syntax::{Document, Sentence, SentenceKind};
use crate::text::word_count;

verus! {

/// Reading a document: sentences are read one after another while more than white
/// space is left. A sentence that fails is left out; when it failed without consuming
/// anything, reading stops there. Gives the sentences read and what is left of the input.
pub open spec fn spec_parse_document(cat: Seq<Option<WordView>>, v: InputView) -> (
    Seq<Sentence>,
    InputView,
)
    decreases v.data.len(),
{
    if !v.has_next() {
        (seq![], v)
    } else {
        let (r, w) = spec_parse_sentence(cat, v);
        proof {
            lemma_sentence_advances(cat, v);
            lemma_advances_to(v, w, w);
        }
        match r {
            Ok(s) => {
                let (rest, end) = spec_parse_document(cat, w);
                (seq![s] + rest, end)
            },
            Err(_) => if w.offset == v.offset {
                (seq![], w)
            } else {
                spec_parse_document(cat, w)
            },
        }
    }
}

/// The failures met while reading a document, in order: that of every sentence that
/// failed, the one where reading stopped included.
pub open spec fn spec_document_failures(cat: Seq<Option<WordView>>, v: InputView) -> Seq<ParseError>
    decreases v.data.len(),
{
    if !v.has_next() {
        seq![]
    } else {
        let (r, w) = spec_parse_sentence(cat, v);
        proof {
            lemma_sentence_advances(cat, v);
            lemma_advances_to(v, w, w);
        }
        match r {
            Ok(_) => spec_document_failures(cat, w),
            Err(e) => if w.offset == v.offset {
                seq![e]
            } else {
                seq![e] + spec_document_failures(cat, w)
            },
        }
    }
}

/// Each sentence read, whether it succeeds or fails, takes at least one word of the
/// input: there are no more sentences and failures than words, and none at all when
/// the input holds nothing but white space.
pub proof fn lemma_document_word_bound(cat: Seq<Option<WordView>>, v: InputView)
    ensures
        spec_parse_document(cat, v).0.len() + spec_document_failures(cat, v).len() <= word_count(
            v.data,
        ),
        !v.has_next() ==> spec_parse_document(cat, v).0.len() == 0 && spec_document_failures(
            cat,
            v,
        ).len() == 0,
    decreases v.data.len(),
{
    lemma_word_count_steps(v);
    if v.has_next() {
        let (r, w) = spec_parse_sentence(cat, v);
        lemma_sentence_advances(cat, v);
        lemma_advances_to(v, w, w);
        lemma_document_word_bound(cat, w);
    }
}

/// Reading a document keeps every sentence that is read, in order, and reports every
/// sentence that fails: while more than white space is left, a sentence read with
/// success comes first in the document, followed by the document read from where it
/// ended; a failure comes first among the failures, and the sentences are those read
/// after it.
pub proof fn lemma_document_keeps_each_sentence(cat: Seq<Option<WordView>>, v: InputView)
    requires
        v.has_next(),
    ensures
        spec_parse_sentence(cat, v).0 matches Ok(s) ==> {
            &&& spec_parse_document(cat, v).0 == seq![s] + spec_parse_document(
                cat,
                spec_parse_sentence(cat, v).1,
            ).0
            &&& spec_document_failures(cat, v) == spec_document_failures(
                cat,
                spec_parse_sentence(cat, v).1,
            )
        },
        spec_parse_sentence(cat, v).0 matches Err(e) ==> {
            &&& spec_parse_document(cat, v).0 == spec_parse_document(
                cat,
                spec_parse_sentence(cat, v).1,
            ).0
            &&& spec_document_failures(cat, v) == seq![e] + spec_document_failures(
                cat,
                spec_parse_sentence(cat, v).1,
            )
        },
        spec_parse_document(cat, v).1 == spec_parse_document(cat, spec_parse_sentence(cat, v).1).1,
{
    lemma_sentence_advances(cat, v);
}

/// Every noun of a document read with a catalog is a word of that catalog with a noun
/// role, so the catalog holds what the analysis of the document needs.
pub proof fn lemma_parsed_nouns_in_catalog(catalog: &Catalog, v: InputView)
    requires
        catalog@.len() <= usize::MAX,
    ensures
        nouns_in_catalog(spec_parse_document(catalog@, v).0, catalog@),
        forall|i: int|
            0 <= i < spec_parse_document(catalog@, v).0.len() ==> match #[trigger] spec_parse_document(
                catalog@,
                v,
            ).0[i].kind {
                SentenceKind::NounConstituent(noun) => lookup(catalog@, core_index(noun)) matches Some(
                    w,
                ) && has_noun_trait(w.traits),
                SentenceKind::IndependentClause(_) => false,
            },
    decreases v.data.len(),
{
    let cat = catalog@;
    if v.has_next() {
        let (r, w) = spec_parse_sentence(cat, v);
        lemma_sentence_advances(cat, v);
        lemma_advances_to(v, w, w);
        if r is Ok || w.offset != v.offset {
            lemma_parsed_nouns_in_catalog(catalog, w);
        }
        if let Ok(s) = r {
            let v1 = spec_attempt_determinator(v).1.trim_start();
            let text = v1.next_word();
            catalog.lemma_find_word(text);
            let found = find_word(cat, text)->0;
            assert(lookup(cat, found.0 as int) == Some(found.1));
            let rest = spec_parse_document(cat, w).0;
            assert forall|i: int|
                0 <= i < spec_parse_document(cat, v).0.len() implies match #[trigger] spec_parse_document(
                cat,
                v,
            ).0[i].kind {
                SentenceKind::NounConstituent(noun) => lookup(cat, core_index(noun)) matches Some(w)
                    && has_noun_trait(w.traits),
                SentenceKind::IndependentClause(_) => false,
            } by {
                if i > 0 {
                    assert(spec_parse_document(cat, v).0[i] == rest[i - 1]);
                }
            }
        }
    }
}

/// Reading a document consumes a prefix of the input, and reads on until nothing but
/// white space is left: a sentence that fails still consumes a word.
pub proof fn lemma_document_reads_to_end(cat: Seq<Option<WordView>>, v: InputView)
    ensures
        v.advances_to(spec_parse_document(cat, v).1),
        !spec_parse_document(cat, v).1.has_next(),
    decreases v.data.len(),
{
    lemma_advances_to(v, v, v);
    if v.has_next() {
        let (r, w) = spec_parse_sentence(cat, v);
        lemma_sentence_advances(cat, v);
        lemma_advances_to(v, w, w);
        lemma_document_reads_to_end(cat, w);
        lemma_advances_to(v, w, spec_parse_document(cat, w).1);
    }
}

/// Reads the sentences of the input into a document, and gives the failures of the
/// sentences that could not be read beside it.
pub fn parse_document_with_failures(input: &mut Input<'_>, catalog: &Catalog) -> (r: (
    Document,
    Vec<ParseError>,
))
    requires
        old(input).wf(),
    ensures
        final(input).wf(),
        final(input).original() == old(input).original(),
        old(input).aligned() ==> final(input).aligned(),
        r.0@ == spec_parse_document(catalog@, old(input)@).0,
        r.1@ == spec_document_failures(catalog@, old(input)@),
        final(input)@ == spec_parse_document(catalog@, old(input)@).1,
        !final(input)@.has_next(),
{
    let mut doc = Document::new();
    let mut failures: Vec<ParseError> = Vec::new();
    let ghost start = input@;
    let ghost was_aligned = input.aligned();
    let ghost original = input.original();
    proof {
        lemma_document_reads_to_end(catalog@, start);
    }
    loop
        invariant_except_break
            doc@ + spec_parse_document(catalog@, input@).0 == spec_parse_document(catalog@, start).0,
            failures@ + spec_document_failures(catalog@, input@) == spec_document_failures(
                catalog@,
                start,
            ),
            spec_parse_document(catalog@, input@).1 == spec_parse_document(catalog@, start).1,
        invariant
            input.wf(),
            input.original() == original,
            was_aligned ==> input.aligned(),
            !spec_parse_document(catalog@, start).1.has_next(),
        ensures
            doc@ == spec_parse_document(catalog@, start).0,
            failures@ == spec_document_failures(catalog@, start),
            input@ == spec_parse_document(catalog@, start).1,
        decreases input@.data.len(),
    {
        if !input.has_next() {
            assert(doc@ + seq![] =~= doc@);
            assert(failures@ + seq![] =~= failures@);
            break;
        }
        let ghost before = input@;
        proof {
            lemma_sentence_advances(catalog@, before);
            let w = spec_parse_sentence(catalog@, before).1;
            lemma_advances_to(before, w, w);
        }
        let starting_offset = input.offset();
        match parse_sentence(input, catalog) {
            Ok(sentence) => {
                let ghost prev = doc@;
                doc.sentences_mut().push(sentence);
                assert(prev + spec_parse_document(catalog@, before).0 =~= doc@
                    + spec_parse_document(catalog@, input@).0);
            },
            Err(e) => {
                let ghost prev = failures@;
                failures.push(e);
                if input.offset() == starting_offset {
                    assert(doc@ + seq![] =~= doc@);
                    assert(prev + seq![e] =~= failures@);
                    break;
                }
                assert(prev + spec_document_failures(catalog@, before) =~= failures@
                    + spec_document_failures(catalog@, input@));
            },
        }
    }
    (doc, failures)
}

/// Reads the sentences of the input into a document; sentences that cannot be read are
/// left out.
pub fn parse_document(input: &mut Input<'_>, catalog: &Catalog) -> (r: Document)
    requires
        old(input).wf(),
    ensures
        final(input).wf(),
        final(input).original() == old(input).original(),
        old(input).aligned() ==> final(input).aligned(),
        r@ == spec_parse_document(catalog@, old(input)@).0,
        final(input)@ == spec_parse_document(catalog@, old(input)@).1,
        !final(input)@.has_next(),
{
    let (doc, _failures) = parse_document_with_failures(input, catalog);
    doc
}

} // verus!
