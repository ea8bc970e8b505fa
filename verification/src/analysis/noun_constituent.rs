use vstd::prelude::*;

use super::determinator::DeterminatorExtensions;
use super::gender::{first_noun, first_noun_trait, json_genders, GenderAnalysis, GenderAnalyzer};
use super::report::{AnalysisSink, Report, ReportView};
use crate::catalog::{lookup, Catalog, Multiplicity, WordView};
use crate::syntax::{Document, Range, NounConstituent, NounConstituentCore, Sentence, SentenceKind};

verus! {

/// The index of the noun that a noun constituent is built around.
pub open spec fn core_index(noun: NounConstituent) -> int {
    match noun.core.t {
        NounConstituentCore::Substantive(substantive) => substantive.catalog_index.0 as int,
    }
}

/// Every noun of the sentences that are noun constituents is in the catalog.
pub open spec fn nouns_in_catalog(sentences: Seq<Sentence>, cat: Seq<Option<WordView>>) -> bool {
    forall|i: int|
        0 <= i < sentences.len() ==> match #[trigger] sentences[i].kind {
            SentenceKind::NounConstituent(noun) => lookup(cat, core_index(noun)) is Some,
            SentenceKind::IndependentClause(_) => true,
        }
}

/// The multiplicity of the first noun role of the noun that `noun` is built around.
pub open spec fn core_multiplicity(noun: NounConstituent, cat: Seq<Option<WordView>>) -> Option<
    Multiplicity,
> {
    match first_noun(lookup(cat, core_index(noun))->0.traits) {
        Some((_, multiplicity)) => Some(multiplicity),
        None => None,
    }
}

/// What the check of a noun constituent finds. Without determinator, nothing. Before a
/// plural noun, a determinator that cannot stand there is reported, with the noun and
/// the plural determinator that replaces it. Otherwise a determinator that shares no
/// gender with the noun is reported, with the genders of both and the noun.
pub open spec fn noun_constituent_reports(noun: NounConstituent, cat: Seq<Option<WordView>>) -> Seq<
    ReportView,
> {
    match noun.determinator {
        None => seq![],
        Some(determinator) => {
            let core_text = lookup(cat, core_index(noun))->0.text;
            if core_multiplicity(noun, cat) == Some(Multiplicity::Plural) {
                if determinator.t.spec_is_valid_for_plural() {
                    seq![]
                } else {
                    seq![
                        ReportView {
                            range: determinator.range,
                            secondary_ranges: seq![noun.core.range],
                            kind: "noun-constituent.determinator.plurality"@,
                            values: seq![("core"@, core_text)],
                            replacements: seq![(determinator.range, determinator.t.spec_plural_form())],
                        },
                    ]
                }
            } else {
                let determinator_genders = determinator.t.spec_analyze_gender(cat);
                let core_genders = noun.core.t.spec_analyze_gender(cat);
                if determinator_genders.overlaps(core_genders) {
                    seq![]
                } else {
                    seq![
                        ReportView {
                            range: determinator.range,
                            secondary_ranges: seq![noun.core.range],
                            kind: "noun-constituent.determinator"@,
                            values: seq![
                                ("core.genders"@, json_genders(core_genders)),
                                ("determinator.genders"@, json_genders(determinator_genders)),
                                ("core"@, core_text),
                            ],
                            replacements: seq![],
                        },
                    ]
                }
            }
        },
    }
}

/// The check finds at most one thing in a noun constituent, and only when it has a
/// determinator: a finding on the span of that determinator, with the span of the noun
/// beside it.
pub proof fn lemma_reports_concern_determinator(noun: NounConstituent, cat: Seq<Option<WordView>>)
    ensures
        noun_constituent_reports(noun, cat).len() <= 1,
        noun_constituent_reports(noun, cat).len() == 1 ==> {
            &&& noun.determinator is Some
            &&& noun_constituent_reports(noun, cat)[0].range == noun.determinator->0.range
            &&& noun_constituent_reports(noun, cat)[0].secondary_ranges == seq![noun.core.range]
        },
{
}

/// What the check of a sentence finds: that of its noun constituent, if it is one.
pub open spec fn sentence_reports(sentence: Sentence, cat: Seq<Option<WordView>>) -> Seq<ReportView> {
    match sentence.kind {
        SentenceKind::NounConstituent(noun) => noun_constituent_reports(noun, cat),
        SentenceKind::IndependentClause(_) => seq![],
    }
}

/// What the check of the sentences finds, sentence by sentence.
pub open spec fn document_reports(sentences: Seq<Sentence>, cat: Seq<Option<WordView>>) -> Seq<
    ReportView,
>
    decreases sentences.len(),
{
    if sentences.len() == 0 {
        seq![]
    } else {
        document_reports(sentences.drop_last(), cat) + sentence_reports(sentences.last(), cat)
    }
}

/// Something that checks a document and puts its findings in a sink.
pub trait Analyzer {
    fn analyze<S: AnalysisSink>(&mut self, document: &Document, catalog: &Catalog, sink: &mut S)
        requires
            nouns_in_catalog(document@, catalog@),
    ;
}

/// Checks that each determinator agrees with its noun in number and gender.
pub struct DeterminatorValidator {}

impl DeterminatorValidator {
    fn analyze_sentence<S: AnalysisSink>(
        &mut self,
        sentence: &Sentence,
        catalog: &Catalog,
        sink: &mut S,
    )
        requires
            sentence.kind matches SentenceKind::NounConstituent(noun) ==> lookup(
                catalog@,
                core_index(noun),
            ) is Some,
        ensures
            final(sink).reported() == old(sink).reported() + sentence_reports(*sentence, catalog@),
    {
        match &sentence.kind {
            SentenceKind::NounConstituent(noun) => self.analyze_noun_constituent(noun, catalog, sink),
            SentenceKind::IndependentClause(_) => {
                assert(old(sink).reported() + seq![] =~= old(sink).reported());
            },
        }
    }

    fn analyze_noun_constituent<S: AnalysisSink>(
        &mut self,
        noun: &NounConstituent,
        catalog: &Catalog,
        sink: &mut S,
    )
        requires
            lookup(catalog@, core_index(*noun)) is Some,
        ensures
            final(sink).reported() == old(sink).reported() + noun_constituent_reports(*noun, catalog@),
    {
        let determinator = match &noun.determinator {
            Some(determinator) => determinator,
            None => {
                assert(old(sink).reported() + seq![] =~= old(sink).reported());
                return;
            },
        };
        if let Some(Multiplicity::Plural) = multiplicity_for_noun_core(noun.core.as_ref(), catalog) {
            if !determinator.as_ref().is_valid_for_plural() {
                let secondary_ranges = vec![noun.core.range()];
                let core = match noun.core.as_ref() {
                    NounConstituentCore::Substantive(substantive) => catalog.get(
                        &substantive.catalog_index,
                    ).text,
                };
                let ghost before = sink.reported();
                let values = vec![("core", core)];
                let replacements = vec![(determinator.range(), determinator.as_ref().to_plural_form())];
                let ghost expected = noun_constituent_reports(*noun, catalog@);
                assert(expected.len() == 1);
                assert(secondary_ranges@ =~= expected[0].secondary_ranges);
                assert(values@.map_values(|v: (&'static str, String)| (v.0@, v.1@)) =~= expected[0].values);
                assert(replacements@.map_values(|v: (Range, String)| (v.0, v.1@)) =~= expected[0].replacements);
                sink.report(
                    determinator.range(),
                    secondary_ranges,
                    "noun-constituent.determinator.plurality",
                    values,
                    replacements,
                );
                assert(sink.reported() =~= before + noun_constituent_reports(*noun, catalog@));
            } else {
                assert(old(sink).reported() + seq![] =~= old(sink).reported());
            }
            return;
        }
        let determinator_genders = match multiplicity_for_noun_core(noun.core.as_ref(), catalog) {
            Some(Multiplicity::Singular) | None => determinator.as_ref().analyze_gender(catalog),
            Some(Multiplicity::Plural) => GenderAnalysis::all(),
        };
        let core_genders = noun.core.as_ref().analyze_gender(catalog);
        let secondary_ranges = vec![noun.core.range()];
        let core = match noun.core.as_ref() {
            NounConstituentCore::Substantive(substantive) => catalog.get(&substantive.catalog_index).text,
        };
        if !determinator_genders.matches(core_genders) {
            let ghost before = sink.reported();
            let values = vec![
                ("core.genders", core_genders.to_json()),
                ("determinator.genders", determinator_genders.to_json()),
                ("core", core),
            ];
            let replacements: Vec<(Range, String)> = vec![];
            let ghost expected = noun_constituent_reports(*noun, catalog@);
            assert(expected.len() == 1);
            assert(secondary_ranges@ =~= expected[0].secondary_ranges);
            assert(values@.map_values(|v: (&'static str, String)| (v.0@, v.1@)) =~= expected[0].values);
            assert(replacements@.map_values(|v: (Range, String)| (v.0, v.1@)) =~= expected[0].replacements);
            sink.report(
                determinator.range(),
                secondary_ranges,
                "noun-constituent.determinator",
                values,
                replacements,
            );
            assert(sink.reported() =~= before + noun_constituent_reports(*noun, catalog@));
        } else {
            assert(old(sink).reported() + seq![] =~= old(sink).reported());
        }
    }
}

impl Analyzer for DeterminatorValidator {
    fn analyze<S: AnalysisSink>(&mut self, document: &Document, catalog: &Catalog, sink: &mut S)
        ensures
            final(sink).reported() == old(sink).reported() + document_reports(document@, catalog@),
    {
        let sentences = document.sentences();
        let n = sentences.len();
        let mut i: usize = 0;
        assert(document@.take(0) =~= Seq::<Sentence>::empty());
        assert(old(sink).reported() + seq![] =~= old(sink).reported());
        while i < n
            invariant
                n == document@.len(),
                sentences@ == document@,
                i <= n,
                nouns_in_catalog(document@, catalog@),
                sink.reported() == old(sink).reported() + document_reports(
                    document@.take(i as int),
                    catalog@,
                ),
            decreases n - i,
        {
            let ghost before = sink.reported();
            assert(document@.take(i + 1).drop_last() =~= document@.take(i as int));
            assert(document@.take(i + 1).last() == document@[i as int]);
            assert(document@[i as int].kind matches SentenceKind::NounConstituent(noun) ==> lookup(catalog@, core_index(noun)) is Some);
            self.analyze_sentence(&sentences[i], catalog, sink);
            assert(sink.reported() =~= old(sink).reported() + document_reports(
                document@.take(i + 1),
                catalog@,
            ));
            i = i + 1;
        }
        assert(document@.take(n as int) =~= document@);
    }
}

/// Whether every noun of the sentences that are noun constituents is in the catalog,
/// as the analysis of the document needs.
pub fn nouns_are_in_catalog(document: &Document, catalog: &Catalog) -> (r: bool)
    ensures
        r == nouns_in_catalog(document@, catalog@),
{
    let sentences = document.sentences();
    let n = sentences.len();
    let mut i: usize = 0;
    while i < n
        invariant
            n == document@.len(),
            sentences@ == document@,
            i <= n,
            forall|j: int|
                0 <= j < i ==> match #[trigger] document@[j].kind {
                    SentenceKind::NounConstituent(noun) => lookup(catalog@, core_index(noun)) is Some,
                    SentenceKind::IndependentClause(_) => true,
                },
        decreases n - i,
    {
        match &sentences[i].kind {
            SentenceKind::NounConstituent(noun) => {
                let present = match noun.core.as_ref() {
                    NounConstituentCore::Substantive(substantive) => catalog.contains(
                        &substantive.catalog_index,
                    ),
                };
                if !present {
                    return false;
                }
            },
            SentenceKind::IndependentClause(_) => {},
        }
        i = i + 1;
    }
    true
}

/// The multiplicity of the first noun role of the noun that `core` is built around.
fn multiplicity_for_noun_core(core: &NounConstituentCore, catalog: &Catalog) -> (r: Option<
    Multiplicity,
>)
    requires
        core.analyzable(catalog@),
    ensures
        r == match first_noun(
            lookup(
                catalog@,
                match core {
                    NounConstituentCore::Substantive(substantive) => substantive.catalog_index.0 as int,
                },
            )->0.traits,
        ) {
            Some((_, multiplicity)) => Some(multiplicity),
            None => None,
        },
{
    match core {
        NounConstituentCore::Substantive(substantive) => {
            let word = catalog.get(&substantive.catalog_index);
            match first_noun_trait(&word.traits) {
                Some((_, multiplicity)) => Some(multiplicity),
                None => None,
            }
        },
    }
}

} // verus!
