use mango3::analysis::{
    analyze, nouns_are_in_catalog, AnalysisSink, Analyzer, DeterminatorExtensions,
    DeterminatorValidator, GenderAnalysis, GenderAnalyzer, SimpleSink,
};
use mango3::catalog::{Catalog, CatalogIndex, Gender, Multiplicity, SharedVec, Word, WordTrait};
use mango3::parser::{parse_document, Input};
use mango3::syntax::{
    Article, AtomicDeterminator, Determinator, Document, NounConstituent, NounConstituentCore, Range,
    Ranged, Sentence, SentenceKind, Substantive,
};

fn catalog() -> Catalog {
    let mut catalog = Catalog::new();
    let noun = |text: &str, gender, multiplicity| Word {
        text: text.to_string(),
        traits: SharedVec::from(vec![WordTrait::Noun { gender, multiplicity }]),
    };
    catalog.store(1, noun("vrouwen", Gender::Feminine, Multiplicity::Plural));
    catalog.store(2, noun("huis", Gender::Neuter, Multiplicity::Singular));
    catalog.store(3, noun("man", Gender::Masculine, Multiplicity::Singular));
    catalog.store(4, noun("huizen", Gender::Neuter, Multiplicity::Plural));
    catalog
}

fn analyze_text(text: &str) -> Vec<mango3::analysis::Report> {
    let catalog = catalog();
    let mut input = Input::new(text);
    let document = parse_document(&mut input, &catalog);
    assert!(nouns_are_in_catalog(&document, &catalog));
    analyze(&document, &catalog)
}

#[test]
fn matches_needs_a_common_gender() {
    assert!(GenderAnalysis::feminine_and_masculine().matches(GenderAnalysis::masculine()));
    assert!(GenderAnalysis::all().matches(GenderAnalysis::neuter()));
    assert!(!GenderAnalysis::neuter().matches(GenderAnalysis::feminine_and_masculine()));
    assert!(!GenderAnalysis::feminine().matches(GenderAnalysis::masculine()));
    let none = GenderAnalysis { feminine: false, neuter: false, masculine: false };
    assert!(!GenderAnalysis::all().matches(none));
    // in either order
    assert_eq!(
        GenderAnalysis::masculine().matches(GenderAnalysis::feminine_and_masculine()),
        GenderAnalysis::feminine_and_masculine().matches(GenderAnalysis::masculine())
    );
}

#[test]
fn gender_analysis_as_json() {
    assert_eq!(
        GenderAnalysis::feminine_and_masculine().to_json(),
        "{\"feminine\":true,\"neuter\":false,\"masculine\":true}"
    );
    assert_eq!(GenderAnalysis::neuter().to_json(), "{\"feminine\":false,\"neuter\":true,\"masculine\":false}");
}

#[test]
fn articles_have_genders() {
    let catalog = Catalog::new();
    assert_eq!(Article::De.analyze_gender(&catalog), GenderAnalysis::feminine_and_masculine());
    assert_eq!(Article::Het.analyze_gender(&catalog), GenderAnalysis::neuter());
    assert_eq!(Article::Een.analyze_gender(&catalog), GenderAnalysis::all());
    assert_eq!(Gender::Feminine.analyze_gender(&catalog), GenderAnalysis::feminine());
    assert_eq!(Gender::Masculine.analyze_gender(&catalog), GenderAnalysis::masculine());
    let determinator = Determinator::Atomic(AtomicDeterminator::Article(Article::Het));
    assert_eq!(determinator.analyze_gender(&catalog), GenderAnalysis::neuter());
}

#[test]
fn nouns_have_the_gender_of_their_first_noun_role() {
    let mut catalog = catalog();
    catalog.store(
        7,
        Word {
            text: "bal".to_string(),
            traits: SharedVec::from(vec![
                WordTrait::Noun { gender: Gender::Masculine, multiplicity: Multiplicity::Singular },
                WordTrait::Noun { gender: Gender::Neuter, multiplicity: Multiplicity::Singular },
            ]),
        },
    );
    catalog.store(8, Word { text: "snel".to_string(), traits: SharedVec::from(vec![]) });
    let bal = Substantive { catalog_index: CatalogIndex(7) };
    assert_eq!(bal.analyze_gender(&catalog), GenderAnalysis::masculine());
    let snel = NounConstituentCore::Substantive(Substantive { catalog_index: CatalogIndex(8) });
    assert_eq!(snel.analyze_gender(&catalog), GenderAnalysis::all());
}

#[test]
fn only_de_goes_before_plurals() {
    assert!(Article::De.is_valid_for_plural());
    assert!(!Article::Het.is_valid_for_plural());
    assert!(!Article::Een.is_valid_for_plural());
    assert_eq!(Article::Het.to_plural_form(), "de");
    let determinator = Determinator::Atomic(AtomicDeterminator::Article(Article::Een));
    assert!(!determinator.is_valid_for_plural());
    assert_eq!(determinator.to_plural_form(), "de");
}

#[test]
fn agreeing_determinators_are_not_reported() {
    assert!(analyze_text(" De vrouwen ").is_empty());
    assert!(analyze_text("het huis een man de man een huis de huizen").is_empty());
    assert!(analyze_text("huis vrouwen").is_empty());
}

#[test]
fn singular_article_before_plural_is_reported() {
    let reports = analyze_text("Het vrouwen");
    assert_eq!(reports.len(), 1);
    let report = &reports[0];
    assert_eq!(report.range, Range::new(0, 3));
    assert_eq!(report.secondary_ranges, vec![Range::new(4, 11)]);
    assert_eq!(report.kind, "noun-constituent.determinator.plurality");
    assert_eq!(report.values, vec![("core", "vrouwen".to_string())]);
    assert_eq!(report.replacements, vec![(Range::new(0, 3), "de".to_string())]);
}

#[test]
fn gender_mismatch_is_reported() {
    let reports = analyze_text("de huis het man");
    assert_eq!(reports.len(), 2);
    assert_eq!(reports[0].range, Range::new(0, 2));
    assert_eq!(reports[0].secondary_ranges, vec![Range::new(3, 7)]);
    assert_eq!(reports[0].kind, "noun-constituent.determinator");
    assert_eq!(
        reports[0].values,
        vec![
            ("core.genders", "{\"feminine\":false,\"neuter\":true,\"masculine\":false}".to_string()),
            ("determinator.genders", "{\"feminine\":true,\"neuter\":false,\"masculine\":true}".to_string()),
            ("core", "huis".to_string()),
        ]
    );
    assert!(reports[0].replacements.is_empty());
    // the span of a determinator after the first starts where the previous word ended
    assert_eq!(reports[1].range, Range::new(7, 11));
    assert_eq!(reports[1].values[2], ("core", "man".to_string()));
}

#[test]
fn validator_reports_into_a_sink() {
    let catalog = catalog();
    let mut document = Document::new();
    document.sentences_mut().push(Sentence {
        kind: SentenceKind::NounConstituent(NounConstituent {
            range: Range::new(0, 8),
            determinator: Some(Ranged::new(
                Range::new(0, 3),
                Determinator::Atomic(AtomicDeterminator::Article(Article::Een)),
            )),
            core: Ranged::new(
                Range::new(4, 10),
                NounConstituentCore::Substantive(Substantive { catalog_index: CatalogIndex(4) }),
            ),
        }),
    });
    let mut sink = SimpleSink::new();
    sink.report(Range::new(9, 9), vec![], "earlier", vec![], vec![]);
    DeterminatorValidator {}.analyze(&document, &catalog, &mut sink);
    assert_eq!(sink.data.len(), 2);
    assert_eq!(sink.data[0].kind, "earlier");
    assert_eq!(sink.data[1].kind, "noun-constituent.determinator.plurality");
    assert_eq!(sink.data[1].values, vec![("core", "huizen".to_string())]);
}

#[test]
fn missing_nouns_are_detected() {
    let catalog = catalog();
    let mut document = Document::new();
    assert!(nouns_are_in_catalog(&document, &catalog));
    document.sentences_mut().push(Sentence {
        kind: SentenceKind::NounConstituent(NounConstituent {
            range: Range::new(0, 4),
            determinator: None,
            core: Ranged::new(
                Range::new(0, 4),
                NounConstituentCore::Substantive(Substantive { catalog_index: CatalogIndex(99) }),
            ),
        }),
    });
    assert!(!nouns_are_in_catalog(&document, &catalog));
}
