use mango3::catalog::{Catalog, CatalogIndex, Gender, Multiplicity, SharedVec, VerbId, Word, WordTrait};
use mango3::parser::{
    parse_article, parse_determinator, parse_document, parse_independent_clause,
    parse_noun_constituent, parse_noun_constituent_core, parse_sentence, parse_subject,
    parse_substantive, Input, ParseError, ParseErrorKind, Range as InputRange,
};
use mango3::syntax::{
    Article, AtomicDeterminator, Determinator, NounConstituentCore, Range, SentenceKind, Subject,
    Substantive,
};
use mango3::catalog::ConjugationKind;

fn catalog() -> Catalog {
    let mut catalog = Catalog::new();
    let noun = |text: &str, gender, multiplicity| Word {
        text: text.to_string(),
        traits: SharedVec::from(vec![WordTrait::Noun { gender, multiplicity }]),
    };
    catalog.store(1, noun("vrouwen", Gender::Feminine, Multiplicity::Plural));
    catalog.store(2, noun("huis", Gender::Neuter, Multiplicity::Singular));
    catalog.store(3, noun("man", Gender::Masculine, Multiplicity::Singular));
    catalog.store(4, Word { text: "lopen".to_string(), traits: SharedVec::from(vec![WordTrait::Verb { verb: VerbId(4) }]) });
    catalog.store(5, Word {
        text: "loopt".to_string(),
        traits: SharedVec::from(vec![WordTrait::VerbConjugationIndicative {
            verb: VerbId(4),
            kind: ConjugationKind::ThirdPerson,
            is_past: false,
        }]),
    });
    catalog
}

#[test]
fn parse_article_ignores_case() {
    assert_eq!(parse_article(&mut Input::new("Het")), Ok(Article::Het));
    assert_eq!(parse_article(&mut Input::new("DE")), Ok(Article::De));
    assert_eq!(parse_article(&mut Input::new(" een huis")), Ok(Article::Een));
}

#[test]
fn parse_article_fails_on_other_words() {
    let mut input = Input::new(" hond kat");
    assert_eq!(
        parse_article(&mut input),
        Err(ParseError { kind: ParseErrorKind::ExpectedArticleDeterminator, range: InputRange::new(1, 5) })
    );
    // the word is consumed even so
    assert_eq!(input.offset(), 5);
    assert!(parse_article(&mut Input::new("deze")).is_err());
}

#[test]
fn parse_determinator_spans_the_article() {
    let mut input = Input::new(" het huis");
    let determinator = parse_determinator(&mut input).unwrap();
    assert_eq!(determinator.range(), Range::new(1, 4));
    assert_eq!(*determinator.as_ref(), Determinator::Atomic(AtomicDeterminator::Article(Article::Het)));
    assert_eq!(*determinator, Determinator::Atomic(AtomicDeterminator::Article(Article::Het)));
}

#[test]
fn parse_substantive_looks_the_word_up() {
    let catalog = catalog();
    assert_eq!(
        parse_substantive(&mut Input::new("huis"), &catalog),
        Ok(Substantive { catalog_index: CatalogIndex(2) })
    );
    assert_eq!(
        parse_substantive(&mut Input::new("  boom"), &catalog),
        Err(ParseError { kind: ParseErrorKind::ExpectedSubstantiveWasUnknownWord, range: InputRange::new(2, 6) })
    );
    assert_eq!(
        parse_substantive(&mut Input::new("lopen"), &catalog),
        Err(ParseError { kind: ParseErrorKind::ExpectedSubstantiveWasNot, range: InputRange::new(0, 5) })
    );
}

#[test]
fn parse_noun_constituent_core_spans_the_noun() {
    let catalog = catalog();
    let core = parse_noun_constituent_core(&mut Input::new("man"), &catalog).unwrap();
    assert_eq!(core.range(), Range::new(0, 3));
    assert_eq!(core.t, NounConstituentCore::Substantive(Substantive { catalog_index: CatalogIndex(3) }));
}

#[test]
fn parse_noun_constituent_with_determinator() {
    let catalog = catalog();
    let mut input = Input::new(" De vrouwen ");
    let noun = parse_noun_constituent(&mut input, &catalog).unwrap();
    let determinator = noun.determinator.unwrap();
    assert_eq!(determinator.range, Range::new(1, 3));
    assert_eq!(determinator.t, Determinator::Atomic(AtomicDeterminator::Article(Article::De)));
    assert_eq!(noun.core.range, Range::new(4, 11));
    assert_eq!(noun.core.t, NounConstituentCore::Substantive(Substantive { catalog_index: CatalogIndex(1) }));
    assert_eq!(noun.range, Range::new(1, 11));
    assert!(!input.has_next());
}

#[test]
fn parse_noun_constituent_without_determinator() {
    let catalog = catalog();
    let mut input = Input::new("huis");
    let noun = parse_noun_constituent(&mut input, &catalog).unwrap();
    assert!(noun.determinator.is_none());
    assert_eq!(noun.core.range, Range::new(0, 4));
    assert_eq!(noun.range, Range::new(0, 4));
}

#[test]
fn parse_noun_constituent_needs_a_noun() {
    let catalog = catalog();
    let mut input = Input::new("het boom");
    assert_eq!(
        parse_noun_constituent(&mut input, &catalog).unwrap_err(),
        ParseError { kind: ParseErrorKind::ExpectedSubstantiveWasUnknownWord, range: InputRange::new(4, 8) }
    );
    assert_eq!(input.offset(), 8);
}

#[test]
fn parse_sentence_and_subject() {
    let catalog = catalog();
    let sentence = parse_sentence(&mut Input::new("het huis"), &catalog).unwrap();
    match sentence.kind {
        SentenceKind::NounConstituent(noun) => assert_eq!(noun.range, Range::new(0, 8)),
        SentenceKind::IndependentClause(_) => panic!("expected a noun constituent"),
    }
    let subject = parse_subject(&mut Input::new("de man"), &catalog).unwrap();
    match subject {
        Subject::NounConstituent(noun) => assert_eq!(noun.core.range, Range::new(3, 6)),
    }
    assert!(subject.allows_conjugation(ConjugationKind::ThirdPerson));
    assert!(!subject.allows_conjugation(ConjugationKind::Plural));
}

#[test]
fn parse_independent_clause_passes_over_known_words() {
    let catalog = catalog();
    let mut input = Input::new("de man loopt huis. vrouwen");
    let clause = parse_independent_clause(&mut input, &catalog).unwrap();
    assert!(clause.verb.verbs.is_empty());
    // `loopt` and `huis.` are consumed; `huis.` is not in the catalog, so reading stops
    assert_eq!(input.offset(), 18);

    let mut input = Input::new("de man , huis");
    parse_independent_clause(&mut input, &catalog).unwrap();
    assert_eq!(input.offset(), 8);

    let mut input = Input::new("boom loopt");
    assert!(parse_independent_clause(&mut input, &catalog).is_err());
}

#[test]
fn parse_document_reads_every_sentence() {
    let catalog = catalog();
    let mut input = Input::new(" De vrouwen het huis boom een man ");
    let document = parse_document(&mut input, &catalog);
    let sentences = document.sentences();
    assert_eq!(sentences.len(), 3);
    let ranges: Vec<Range> = sentences
        .iter()
        .map(|s| match &s.kind {
            SentenceKind::NounConstituent(noun) => noun.range,
            SentenceKind::IndependentClause(_) => panic!("expected a noun constituent"),
        })
        .collect();
    // a span starts where the input stood, before the white space that follows the previous word
    assert_eq!(ranges, vec![Range::new(1, 11), Range::new(11, 20), Range::new(25, 33)]);
    assert!(!input.has_next());
}

#[test]
fn parse_document_of_white_space_is_empty() {
    let catalog = catalog();
    let document = parse_document(&mut Input::new("   "), &catalog);
    assert!(document.sentences().is_empty());
}

#[test]
fn parse_document_with_failures_gives_them_in_order() {
    let catalog = catalog();
    let mut input = Input::new("boom het huis lopen de ");
    let (document, failures) = mango3::parser::parse_document_with_failures(&mut input, &catalog);
    assert_eq!(document.sentences().len(), 1);
    assert_eq!(
        failures,
        vec![
            ParseError { kind: ParseErrorKind::ExpectedSubstantiveWasUnknownWord, range: InputRange::new(0, 4) },
            ParseError { kind: ParseErrorKind::ExpectedSubstantiveWasNot, range: InputRange::new(14, 19) },
            ParseError { kind: ParseErrorKind::ExpectedSubstantiveWasUnknownWord, range: InputRange::new(23, 23) },
        ]
    );
    assert!(!input.has_next());
}

#[test]
fn ranged_gives_its_value() {
    let ranged = mango3::syntax::Ranged::new(Range::new(2, 5), Article::Een);
    let value: &Article = ranged.as_ref();
    assert_eq!(*value, Article::Een);
    assert_eq!(*ranged, Article::Een);
}
