use mango3::catalog::{
    Catalog, CatalogIndex, ConjugationKind, Gender, Multiplicity, SharedVec, VerbId, Word, WordTrait,
};

fn noun(text: &str, gender: Gender, multiplicity: Multiplicity) -> Word {
    Word {
        text: text.to_string(),
        traits: SharedVec::from(vec![WordTrait::Noun { gender, multiplicity }]),
    }
}

fn conjugation(text: &str, verb: usize, kind: ConjugationKind, is_past: bool) -> Word {
    Word {
        text: text.to_string(),
        traits: SharedVec::from(vec![WordTrait::VerbConjugationIndicative {
            verb: VerbId(verb),
            kind,
            is_past,
        }]),
    }
}

#[test]
fn new_catalog_finds_nothing() {
    let catalog = Catalog::new();
    assert!(catalog.find("huis").is_none());
    assert!(!catalog.contains(&CatalogIndex(0)));
}

#[test]
fn store_then_get_gives_the_word_back() {
    let mut catalog = Catalog::new();
    catalog.store(5, noun("huis", Gender::Neuter, Multiplicity::Singular));
    let word = catalog.get(&CatalogIndex(5));
    assert_eq!(word.text, "huis");
    assert_eq!(word.traits.len(), 1);
    assert_eq!(
        *word.traits.get(0),
        WordTrait::Noun { gender: Gender::Neuter, multiplicity: Multiplicity::Singular }
    );
    assert!(catalog.contains(&CatalogIndex(5)));
    assert!(!catalog.contains(&CatalogIndex(4)));
    assert!(!catalog.contains(&CatalogIndex(6)));
}

#[test]
fn store_replaces_and_leaves_others() {
    let mut catalog = Catalog::new();
    catalog.store(1, noun("man", Gender::Masculine, Multiplicity::Singular));
    catalog.store(2, noun("vrouw", Gender::Feminine, Multiplicity::Singular));
    catalog.store(1, noun("mannen", Gender::Masculine, Multiplicity::Plural));
    assert_eq!(catalog.get(&CatalogIndex(1)).text, "mannen");
    assert_eq!(catalog.get(&CatalogIndex(2)).text, "vrouw");
    assert!(catalog.find("man").is_none());
}

#[test]
fn store_at_index_zero() {
    let mut catalog = Catalog::new();
    catalog.store(0, noun("kat", Gender::Feminine, Multiplicity::Singular));
    let (index, word) = catalog.find("kat").unwrap();
    assert_eq!(index, CatalogIndex(0));
    assert_eq!(word.text, "kat");
}

#[test]
fn find_gives_the_lowest_index() {
    let mut catalog = Catalog::new();
    catalog.store(7, noun("bank", Gender::Feminine, Multiplicity::Singular));
    catalog.store(3, noun("bank", Gender::Masculine, Multiplicity::Singular));
    catalog.store(9, noun("stoel", Gender::Masculine, Multiplicity::Singular));
    let (index, word) = catalog.find("bank").unwrap();
    assert_eq!(index, CatalogIndex(3));
    assert_eq!(
        *word.traits.get(0),
        WordTrait::Noun { gender: Gender::Masculine, multiplicity: Multiplicity::Singular }
    );
    assert_eq!(catalog.find("stoel").unwrap().0, CatalogIndex(9));
}

#[test]
fn find_is_case_sensitive() {
    let mut catalog = Catalog::new();
    catalog.store(1, noun("huis", Gender::Neuter, Multiplicity::Singular));
    assert!(catalog.find("Huis").is_none());
    assert!(catalog.find("").is_none());
}

#[test]
fn find_indicative_conjugations_by_index() {
    let mut catalog = Catalog::new();
    catalog.store(1, Word { text: "lopen".to_string(), traits: SharedVec::from(vec![WordTrait::Verb { verb: VerbId(1) }]) });
    catalog.store(4, conjugation("loopt", 1, ConjugationKind::ThirdPerson, false));
    catalog.store(2, conjugation("loop", 1, ConjugationKind::FirstPerson, false));
    catalog.store(3, conjugation("zwemt", 2, ConjugationKind::ThirdPerson, false));
    catalog.store(6, conjugation("liep", 1, ConjugationKind::FirstPerson, true));
    let words = catalog.find_indicative_conjugations(VerbId(1));
    let texts: Vec<&str> = words.iter().map(|w| w.text.as_str()).collect();
    assert_eq!(texts, vec!["loop", "loopt", "liep"]);
    assert!(catalog.find_indicative_conjugations(VerbId(8)).is_empty());
}

#[test]
fn is_conjugation_checks_kind_and_tense() {
    let word = Word {
        text: "liep".to_string(),
        traits: SharedVec::from(vec![
            WordTrait::Verb { verb: VerbId(1) },
            WordTrait::VerbConjugationIndicative { verb: VerbId(1), kind: ConjugationKind::FirstPerson, is_past: true },
            WordTrait::VerbConjugationIndicative { verb: VerbId(1), kind: ConjugationKind::ThirdPerson, is_past: true },
        ]),
    };
    assert!(word.is_conjugation(ConjugationKind::FirstPerson, true));
    assert!(word.is_conjugation(ConjugationKind::ThirdPerson, true));
    assert!(!word.is_conjugation(ConjugationKind::FirstPerson, false));
    assert!(!word.is_conjugation(ConjugationKind::Plural, true));
    let noun = noun("huis", Gender::Neuter, Multiplicity::Singular);
    assert!(!noun.is_conjugation(ConjugationKind::ThirdPerson, false));
}

#[test]
fn codes_decode() {
    assert_eq!(Gender::from_u8(0), Gender::Masculine);
    assert_eq!(Gender::from_u8(1), Gender::Feminine);
    assert_eq!(Gender::from_u8(2), Gender::Neuter);
    assert_eq!(Multiplicity::from_u8(0), Multiplicity::Singular);
    assert_eq!(Multiplicity::from_u8(1), Multiplicity::Plural);
    assert_eq!(ConjugationKind::from_u8(0), ConjugationKind::FirstPerson);
    assert_eq!(ConjugationKind::from_u8(1), ConjugationKind::SecondPersonJe);
    assert_eq!(ConjugationKind::from_u8(2), ConjugationKind::SecondPersonU);
    assert_eq!(ConjugationKind::from_u8(3), ConjugationKind::SecondPersonGe);
    assert_eq!(ConjugationKind::from_u8(4), ConjugationKind::ThirdPerson);
    assert_eq!(ConjugationKind::from_u8(5), ConjugationKind::Plural);
}

#[test]
fn shared_vec_keeps_order() {
    let list = SharedVec::from(vec![3u8, 1, 2]);
    assert_eq!(list.len(), 3);
    assert_eq!(*list.get(1), 1);
    let items: Vec<u8> = list.iter().copied().collect();
    assert_eq!(items, vec![3, 1, 2]);
    let mut total = 0u32;
    for item in &list {
        total += *item as u32;
    }
    assert_eq!(total, 6);
}

#[test]
fn clones_keep_the_items() {
    let list = SharedVec::from(vec![WordTrait::Verb { verb: VerbId(2) }, WordTrait::Verb { verb: VerbId(5) }]);
    let copy = list.clone();
    let a: Vec<WordTrait> = list.iter().copied().collect();
    let b: Vec<WordTrait> = copy.iter().copied().collect();
    let c: Vec<WordTrait> = (&copy).into_iter().copied().collect();
    assert_eq!(a, b);
    assert_eq!(b, c);
    let word = Word { text: "zwemt".to_string(), traits: list };
    let other = word.clone();
    assert_eq!(other.text, "zwemt");
    assert_eq!(other.traits.len(), 2);
    assert_eq!(*other.traits.get(1), WordTrait::Verb { verb: VerbId(5) });
}

#[test]
fn len_counts_index_slots() {
    let mut catalog = Catalog::new();
    assert_eq!(catalog.len(), 0);
    catalog.store(4, noun("boom", Gender::Masculine, Multiplicity::Singular));
    assert_eq!(catalog.len(), 5);
    catalog.store(2, noun("tak", Gender::Masculine, Multiplicity::Singular));
    assert_eq!(catalog.len(), 5);
}
