use mango3::catalog::{Catalog, ConjugationKind, SharedVec, VerbId, Word, WordTrait};
use mango3::verb_page::{conjugation_table_html, verb_info_page, TABLE_HEAD};

fn form(text: &str, kind: ConjugationKind, is_past: bool) -> Word {
    Word {
        text: text.to_string(),
        traits: SharedVec::from(vec![WordTrait::VerbConjugationIndicative { verb: VerbId(1), kind, is_past }]),
    }
}

fn catalog() -> Catalog {
    let mut catalog = Catalog::new();
    catalog.store(1, Word { text: "lopen".to_string(), traits: SharedVec::from(vec![WordTrait::Verb { verb: VerbId(1) }]) });
    catalog.store(2, form("loop", ConjugationKind::FirstPerson, false));
    catalog.store(3, form("loopt", ConjugationKind::ThirdPerson, false));
    catalog.store(4, form("loopt", ConjugationKind::SecondPersonU, false));
    catalog.store(5, form("lopen", ConjugationKind::Plural, false));
    catalog.store(6, form("liep", ConjugationKind::FirstPerson, true));
    catalog.store(
        7,
        Word {
            text: "loop".to_string(),
            traits: SharedVec::from(vec![
                WordTrait::VerbConjugationIndicative { verb: VerbId(1), kind: ConjugationKind::SecondPersonJe, is_past: false },
            ]),
        },
    );
    catalog.store(8, Word { text: "huis".to_string(), traits: SharedVec::from(vec![]) });
    catalog
}

#[test]
fn unknown_word_has_no_page() {
    let (status, body) = verb_info_page(&catalog(), "zwemmen");
    assert_eq!(status, 404);
    assert_eq!(body, "Verb not found!");
}

#[test]
fn non_verb_has_no_page() {
    let (status, body) = verb_info_page(&catalog(), "huis");
    assert_eq!(status, 404);
    assert_eq!(body, "Not a verb");
}

#[test]
fn verb_page_lists_present_forms() {
    let (status, body) = verb_info_page(&catalog(), "lopen");
    assert_eq!(status, 200);
    let expected = format!(
        "{}{}{}{}{}{}{}{}{}</tbody></table>",
        TABLE_HEAD,
        "<tr><td>Ik</td><td>loop</td></tr>",
        "<tr><td>Jij</td><td>loop</td></tr>",
        "<tr><td>U</td><td>loopt</td></tr>",
        "<tr><td>Ge</td><td></td></tr>",
        "<tr><td>Hij/Zij</td><td>loopt</td></tr>",
        "<tr><td>Wij</td><td>lopen</td></tr>",
        "<tr><td>Jullie</td><td>lopen</td></tr>",
        "<tr><td>Zij</td><td>lopen</td></tr>",
    );
    assert_eq!(body, expected);
    assert!(body.contains("<th>Vorm</th>"));
}

#[test]
fn forms_of_one_person_are_joined_by_commas() {
    let words = vec![
        form("ben", ConjugationKind::FirstPerson, false),
        form("bent", ConjugationKind::SecondPersonU, false),
        form("heb", ConjugationKind::FirstPerson, false),
    ];
    let html = conjugation_table_html(&words);
    assert!(html.contains("<tr><td>Ik</td><td>ben, heb</td></tr>"));
    assert!(html.contains("<tr><td>U</td><td>bent</td></tr>"));
    assert!(html.ends_with("<tr><td>Zij</td><td></td></tr></tbody></table>"));
}
