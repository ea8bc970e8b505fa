//! The page that shows the present-tense conjugations of a verb of the catalog.
use vstd::prelude::*;
use vstd::string::StringExecFns;

use crate::catalog::{
    conjugations_of, find_word, has_conjugation, Catalog, ConjugationKind, SharedVec, VerbId, Word,
    WordTrait, WordView,
};

verus! {

/// The start of the conjugation table, up to its first row.
pub const TABLE_HEAD: &'static str = r#"
       <link href="https://cdn.jsdelivr.net/npm/bootstrap@5.3.2/dist/css/bootstrap.min.css" rel="stylesheet" integrity="sha384-T3c6CoIi6uLrA9TneNEoa7RxnatzjcDSCmG1MXxSR1GAsXEV/Dwwykc2MPK8M2HN" crossorigin="anonymous">
        <table class=table>
            <thead>
                <tr>
                    <th>Vorm</th>
                    <th>Waarde</th>
                </tr>
            </head>
            <tbody>
    "#;

/// `list` with `sep` between each two of its items.
pub open spec fn join(list: Seq<Seq<char>>, sep: Seq<char>) -> Seq<char>
    decreases list.len(),
{
    if list.len() == 0 {
        seq![]
    } else if list.len() == 1 {
        list[0]
    } else {
        join(list.drop_last(), sep) + sep + list.last()
    }
}

/// The spellings of the words that are the present-tense conjugation of kind `kind`, in order.
pub open spec fn forms_of(words: Seq<WordView>, kind: ConjugationKind) -> Seq<Seq<char>>
    decreases words.len(),
{
    if words.len() == 0 {
        seq![]
    } else {
        let rest = forms_of(words.drop_last(), kind);
        if has_conjugation(words.last().traits, kind, false) {
            rest.push(words.last().text)
        } else {
            rest
        }
    }
}

/// The verb of the first verb role among `traits`.
pub open spec fn first_verb(traits: Seq<WordTrait>) -> Option<VerbId>
    decreases traits.len(),
{
    if traits.len() == 0 {
        None
    } else if let WordTrait::Verb { verb } = traits[0] {
        Some(verb)
    } else {
        first_verb(traits.drop_first())
    }
}

/// A table row with a label cell and a value cell.
pub open spec fn table_row(label: Seq<char>, value: Seq<char>) -> Seq<char> {
    "<tr><td>"@ + label + "</td><td>"@ + value + "</td></tr>"@
}

/// The page of a verb: a table of its present-tense forms per person, the forms of
/// one person separated by commas; the plural forms stand for `wij`, `jullie` and `zij`.
pub open spec fn conjugation_table(words: Seq<WordView>) -> Seq<char> {
    let sep = ", "@;
    let plural = join(forms_of(words, ConjugationKind::Plural), sep);
    TABLE_HEAD@ + table_row("Ik"@, join(forms_of(words, ConjugationKind::FirstPerson), sep))
        + table_row("Jij"@, join(forms_of(words, ConjugationKind::SecondPersonJe), sep))
        + table_row("U"@, join(forms_of(words, ConjugationKind::SecondPersonU), sep))
        + table_row("Ge"@, join(forms_of(words, ConjugationKind::SecondPersonGe), sep))
        + table_row("Hij/Zij"@, join(forms_of(words, ConjugationKind::ThirdPerson), sep))
        + table_row("Wij"@, plural) + table_row("Jullie"@, plural) + table_row("Zij"@, plural)
        + "</tbody></table>"@
}

/// The answer to a request for the page of `query`: status 404 with a message when the
/// catalog does not know the word or the word is no verb; otherwise status 200 with the
/// conjugation table of the verb of its first verb role.
pub open spec fn verb_page(cat: Seq<Option<WordView>>, query: Seq<char>) -> (u16, Seq<char>) {
    match find_word(cat, query) {
        None => (404, "Verb not found!"@),
        Some((_, word)) => match first_verb(word.traits) {
            None => (404, "Not a verb"@),
            Some(verb) => (200, conjugation_table(conjugations_of(cat, verb))),
        },
    }
}

/// The verb of the first verb role among `traits`.
fn first_verb_trait(traits: &SharedVec<WordTrait>) -> (r: Option<VerbId>)
    ensures
        r == first_verb(traits@),
{
    let n = traits.len();
    let mut i: usize = 0;
    assert(traits@.skip(0) =~= traits@);
    while i < n
        invariant
            n == traits@.len(),
            i <= n,
            first_verb(traits@) == first_verb(traits@.skip(i as int)),
        decreases n - i,
    {
        assert(traits@.skip(i as int).drop_first() =~= traits@.skip(i + 1));
        if let WordTrait::Verb { verb } = *traits.get(i) {
            return Some(verb);
        }
        i = i + 1;
    }
    None
}

/// The spellings of the present-tense conjugations of kind `kind` among `words`,
/// separated by commas.
fn joined_forms(words: &Vec<Word>, kind: ConjugationKind) -> (r: String)
    ensures
        r@ == join(forms_of(words@.map_values(|w: Word| w@), kind), ", "@),
{
    let ghost views = words@.map_values(|w: Word| w@);
    let mut text = String::new();
    let mut count: usize = 0;
    let mut i: usize = 0;
    while i < words.len()
        invariant
            views == words@.map_values(|w: Word| w@),
            i <= words.len(),
            count == forms_of(views.take(i as int), kind).len(),
            count <= i,
            text@ == join(forms_of(views.take(i as int), kind), ", "@),
        decreases words.len() - i,
    {
        assert(views.take(i + 1).drop_last() =~= views.take(i as int));
        assert(views.take(i + 1).last() == words@[i as int]@);
        let ghost prev_forms = forms_of(views.take(i as int), kind);
        if words[i].is_conjugation(kind, false) {
            let ghost new_forms = forms_of(views.take(i + 1), kind);
            assert(new_forms == prev_forms.push(words@[i as int].text@));
            assert(new_forms.drop_last() =~= prev_forms);
            if count > 0 {
                text.append(", ");
            }
            text.append(words[i].text.as_str());
            count = count + 1;
            assert(text@ =~= join(new_forms, ", "@));
        }
        i = i + 1;
    }
    assert(views.take(words.len() as int) =~= views);
    text
}

/// Appends a table row with a label cell and a value cell.
fn push_row(html: &mut String, label: &str, value: &str)
    ensures
        final(html)@ == old(html)@ + table_row(label@, value@),
{
    html.append("<tr><td>");
    html.append(label);
    html.append("</td><td>");
    html.append(value);
    html.append("</td></tr>");
}

/// The conjugation table of the verb whose present-tense forms are `conjugations`.
pub fn conjugation_table_html(conjugations: &Vec<Word>) -> (r: String)
    ensures
        r@ == conjugation_table(conjugations@.map_values(|w: Word| w@)),
{
    let mut html = String::from_str(TABLE_HEAD);
    let first = joined_forms(conjugations, ConjugationKind::FirstPerson);
    push_row(&mut html, "Ik", first.as_str());
    let second_je = joined_forms(conjugations, ConjugationKind::SecondPersonJe);
    push_row(&mut html, "Jij", second_je.as_str());
    let second_u = joined_forms(conjugations, ConjugationKind::SecondPersonU);
    push_row(&mut html, "U", second_u.as_str());
    let second_ge = joined_forms(conjugations, ConjugationKind::SecondPersonGe);
    push_row(&mut html, "Ge", second_ge.as_str());
    let third = joined_forms(conjugations, ConjugationKind::ThirdPerson);
    push_row(&mut html, "Hij/Zij", third.as_str());
    let plural = joined_forms(conjugations, ConjugationKind::Plural);
    push_row(&mut html, "Wij", plural.as_str());
    push_row(&mut html, "Jullie", plural.as_str());
    push_row(&mut html, "Zij", plural.as_str());
    html.append("</tbody></table>");
    html
}

/// The status and page to answer a request for the verb page of `verb_query`.
pub fn verb_info_page(catalog: &Catalog, verb_query: &str) -> (r: (u16, String))
    ensures
        (r.0, r.1@) == verb_page(catalog@, verb_query@),
{
    let verb_word = match catalog.find(verb_query) {
        Some((_, word)) => word,
        None => return (404, String::from_str("Verb not found!")),
    };
    let verb = match first_verb_trait(&verb_word.traits) {
        Some(verb) => verb,
        None => return (404, String::from_str("Not a verb")),
    };
    let conjugations = catalog.find_indicative_conjugations(verb);
    (200, conjugation_table_html(&conjugations))
}

} // verus!
