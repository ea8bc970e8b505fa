use vstd::prelude::*;
use vstd::string::StringExecFns;

use crate::catalog::{lookup, Catalog, Gender, Multiplicity, SharedVec, WordTrait, WordView};
use crate::syntax::{Article, AtomicDeterminator, Determinator, NounConstituentCore, Substantive};

verus! {

/// The genders that a word can have.
#[derive(Debug, Clone, Copy, PartialEq, Eq, Structural)]
pub struct GenderAnalysis {
    pub feminine: bool,
    pub neuter: bool,
    pub masculine: bool,
}

impl GenderAnalysis {
    /// Only feminine.
    #[verifier::allow_in_spec]
    pub fn feminine() -> GenderAnalysis
        returns
            (GenderAnalysis { feminine: true, neuter: false, masculine: false }),
    {
        GenderAnalysis { feminine: true, neuter: false, masculine: false }
    }

    /// Feminine or masculine.
    #[verifier::allow_in_spec]
    pub fn feminine_and_masculine() -> GenderAnalysis
        returns
            (GenderAnalysis { feminine: true, neuter: false, masculine: true }),
    {
        GenderAnalysis { feminine: true, neuter: false, masculine: true }
    }

    /// Only neuter.
    #[verifier::allow_in_spec]
    pub fn neuter() -> GenderAnalysis
        returns
            (GenderAnalysis { feminine: false, neuter: true, masculine: false }),
    {
        GenderAnalysis { feminine: false, neuter: true, masculine: false }
    }

    /// Only masculine.
    #[verifier::allow_in_spec]
    pub fn masculine() -> GenderAnalysis
        returns
            (GenderAnalysis { feminine: false, neuter: false, masculine: true }),
    {
        GenderAnalysis { feminine: false, neuter: false, masculine: true }
    }

    /// Any gender.
    #[verifier::allow_in_spec]
    pub fn all() -> GenderAnalysis
        returns
            (GenderAnalysis { feminine: true, neuter: true, masculine: true }),
    {
        GenderAnalysis { feminine: true, neuter: true, masculine: true }
    }

    /// Whether the two have a gender in common.
    pub open spec fn overlaps(self, other: GenderAnalysis) -> bool {
        ||| self.feminine && other.feminine
        ||| self.neuter && other.neuter
        ||| self.masculine && other.masculine
    }

    /// Having a gender in common does not depend on the order of the two.
    pub proof fn lemma_overlaps_symmetric(self, other: GenderAnalysis)
        ensures
            self.overlaps(other) == other.overlaps(self),
    {
    }

    /// Whether this analysis allows `gender`.
    pub open spec fn allows(self, gender: Gender) -> bool {
        match gender {
            Gender::Feminine => self.feminine,
            Gender::Neuter => self.neuter,
            Gender::Masculine => self.masculine,
        }
    }

    /// Two analyses match exactly when some gender is allowed by both.
    pub proof fn lemma_matches_iff_common_gender(self, other: GenderAnalysis)
        ensures
            self.overlaps(other) <==> exists|gender: Gender| #[trigger] self.allows(gender) && other.allows(gender),
    {
        if self.feminine && other.feminine {
            assert(self.allows(Gender::Feminine) && other.allows(Gender::Feminine));
        }
        if self.neuter && other.neuter {
            assert(self.allows(Gender::Neuter) && other.allows(Gender::Neuter));
        }
        if self.masculine && other.masculine {
            assert(self.allows(Gender::Masculine) && other.allows(Gender::Masculine));
        }
    }

    /// A noun of a single gender matches exactly the analyses that allow that gender.
    pub proof fn lemma_single_gender_matches(gender: Gender, other: GenderAnalysis, catalog: Seq<Option<WordView>>)
        ensures
            gender.spec_analyze_gender(catalog).overlaps(other) == other.allows(gender),
            other.overlaps(gender.spec_analyze_gender(catalog)) == other.allows(gender),
    {
    }

    /// Whether the two have a gender in common.
    pub fn matches(&self, other: GenderAnalysis) -> (r: bool)
        ensures
            r == self.overlaps(other),
    {
        if self.feminine && other.feminine {
            return true;
        }
        if self.neuter && other.neuter {
            return true;
        }
        if self.masculine && other.masculine {
            return true;
        }
        false
    }
}

/// The JSON text of a boolean.
pub open spec fn json_bool(b: bool) -> Seq<char> {
    if b {
        "true"@
    } else {
        "false"@
    }
}

/// The JSON text of a gender analysis: an object with the fields `feminine`, `neuter`
/// and `masculine`, in that order, without white space.
pub open spec fn json_genders(g: GenderAnalysis) -> Seq<char> {
    "{\"feminine\":"@ + json_bool(g.feminine) + ",\"neuter\":"@ + json_bool(g.neuter)
        + ",\"masculine\":"@ + json_bool(g.masculine) + "}"@
}

/// The JSON text of a boolean.
fn bool_json_text(b: bool) -> (r: &'static str)
    ensures
        r@ == json_bool(b),
{
    if b {
        "true"
    } else {
        "false"
    }
}

impl GenderAnalysis {
    /// This analysis as a JSON object, as `serde_json` writes it.
    pub fn to_json(&self) -> (r: String)
        ensures
            r@ == json_genders(*self),
    {
        let mut text = String::from_str("{\"feminine\":");
        text.append(bool_json_text(self.feminine));
        text.append(",\"neuter\":");
        text.append(bool_json_text(self.neuter));
        text.append(",\"masculine\":");
        text.append(bool_json_text(self.masculine));
        text.append("}");
        text
    }
}

/// The first noun role among `traits`: its gender and multiplicity.
pub open spec fn first_noun(traits: Seq<WordTrait>) -> Option<(Gender, Multiplicity)>
    decreases traits.len(),
{
    if traits.len() == 0 {
        None
    } else if let WordTrait::Noun { gender, multiplicity } = traits[0] {
        Some((gender, multiplicity))
    } else {
        first_noun(traits.drop_first())
    }
}

/// The first noun role among `traits`: its gender and multiplicity.
pub fn first_noun_trait(traits: &SharedVec<WordTrait>) -> (r: Option<(Gender, Multiplicity)>)
    ensures
        r == first_noun(traits@),
{
    let n = traits.len();
    let mut i: usize = 0;
    assert(traits@.skip(0) =~= traits@);
    while i < n
        invariant
            n == traits@.len(),
            i <= n,
            first_noun(traits@) == first_noun(traits@.skip(i as int)),
        decreases n - i,
    {
        assert(traits@.skip(i as int).drop_first() =~= traits@.skip(i + 1));
        if let WordTrait::Noun { gender, multiplicity } = *traits.get(i) {
            return Some((gender, multiplicity));
        }
        i = i + 1;
    }
    None
}

/// The genders that the noun stored under `index` can have: those of its first noun
/// role, or all of them when it has none.
pub open spec fn word_genders(cat: Seq<Option<WordView>>, index: int) -> GenderAnalysis {
    match first_noun(lookup(cat, index)->0.traits) {
        Some((gender, _)) => gender.spec_analyze_gender(cat),
        None => GenderAnalysis::all(),
    }
}

/// Something whose possible genders can be found with the catalog.
pub trait GenderAnalyzer {
    /// Whether the catalog holds what is needed to find the genders.
    spec fn analyzable(&self, catalog: Seq<Option<WordView>>) -> bool;

    /// The genders this can have.
    spec fn spec_analyze_gender(&self, catalog: Seq<Option<WordView>>) -> GenderAnalysis;

    /// Find the possible genders that this element can be.
    fn analyze_gender(&self, catalog: &Catalog) -> (r: GenderAnalysis)
        requires
            self.analyzable(catalog@),
        ensures
            r == self.spec_analyze_gender(catalog@),
    ;
}

impl GenderAnalyzer for Article {
    open spec fn analyzable(&self, catalog: Seq<Option<WordView>>) -> bool {
        true
    }

    open spec fn spec_analyze_gender(&self, catalog: Seq<Option<WordView>>) -> GenderAnalysis {
        match self {
            Article::De => GenderAnalysis::feminine_and_masculine(),
            Article::Een => GenderAnalysis::all(),
            Article::Het => GenderAnalysis::neuter(),
        }
    }

    fn analyze_gender(&self, catalog: &Catalog) -> (r: GenderAnalysis) {
        match self {
            Article::De => GenderAnalysis::feminine_and_masculine(),
            Article::Een => GenderAnalysis::all(),
            Article::Het => GenderAnalysis::neuter(),
        }
    }
}

/// An article agrees with a noun of one gender as Dutch has it: "de" with feminine and
/// masculine nouns, "het" with neuter ones, and "een" with any noun.
pub proof fn lemma_article_agrees_with_gender(
    article: Article,
    gender: Gender,
    catalog: Seq<Option<WordView>>,
)
    ensures
        article.spec_analyze_gender(catalog).overlaps(gender.spec_analyze_gender(catalog))
            == match article {
            Article::De => gender == Gender::Feminine || gender == Gender::Masculine,
            Article::Het => gender == Gender::Neuter,
            Article::Een => true,
        },
{
}

impl GenderAnalyzer for AtomicDeterminator {
    open spec fn analyzable(&self, catalog: Seq<Option<WordView>>) -> bool {
        true
    }

    open spec fn spec_analyze_gender(&self, catalog: Seq<Option<WordView>>) -> GenderAnalysis {
        match self {
            AtomicDeterminator::Article(article) => article.spec_analyze_gender(catalog),
        }
    }

    fn analyze_gender(&self, catalog: &Catalog) -> (r: GenderAnalysis) {
        match self {
            AtomicDeterminator::Article(article) => article.analyze_gender(catalog),
        }
    }
}

impl GenderAnalyzer for Determinator {
    open spec fn analyzable(&self, catalog: Seq<Option<WordView>>) -> bool {
        true
    }

    open spec fn spec_analyze_gender(&self, catalog: Seq<Option<WordView>>) -> GenderAnalysis {
        match self {
            Determinator::Atomic(atomic) => atomic.spec_analyze_gender(catalog),
        }
    }

    fn analyze_gender(&self, catalog: &Catalog) -> (r: GenderAnalysis) {
        match self {
            Determinator::Atomic(atomic) => atomic.analyze_gender(catalog),
        }
    }
}

impl GenderAnalyzer for Gender {
    open spec fn analyzable(&self, catalog: Seq<Option<WordView>>) -> bool {
        true
    }

    open spec fn spec_analyze_gender(&self, catalog: Seq<Option<WordView>>) -> GenderAnalysis {
        match self {
            Gender::Feminine => GenderAnalysis::feminine(),
            Gender::Neuter => GenderAnalysis::neuter(),
            Gender::Masculine => GenderAnalysis::masculine(),
        }
    }

    fn analyze_gender(&self, catalog: &Catalog) -> (r: GenderAnalysis) {
        match self {
            Gender::Feminine => GenderAnalysis::feminine(),
            Gender::Neuter => GenderAnalysis::neuter(),
            Gender::Masculine => GenderAnalysis::masculine(),
        }
    }
}

impl GenderAnalyzer for NounConstituentCore {
    open spec fn analyzable(&self, catalog: Seq<Option<WordView>>) -> bool {
        match self {
            NounConstituentCore::Substantive(substantive) => substantive.analyzable(catalog),
        }
    }

    open spec fn spec_analyze_gender(&self, catalog: Seq<Option<WordView>>) -> GenderAnalysis {
        match self {
            NounConstituentCore::Substantive(substantive) => substantive.spec_analyze_gender(catalog),
        }
    }

    fn analyze_gender(&self, catalog: &Catalog) -> (r: GenderAnalysis) {
        match self {
            NounConstituentCore::Substantive(substantive) => substantive.analyze_gender(catalog),
        }
    }
}

impl GenderAnalyzer for Substantive {
    open spec fn analyzable(&self, catalog: Seq<Option<WordView>>) -> bool {
        lookup(catalog, self.catalog_index.0 as int) is Some
    }

    open spec fn spec_analyze_gender(&self, catalog: Seq<Option<WordView>>) -> GenderAnalysis {
        word_genders(catalog, self.catalog_index.0 as int)
    }

    fn analyze_gender(&self, catalog: &Catalog) -> (r: GenderAnalysis) {
        let word = catalog.get(&self.catalog_index);
        match first_noun_trait(&word.traits) {
            Some((gender, _)) => gender.analyze_gender(catalog),
            None => GenderAnalysis::all(),
        }
    }
}

} // verus!
