use vstd::prelude::*;

verus! {

/// The identity of a verb (an infinitive) in the catalog.
#[derive(Copy, Clone, Debug, PartialEq, Eq, Structural, PartialOrd)]
pub struct VerbId(pub usize);

/// The person and number that a conjugated verb form agrees with.
#[derive(Copy, Clone, Debug, PartialEq, Eq, Structural, PartialOrd)]
pub enum ConjugationKind {
    FirstPerson,
    SecondPersonJe,
    SecondPersonU,
    SecondPersonGe,
    ThirdPerson,
    Plural,
}

/// The conjugation kind that the catalog stores as `code`.
pub open spec fn conjugation_kind_of_code(code: u8) -> ConjugationKind {
    if code == 0 {
        ConjugationKind::FirstPerson
    } else if code == 1 {
        ConjugationKind::SecondPersonJe
    } else if code == 2 {
        ConjugationKind::SecondPersonU
    } else if code == 3 {
        ConjugationKind::SecondPersonGe
    } else if code == 4 {
        ConjugationKind::ThirdPerson
    } else {
        ConjugationKind::Plural
    }
}

impl ConjugationKind {
    /// Decodes the catalog's numeric code of a conjugation kind (0 to 5).
    pub fn from_u8(value: u8) -> (r: ConjugationKind)
        requires
            value <= 5,
        ensures
            r == conjugation_kind_of_code(value),
    {
        match value {
            0 => ConjugationKind::FirstPerson,
            1 => ConjugationKind::SecondPersonJe,
            2 => ConjugationKind::SecondPersonU,
            3 => ConjugationKind::SecondPersonGe,
            4 => ConjugationKind::ThirdPerson,
            _ => ConjugationKind::Plural,
        }
    }
}

} // verus!
