//! The catalog of known words: their spelling and grammatical roles, each under a
//! numeric index.
pub mod verb;
pub mod word;

use vstd::prelude::*;

pub use self::verb::{conjugation_kind_of_code, ConjugationKind, VerbId};
pub use self::word::{
    gender_of_code, has_conjugation, multiplicity_of_code, Gender, Multiplicity, SharedVec, Word,
    WordTrait, WordView,
};

verus! {

/// The index of a word in the catalog.
#[derive(Debug, Copy, Clone, PartialEq, Eq, Structural)]
pub struct CatalogIndex(pub usize);

/// The word stored under index `i`, if any.
pub open spec fn lookup(slots: Seq<Option<WordView>>, i: int) -> Option<WordView> {
    if 0 <= i < slots.len() {
        slots[i]
    } else {
        None
    }
}

/// The first word, at index `i` or later, that is spelled `text`, with its index.
pub open spec fn find_from(slots: Seq<Option<WordView>>, text: Seq<char>, i: int) -> Option<
    (usize, WordView),
>
    decreases slots.len() - i,
{
    if i < 0 || i >= slots.len() {
        None
    } else if slots[i] matches Some(w) && w.text == text {
        Some((i as usize, slots[i]->0))
    } else {
        find_from(slots, text, i + 1)
    }
}

/// The word with the lowest index that is spelled `text`, with its index.
pub open spec fn find_word(slots: Seq<Option<WordView>>, text: Seq<char>) -> Option<(usize, WordView)> {
    find_from(slots, text, 0)
}

/// Whether one of `traits` marks an indicative conjugation of the verb `verb`.
pub open spec fn conjugates(traits: Seq<WordTrait>, verb: VerbId) -> bool {
    exists|i: int|
        0 <= i < traits.len() && (#[trigger] traits[i] matches WordTrait::VerbConjugationIndicative {
            verb: v,
            ..
        } && v == verb)
}

/// Traits mark an indicative conjugation of `verb` exactly when they hold such a trait,
/// of any person and tense, wherever it stands among them.
pub proof fn lemma_conjugates_anywhere(traits: Seq<WordTrait>, verb: VerbId)
    ensures
        conjugates(traits, verb) <==> exists|kind: ConjugationKind, is_past: bool|
            #[trigger] traits.contains(WordTrait::VerbConjugationIndicative { verb, kind, is_past }),
{
    if conjugates(traits, verb) {
        let i = choose|i: int|
            0 <= i < traits.len() && (#[trigger] traits[i] matches WordTrait::VerbConjugationIndicative {
                verb: v,
                ..
            } && v == verb);
        if let WordTrait::VerbConjugationIndicative { verb: v, kind, is_past } = traits[i] {
            assert(traits.contains(WordTrait::VerbConjugationIndicative { verb, kind, is_past }));
        }
    }
    if exists|kind: ConjugationKind, is_past: bool|
        #[trigger] traits.contains(WordTrait::VerbConjugationIndicative { verb, kind, is_past }) {
        let (kind, is_past) = choose|kind: ConjugationKind, is_past: bool|
            #[trigger] traits.contains(WordTrait::VerbConjugationIndicative { verb, kind, is_past });
        let i = choose|i: int| 0 <= i < traits.len() && traits[i] == WordTrait::VerbConjugationIndicative { verb, kind, is_past };
        assert(traits[i] matches WordTrait::VerbConjugationIndicative { verb: v, .. } && v == verb);
    }
}

/// Joining two lists of traits marks a conjugation of `verb` exactly when one of them does.
pub proof fn lemma_conjugates_concat(first: Seq<WordTrait>, second: Seq<WordTrait>, verb: VerbId)
    ensures
        conjugates(first + second, verb) == (conjugates(first, verb) || conjugates(second, verb)),
{
    let all = first + second;
    if conjugates(first, verb) {
        let i = choose|i: int|
            0 <= i < first.len() && (#[trigger] first[i] matches WordTrait::VerbConjugationIndicative {
                verb: v,
                ..
            } && v == verb);
        assert(all[i] == first[i]);
    }
    if conjugates(second, verb) {
        let i = choose|i: int|
            0 <= i < second.len() && (#[trigger] second[i] matches WordTrait::VerbConjugationIndicative {
                verb: v,
                ..
            } && v == verb);
        assert(all[first.len() + i] == second[i]);
    }
    if conjugates(all, verb) {
        let i = choose|i: int|
            0 <= i < all.len() && (#[trigger] all[i] matches WordTrait::VerbConjugationIndicative {
                verb: v,
                ..
            } && v == verb);
        if i < first.len() {
            assert(first[i] == all[i]);
        } else {
            assert(second[i - first.len()] == all[i]);
        }
    }
}

/// The words listed as conjugations of `verb` are exactly the stored words that hold an
/// indicative conjugation trait of it, of any person and tense, at any position.
pub proof fn lemma_conjugations_of_members(slots: Seq<Option<WordView>>, verb: VerbId)
    ensures
        forall|w: WordView|
            #[trigger] conjugations_of(slots, verb).contains(w) <==> exists|i: int, kind: ConjugationKind, is_past: bool|
                0 <= i < slots.len() && #[trigger] slots[i] == Some(w) && #[trigger] w.traits.contains(
                    WordTrait::VerbConjugationIndicative { verb, kind, is_past },
                ),
    decreases slots.len(),
{
    if slots.len() > 0 {
        let init = slots.drop_last();
        lemma_conjugations_of_members(init, verb);
        assert forall|w: WordView|
            #[trigger] conjugations_of(slots, verb).contains(w) <==> exists|i: int, kind: ConjugationKind, is_past: bool|
                0 <= i < slots.len() && #[trigger] slots[i] == Some(w) && #[trigger] w.traits.contains(
                    WordTrait::VerbConjugationIndicative { verb, kind, is_past },
                ) by {
            lemma_conjugates_anywhere(w.traits, verb);
            let rest = conjugations_of(init, verb);
            if conjugations_of(slots, verb).contains(w) {
                if rest.contains(w) {
                    let (i, kind, is_past) = choose|i: int, kind: ConjugationKind, is_past: bool|
                        0 <= i < init.len() && #[trigger] init[i] == Some(w) && #[trigger] w.traits.contains(
                            WordTrait::VerbConjugationIndicative { verb, kind, is_past },
                        );
                    assert(slots[i] == init[i]);
                } else {
                    let k = choose|k: int| 0 <= k < conjugations_of(slots, verb).len() && conjugations_of(slots, verb)[k] == w;
                    assert(slots.last() == Some(w));
                    let (kind, is_past) = choose|kind: ConjugationKind, is_past: bool|
                        #[trigger] w.traits.contains(WordTrait::VerbConjugationIndicative { verb, kind, is_past });
                    assert(slots[slots.len() - 1] == Some(w));
                }
            }
            if exists|i: int, kind: ConjugationKind, is_past: bool|
                0 <= i < slots.len() && #[trigger] slots[i] == Some(w) && #[trigger] w.traits.contains(
                    WordTrait::VerbConjugationIndicative { verb, kind, is_past },
                ) {
                let (i, kind, is_past) = choose|i: int, kind: ConjugationKind, is_past: bool|
                    0 <= i < slots.len() && #[trigger] slots[i] == Some(w) && #[trigger] w.traits.contains(
                        WordTrait::VerbConjugationIndicative { verb, kind, is_past },
                    );
                if i < slots.len() - 1 {
                    assert(init[i] == slots[i]);
                    assert(rest.contains(w));
                    if conjugates(w.traits, verb) && slots.last() == Some(w) {
                        assert(conjugations_of(slots, verb) == rest.push(w));
                        assert(rest.push(w)[rest.len() as int] == w);
                    } else {
                        let k = choose|k: int| 0 <= k < rest.len() && rest[k] == w;
                        match slots.last() {
                            Some(x) => if conjugates(x.traits, verb) {
                                assert(rest.push(x)[k] == w);
                            },
                            None => {},
                        }
                    }
                } else {
                    assert(conjugations_of(slots, verb) == rest.push(w));
                    assert(rest.push(w)[rest.len() as int] == w);
                }
            }
        }
    }
}

/// The words that are indicative conjugations of `verb`, by increasing index.
pub open spec fn conjugations_of(slots: Seq<Option<WordView>>, verb: VerbId) -> Seq<WordView>
    decreases slots.len(),
{
    if slots.len() == 0 {
        seq![]
    } else {
        let rest = conjugations_of(slots.drop_last(), verb);
        match slots.last() {
            Some(w) => if conjugates(w.traits, verb) {
                rest.push(w)
            } else {
                rest
            },
            None => rest,
        }
    }
}

/// What `find_from` finds: a word spelled `text` with no such word between `i` and it;
/// and it finds nothing only when no word from `i` on is spelled `text`.
pub proof fn lemma_find_from(slots: Seq<Option<WordView>>, text: Seq<char>, i: int)
    requires
        0 <= i,
        slots.len() <= usize::MAX,
    ensures
        match find_from(slots, text, i) {
            Some((k, w)) => {
                &&& i <= k < slots.len()
                &&& slots[k as int] == Some(w)
                &&& w.text == text
                &&& forall|j: int| i <= j < k ==> !(#[trigger] slots[j] matches Some(v) && v.text == text)
            },
            None => forall|j: int| i <= j < slots.len() ==> !(#[trigger] slots[j] matches Some(v) && v.text == text),
        },
    decreases slots.len() - i,
{
    if i < slots.len() && !(slots[i] matches Some(w) && w.text == text) {
        lemma_find_from(slots, text, i + 1);
    }
}

/// The catalog: every known word under its index.
#[derive(Debug, Clone)]
pub struct Catalog {
    words: Vec<Option<Word>>,
}

impl View for Catalog {
    type V = Seq<Option<WordView>>;

    closed spec fn view(&self) -> Seq<Option<WordView>> {
        self.words@.map_values(|w: Option<Word>| match w {
            Some(w) => Some(w@),
            None => None,
        })
    }
}

impl Catalog {
    /// What `find` finds: the word spelled `text` with the lowest index, stored under
    /// that index; and it finds nothing only when no stored word is spelled `text`.
    pub proof fn lemma_find_word(&self, text: Seq<char>)
        requires
            self@.len() <= usize::MAX,
        ensures
            match find_word(self@, text) {
                Some((i, w)) => {
                    &&& lookup(self@, i as int) == Some(w)
                    &&& w.text == text
                    &&& forall|j: int|
                        0 <= j < i ==> !(#[trigger] lookup(self@, j) matches Some(v) && v.text == text)
                },
                None => forall|j: int| !(#[trigger] lookup(self@, j) matches Some(v) && v.text == text),
            },
    {
        lemma_find_from(self@, text, 0);
        match find_word(self@, text) {
            Some((i, w)) => {
                assert forall|j: int| 0 <= j < i implies !(#[trigger] lookup(self@, j) matches Some(v) && v.text == text) by {
                    assert(lookup(self@, j) == self@[j]);
                }
            },
            None => {
                assert forall|j: int| !(#[trigger] lookup(self@, j) matches Some(v) && v.text == text) by {
                    if 0 <= j < self@.len() {
                        assert(lookup(self@, j) == self@[j]);
                    }
                }
            },
        }
    }

    /// An empty catalog.
    pub fn new() -> (r: Catalog)
        ensures
            r@.len() == 0,
            forall|i: int| lookup(r@, i) is None,
    {
        Catalog { words: Vec::new() }
    }

    /// The number of index slots: one more than the highest index stored under so far.
    /// No index from here on holds a word.
    pub fn len(&self) -> (n: usize)
        ensures
            n == self@.len(),
            forall|i: int| n <= i ==> lookup(self@, i) is None,
    {
        self.words.len()
    }

    /// Stores `word` under index `id`, in place of what was stored there.
    pub fn store(&mut self, id: usize, word: Word)
        requires
            id < usize::MAX,
        ensures
            final(self)@.len() == if id < old(self)@.len() {
                old(self)@.len() as int
            } else {
                id + 1
            },
            forall|i: int|
                #![trigger lookup(final(self)@, i)]
                lookup(final(self)@, i) == if i == id {
                    Some(word@)
                } else {
                    lookup(old(self)@, i)
                },
    {
        let ghost before = self@;
        while self.words.len() <= id
            invariant
                id < usize::MAX,
                before.len() <= self@.len(),
                self@.len() <= if id < before.len() {
                    before.len() as int
                } else {
                    id + 1
                },
                forall|i: int| #![trigger lookup(self@, i)] lookup(self@, i) == lookup(before, i),
            decreases id + 1 - self.words.len(),
        {
            let ghost prev = self@;
            self.words.push(None);
            assert forall|i: int| #![trigger lookup(self@, i)] lookup(self@, i) == lookup(prev, i) by {
                if 0 <= i < prev.len() {
                    assert(self@[i] == prev[i]);
                }
            }
        }
        let ghost prev = self@;
        self.words.set(id, Some(word));
        assert(self@[id as int] == Some(word@));
        assert(self@.len() == prev.len());
        assert forall|i: int| 0 <= i < self@.len() && i != id implies self@[i] == prev[i] by {}
        assert forall|i: int|
            #![trigger lookup(self@, i)]
            lookup(self@, i) == if i == id {
                Some(word@)
            } else {
                lookup(before, i)
            } by {
            assert(lookup(prev, i) == lookup(before, i));
            if 0 <= i < self@.len() && i != id {
                assert(self@[i] == prev[i]);
            }
        }
    }

    /// The word with the lowest index that is spelled `word`, with that index.
    pub fn find(&self, word: &str) -> (r: Option<(CatalogIndex, Word)>)
        ensures
            match find_word(self@, word@) {
                Some((i, w)) => r matches Some((idx, found)) && idx.0 == i && found@ == w,
                None => r is None,
            },
    {
        let key = String::from_str(word);
        let n = self.words.len();
        let mut i: usize = 0;
        while i < n
            invariant
                n == self@.len(),
                i <= n,
                key@ == word@,
                find_word(self@, word@) == find_from(self@, word@, i as int),
            decreases n - i,
        {
            match &self.words[i] {
                Some(w) => {
                    if w.text == key {
                        return Some((CatalogIndex(i), w.clone()));
                    }
                },
                None => {},
            }
            i = i + 1;
        }
        None
    }

    /// Whether a word is stored under `index`.
    pub fn contains(&self, index: &CatalogIndex) -> (r: bool)
        ensures
            r == (lookup(self@, index.0 as int) is Some),
    {
        index.0 < self.words.len() && self.words[index.0].is_some()
    }

    /// The word stored under `index`.
    pub fn get(&self, index: &CatalogIndex) -> (r: Word)
        requires
            lookup(self@, index.0 as int) is Some,
        ensures
            r@ == lookup(self@, index.0 as int)->0,
    {
        let stored = self.words[index.0].as_ref();
        stored.unwrap().clone()
    }

    /// Every indicative conjugation of the verb `id`, by increasing index.
    pub fn find_indicative_conjugations(&self, id: VerbId) -> (r: Vec<Word>)
        ensures
            r@.map_values(|w: Word| w@) == conjugations_of(self@, id),
    {
        let mut words: Vec<Word> = Vec::new();
        let n = self.words.len();
        let mut i: usize = 0;
        while i < n
            invariant
                n == self@.len(),
                i <= n,
                words@.map_values(|w: Word| w@) == conjugations_of(self@.take(i as int), id),
            decreases n - i,
        {
            assert(self@.take(i + 1).drop_last() =~= self@.take(i as int));
            match &self.words[i] {
                Some(w) => {
                    if conjugates_verb(&w.traits, id) {
                        words.push(w.clone());
                        assert(words@.map_values(|w: Word| w@) =~= conjugations_of(self@.take(i as int), id).push(self@[i as int]->0));
                    }
                },
                None => {},
            }
            i = i + 1;
        }
        assert(self@.take(n as int) =~= self@);
        words
    }
}

/// Whether one of `traits` marks an indicative conjugation of the verb `verb`.
fn conjugates_verb(traits: &SharedVec<WordTrait>, verb: VerbId) -> (r: bool)
    ensures
        r == conjugates(traits@, verb),
{
    let n = traits.len();
    let mut i: usize = 0;
    while i < n
        invariant
            n == traits@.len(),
            i <= n,
            forall|j: int|
                0 <= j < i ==> !(#[trigger] traits@[j] matches WordTrait::VerbConjugationIndicative {
                    verb: v,
                    ..
                } && v == verb),
        decreases n - i,
    {
        if let WordTrait::VerbConjugationIndicative { verb: v, .. } = *traits.get(i) {
            if v == verb {
                assert(traits@[i as int] matches WordTrait::VerbConjugationIndicative { verb: v, .. } && v == verb);
                return true;
            }
        }
        i = i + 1;
    }
    false
}

} // verus!
