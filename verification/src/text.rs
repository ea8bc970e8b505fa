//! Characters, string slices and their UTF-8 byte lengths.
//!
//! The parser keeps byte offsets into the original text, as `str` does, while the
//! contracts speak of the text as a sequence of `char`s. This module ties the two
//! together and states, over `char` sequences, what the few `str` and `char`
//! functions of std that the parser relies on compute.
use vstd::prelude::*;
use vstd::utf8::*;
use vstd::string::StringSliceAdditionalSpecFns;

verus! {

broadcast use vstd::seq::group_seq_axioms;

/// Whether `c` has the Unicode `White_Space` property (what `char::is_whitespace` tests).
pub open spec fn is_white_space(c: char) -> bool {
    let v = c as u32;
    ||| 0x09 <= v <= 0x0D
    ||| v == 0x20
    ||| v == 0x85
    ||| v == 0xA0
    ||| v == 0x1680
    ||| 0x2000 <= v <= 0x200A
    ||| v == 0x2028
    ||| v == 0x2029
    ||| v == 0x202F
    ||| v == 0x205F
    ||| v == 0x3000
}

/// Whether `c` is one of the ASCII punctuation characters
/// `` !"#$%&'()*+,-./:;<=>?@[\]^_`{|}~ ``.
pub open spec fn is_ascii_punctuation_char(c: char) -> bool {
    let v = c as u32;
    ||| 0x21 <= v <= 0x2F
    ||| 0x3A <= v <= 0x40
    ||| 0x5B <= v <= 0x60
    ||| 0x7B <= v <= 0x7E
}

/// `c` with an ASCII upper-case letter replaced by its lower-case form.
pub open spec fn ascii_lower(c: char) -> char {
    if 'A' <= c && c <= 'Z' {
        ((c as u32) + 32) as char
    } else {
        c
    }
}

/// The text with every ASCII upper-case letter replaced by its lower-case form.
pub open spec fn ascii_lower_chars(s: Seq<char>) -> Seq<char> {
    s.map_values(|c: char| ascii_lower(c))
}

/// The number of white-space characters at the start of `s`.
pub open spec fn leading_white_space(s: Seq<char>) -> nat
    decreases s.len(),
{
    if s.len() > 0 && is_white_space(s[0]) {
        1 + leading_white_space(s.drop_first())
    } else {
        0
    }
}

/// The number of white-space characters at the end of `s`.
pub open spec fn trailing_white_space(s: Seq<char>) -> nat
    decreases s.len(),
{
    if s.len() > 0 && is_white_space(s.last()) {
        1 + trailing_white_space(s.drop_last())
    } else {
        0
    }
}

/// `s` without its leading white space.
pub open spec fn trim_start_chars(s: Seq<char>) -> Seq<char> {
    s.skip(leading_white_space(s) as int)
}

/// `s` without its trailing white space.
pub open spec fn trim_end_chars(s: Seq<char>) -> Seq<char> {
    s.take(s.len() - trailing_white_space(s))
}

/// `s` without its leading and trailing white space.
pub open spec fn trim_chars(s: Seq<char>) -> Seq<char> {
    trim_end_chars(trim_start_chars(s))
}

/// The position of the first white-space character of `s`, if there is one.
pub open spec fn first_white_space(s: Seq<char>) -> Option<nat>
    decreases s.len(),
{
    if s.len() == 0 {
        None
    } else if is_white_space(s[0]) {
        Some(0)
    } else {
        match first_white_space(s.drop_first()) {
            Some(k) => Some(k + 1),
            None => None,
        }
    }
}

/// The length of the word at the start of `s`: everything before the first
/// white-space character, or all of `s` when it holds none.
pub open spec fn word_length(s: Seq<char>) -> nat {
    match first_white_space(s) {
        Some(k) => k,
        None => s.len(),
    }
}

/// The number of words of `s`: the runs of characters other than white space.
pub open spec fn word_count(s: Seq<char>) -> nat
    decreases s.len(),
{
    let t = trim_start_chars(s);
    if t.len() == 0 {
        0
    } else {
        proof {
            lemma_first_word(s);
        }
        1 + word_count(t.skip(word_length(t) as int))
    }
}

/// After the leading white space of a text with more than white space comes a word of
/// at least one character.
pub proof fn lemma_first_word(s: Seq<char>)
    ensures
        trim_start_chars(s).len() <= s.len(),
        trim_start_chars(s).len() > 0 ==> 0 < word_length(trim_start_chars(s)) <= trim_start_chars(
            s,
        ).len(),
        trim_start_chars(trim_start_chars(s)) == trim_start_chars(s),
{
    lemma_leading_white_space(s);
    let k = leading_white_space(s) as int;
    let t = trim_start_chars(s);
    lemma_first_white_space(t);
    lemma_leading_white_space(t);
    if t.len() > 0 {
        assert(t[0] == s[k]);
        assert(first_white_space(t) != Some(0nat));
    }
    assert(leading_white_space(t) == 0);
    assert(t.skip(0) =~= t);
}

/// The number of bytes of the UTF-8 encoding of `s`.
pub open spec fn utf8_len(s: Seq<char>) -> int {
    encode_utf8(s).len() as int
}

pub proof fn lemma_leading_white_space(s: Seq<char>)
    ensures
        leading_white_space(s) <= s.len(),
        forall|i: int| 0 <= i < leading_white_space(s) ==> is_white_space(#[trigger] s[i]),
        leading_white_space(s) < s.len() ==> !is_white_space(s[leading_white_space(s) as int]),
    decreases s.len(),
{
    if s.len() > 0 && is_white_space(s[0]) {
        lemma_leading_white_space(s.drop_first());
        assert forall|i: int| 0 <= i < leading_white_space(s) implies is_white_space(
            #[trigger] s[i],
        ) by {
            if i > 0 {
                assert(s[i] == s.drop_first()[i - 1]);
            }
        }
    }
}

pub proof fn lemma_trailing_white_space(s: Seq<char>)
    ensures
        trailing_white_space(s) <= s.len(),
        forall|i: int|
            s.len() - trailing_white_space(s) <= i < s.len() ==> is_white_space(#[trigger] s[i]),
        trailing_white_space(s) < s.len() ==> !is_white_space(
            s[s.len() - trailing_white_space(s) - 1],
        ),
    decreases s.len(),
{
    if s.len() > 0 && is_white_space(s.last()) {
        lemma_trailing_white_space(s.drop_last());
        assert forall|i: int|
            s.len() - trailing_white_space(s) <= i < s.len() implies is_white_space(
            #[trigger] s[i],
        ) by {
            if i < s.len() - 1 {
                assert(s[i] == s.drop_last()[i]);
            }
        }
    }
}

pub proof fn lemma_first_white_space(s: Seq<char>)
    ensures
        match first_white_space(s) {
            Some(k) => k < s.len() && is_white_space(s[k as int]) && forall|i: int|
                0 <= i < k ==> !is_white_space(#[trigger] s[i]),
            None => forall|i: int| 0 <= i < s.len() ==> !is_white_space(#[trigger] s[i]),
        },
        word_length(s) <= s.len(),
        forall|i: int| 0 <= i < word_length(s) ==> !is_white_space(#[trigger] s[i]),
    decreases s.len(),
{
    if s.len() > 0 && !is_white_space(s[0]) {
        lemma_first_white_space(s.drop_first());
        assert forall|i: int| 0 < i < s.len() implies s[i] == s.drop_first()[i - 1] by {}
    }
}

/// The text is all white space exactly when nothing is left after trimming it.
pub proof fn lemma_trim_empty(s: Seq<char>)
    ensures
        trim_chars(s).len() == 0 <==> forall|i: int| 0 <= i < s.len() ==> is_white_space(
            #[trigger] s[i],
        ),
{
    lemma_leading_white_space(s);
    let t = trim_start_chars(s);
    lemma_trailing_white_space(t);
    if trim_chars(s).len() == 0 {
        assert forall|i: int| 0 <= i < s.len() implies is_white_space(#[trigger] s[i]) by {
            let l = leading_white_space(s) as int;
            if i >= l {
                assert(s[i] == t[i - l]);
            }
        }
    } else {
        let l = leading_white_space(s) as int;
        assert(s[l] == t[0]);
    }
}

/// Trimming keeps a piece of the text, so it never adds bytes.
pub proof fn lemma_trim_is_infix(s: Seq<char>)
    ensures
        utf8_len(trim_start_chars(s)) <= utf8_len(s),
        utf8_len(trim_chars(s)) <= utf8_len(trim_start_chars(s)),
        utf8_len(trim_chars(s)) <= utf8_len(s),
{
    lemma_leading_white_space(s);
    let t = trim_start_chars(s);
    lemma_trailing_white_space(t);
    lemma_utf8_len_split(s, leading_white_space(s) as int);
    lemma_utf8_len_split(t, t.len() - trailing_white_space(t));
}

pub proof fn lemma_encode_utf8_concat(a: Seq<char>, b: Seq<char>)
    ensures
        encode_utf8(a + b) =~= encode_utf8(a) + encode_utf8(b),
    decreases a.len(),
{
    if a.len() == 0 {
        assert(a + b =~= b);
    } else {
        assert((a + b).drop_first() =~= a.drop_first() + b);
        assert((a + b)[0] == a[0]);
        lemma_encode_utf8_concat(a.drop_first(), b);
    }
}

/// The byte length of a text is the sum of the byte lengths of its parts.
pub proof fn lemma_utf8_len_concat(a: Seq<char>, b: Seq<char>)
    ensures
        utf8_len(a + b) == utf8_len(a) + utf8_len(b),
{
    lemma_encode_utf8_concat(a, b);
}

/// A text takes at least as many bytes as it has characters, so only the empty text takes none.
pub proof fn lemma_utf8_len_bounds(s: Seq<char>)
    ensures
        s.len() <= utf8_len(s),
        utf8_len(s) == 0 <==> s.len() == 0,
    decreases s.len(),
{
    if s.len() > 0 {
        lemma_utf8_len_bounds(s.drop_first());
    }
}

/// Splitting a text in two at position `k` splits its byte length likewise.
pub proof fn lemma_utf8_len_split(s: Seq<char>, k: int)
    requires
        0 <= k <= s.len(),
    ensures
        utf8_len(s) == utf8_len(s.take(k)) + utf8_len(s.skip(k)),
{
    assert(s =~= s.take(k) + s.skip(k));
    lemma_utf8_len_concat(s.take(k), s.skip(k));
}

/// Two texts with the same encoding are the same text.
pub proof fn lemma_encode_utf8_injective(a: Seq<char>, b: Seq<char>)
    requires
        encode_utf8(a) == encode_utf8(b),
    ensures
        a == b,
{
    encode_utf8_decode_utf8(a);
    encode_utf8_decode_utf8(b);
}

/// The end of the encoding of a prefix is a character boundary of the whole encoding.
pub proof fn lemma_prefix_is_char_boundary(a: Seq<char>, b: Seq<char>)
    ensures
        valid_utf8(encode_utf8(a + b)),
        is_char_boundary(encode_utf8(a + b), utf8_len(a)),
    decreases a.len(),
{
    encode_utf8_valid_utf8(a + b);
    lemma_encode_utf8_concat(a, b);
    if a.len() > 0 {
        let s = a + b;
        let bytes = encode_utf8(s);
        encode_utf8_first_scalar(s);
        assert(pop_first_scalar(bytes) =~= encode_utf8(s.drop_first()));
        assert(s.drop_first() =~= a.drop_first() + b);
        assert(s[0] == a[0]);
        lemma_prefix_is_char_boundary(a.drop_first(), b);
        lemma_utf8_len_bounds(a);
        assert(utf8_len(a) == encode_scalar(a[0] as u32).len() + utf8_len(a.drop_first()));
    }
}

/// Splits `s` after its first `k` characters, whose encoding takes `idx` bytes.
pub fn split_at_chars<'a>(s: &'a str, idx: usize, Ghost(k): Ghost<int>) -> (r: (&'a str, &'a str))
    requires
        0 <= k <= s@.len(),
        idx == utf8_len(s@.take(k)),
    ensures
        r.0@ == s@.take(k),
        r.1@ == s@.skip(k),
{
    proof {
        assert(s@ =~= s@.take(k) + s@.skip(k));
        lemma_prefix_is_char_boundary(s@.take(k), s@.skip(k));
        lemma_encode_utf8_concat(s@.take(k), s@.skip(k));
    }
    let r = s.split_at(idx);
    proof {
        let bytes = encode_utf8(s@);
        assert(encode_utf8(r.0@) == r.0.spec_bytes());
        assert(r.0.spec_bytes() =~= encode_utf8(s@.take(k)));
        assert(r.1.spec_bytes() =~= encode_utf8(s@.skip(k)));
        lemma_encode_utf8_injective(r.0@, s@.take(k));
        lemma_encode_utf8_injective(r.1@, s@.skip(k));
    }
    r
}

/// The number of bytes of `s`, which a `usize` can always hold.
pub fn byte_len(s: &str) -> (n: usize)
    ensures
        n == utf8_len(s@),
{
    let bytes = s.as_bytes();
    bytes.len()
}

/// Calls `str::trim_start` of std. Trusted: the contract takes from its documentation
/// that the result is the text without the `White_Space` characters at its start.
#[verifier::external_body]
pub fn str_trim_start<'a>(s: &'a str) -> (r: &'a str)
    ensures
        r@ == trim_start_chars(s@),
{
    s.trim_start()
}

/// Calls `str::trim` of std. Trusted: the contract takes from its documentation that
/// the result is the text without the `White_Space` characters at its start and end.
#[verifier::external_body]
pub fn str_trim<'a>(s: &'a str) -> (r: &'a str)
    ensures
        r@ == trim_chars(s@),
{
    s.trim()
}

/// Calls `str::find` of std with `char::is_whitespace` as pattern. Trusted: the contract
/// takes from their documentation that the result is the byte position of the first
/// `White_Space` character, or `None` when the text holds none.
#[verifier::external_body]
pub fn str_find_white_space(s: &str) -> (r: Option<usize>)
    ensures
        match first_white_space(s@) {
            Some(k) => r == Some(utf8_len(s@.take(k as int)) as usize),
            None => r is None,
        },
{
    s.find(char::is_whitespace)
}

/// Whether `c` is an ASCII punctuation character, as `char::is_ascii_punctuation` of
/// std tells it.
pub fn char_is_ascii_punctuation(c: char) -> (r: bool)
    ensures
        r == is_ascii_punctuation_char(c),
{
    let v: u32 = c as u32;
    (0x21 <= v && v <= 0x2F) || (0x3A <= v && v <= 0x40) || (0x5B <= v && v <= 0x60) || (0x7B
        <= v && v <= 0x7E)
}

/// Calls `str::eq_ignore_ascii_case` of std. Trusted: the contract takes from its
/// documentation that it holds exactly when the two texts are equal once their ASCII
/// upper-case letters are put in lower case.
#[verifier::external_body]
pub fn str_eq_ignore_ascii_case(a: &str, b: &str) -> (r: bool)
    ensures
        r == (ascii_lower_chars(a@) == ascii_lower_chars(b@)),
{
    a.eq_ignore_ascii_case(b)
}

} // verus!
