use vstd::prelude::*;
use vstd::utf8::encode_utf8;

use super::error::{ParseError, ParseErrorKind, ParseResult};
use crate::text::{
    byte_len, first_white_space, is_white_space, lemma_first_white_space, lemma_leading_white_space,
    lemma_first_word, lemma_trim_empty, lemma_utf8_len_bounds, lemma_utf8_len_concat, lemma_utf8_len_split,
    leading_white_space, split_at_chars, str_find_white_space, str_trim, str_trim_start, trim_chars,
    trim_start_chars, utf8_len, word_count, word_length,
};

verus! {

/// A span of the input text, in bytes from its start.
#[derive(Debug, Clone, Copy, PartialEq, Eq, Structural)]
pub struct Range {
    pub start: usize,
    pub end: usize,
}

impl Range {
    pub fn new(start: usize, end: usize) -> (r: Range)
        ensures
            r == (Range { start, end }),
    {
        Range { start, end }
    }

    /// A failure of kind `error` on this span.
    pub fn to_error<T>(self, error: ParseErrorKind) -> (r: ParseResult<T>)
        ensures
            r == Err::<T, ParseError>(ParseError { kind: error, range: self }),
    {
        Err(ParseError { kind: error, range: self })
    }
}

/// What is left of the input text, and the byte offset at which it was reached.
pub struct InputView {
    pub offset: int,
    pub data: Seq<char>,
}

impl InputView {
    /// The input without its leading white space.
    pub open spec fn trim_start(self) -> InputView {
        let k = leading_white_space(self.data) as int;
        InputView { offset: self.offset + utf8_len(self.data.take(k)), data: self.data.skip(k) }
    }

    /// The input without its leading and trailing white space, where the offset moves on
    /// by every byte removed.
    pub open spec fn trim(self) -> InputView {
        InputView {
            offset: self.offset + utf8_len(self.data) - utf8_len(trim_chars(self.data)),
            data: trim_chars(self.data),
        }
    }

    /// Whether anything but white space is left.
    pub open spec fn has_next(self) -> bool {
        trim_chars(self.data).len() > 0
    }

    /// The next word: after the leading white space, everything up to the next white space.
    pub open spec fn next_word(self) -> Seq<char> {
        let t = self.trim_start();
        t.data.take(word_length(t.data) as int)
    }

    /// The span of the next word.
    pub open spec fn next_word_range(self) -> Range {
        let t = self.trim_start();
        Range { start: t.offset as usize, end: (t.offset + utf8_len(self.next_word())) as usize }
    }

    /// The input once the next word is consumed.
    pub open spec fn consume(self) -> InputView {
        let t = self.trim_start();
        let k = word_length(t.data) as int;
        InputView { offset: t.offset + utf8_len(t.data.take(k)), data: t.data.skip(k) }
    }

    /// What is left is `original` from character `k` on, and the offset is the number of
    /// bytes of `original` before character `k`.
    pub open spec fn starts_at(self, original: Seq<char>, k: int) -> bool {
        &&& 0 <= k <= original.len()
        &&& self.data == original.skip(k)
        &&& self.offset == utf8_len(original.take(k))
    }

    /// What is left is the rest of `original` from the offset on.
    pub open spec fn aligned_in(self, original: Seq<char>) -> bool {
        exists|k: int| #[trigger] self.starts_at(original, k)
    }

    /// `later` is this input with a prefix consumed, and its offset has moved on by the
    /// bytes of that prefix.
    pub open spec fn advances_to(self, later: InputView) -> bool {
        let k = self.data.len() - later.data.len();
        &&& 0 <= k
        &&& later.data == self.data.skip(k)
        &&& later.offset == self.offset + utf8_len(self.data.take(k))
    }
}

/// Consuming a prefix is a preorder, and it moves the offset only when something
/// was consumed.
pub proof fn lemma_advances_to(a: InputView, b: InputView, c: InputView)
    ensures
        a.advances_to(a),
        a.advances_to(b) && b.advances_to(c) ==> a.advances_to(c),
        a.advances_to(b) ==> (b.offset == a.offset <==> b.data.len() == a.data.len()),
        a.advances_to(b) ==> a.offset <= b.offset,
        a.advances_to(b) ==> b.offset + utf8_len(b.data) == a.offset + utf8_len(a.data),
{
    assert(a.data.skip(0) =~= a.data);
    assert(a.data.take(0) =~= Seq::<char>::empty());
    if a.advances_to(b) {
        let k = a.data.len() - b.data.len();
        lemma_utf8_len_bounds(a.data.take(k));
        lemma_utf8_len_split(a.data, k);
        if b.advances_to(c) {
            let k2 = b.data.len() - c.data.len();
            assert(a.data.skip(k).skip(k2) =~= a.data.skip(k + k2));
            assert(a.data.take(k + k2) =~= a.data.take(k) + b.data.take(k2));
            lemma_utf8_len_concat(a.data.take(k), b.data.take(k2));
        }
    }
}

/// Consuming a prefix of an input that is the rest of `original` leaves the rest of
/// `original` from a later character on.
pub proof fn lemma_aligned_advance(original: Seq<char>, before: InputView, after: InputView)
    requires
        before.aligned_in(original),
        before.advances_to(after),
    ensures
        after.aligned_in(original),
{
    let k = choose|k: int| #[trigger] before.starts_at(original, k);
    let d = before.data.len() - after.data.len();
    assert(after.data =~= original.skip(k + d));
    assert(before.data.take(d) =~= original.subrange(k, k + d));
    assert(original.take(k + d) =~= original.take(k) + original.subrange(k, k + d));
    lemma_utf8_len_concat(original.take(k), original.subrange(k, k + d));
    assert(after.starts_at(original, k + d));
}

/// An input that is the rest of `original` holds its bytes from the offset to the end,
/// and the offset is a character boundary of them.
pub proof fn lemma_aligned_rest(original: Seq<char>, v: InputView)
    requires
        v.aligned_in(original),
    ensures
        0 <= v.offset,
        v.offset + utf8_len(v.data) == utf8_len(original),
        vstd::utf8::is_char_boundary(encode_utf8(original), v.offset),
        encode_utf8(original).subrange(v.offset, utf8_len(original)) == encode_utf8(v.data),
        v.data == original.skip(original.len() - v.data.len()),
{
    let k = choose|k: int| #[trigger] v.starts_at(original, k);
    assert(original =~= original.take(k) + original.skip(k));
    crate::text::lemma_encode_utf8_concat(original.take(k), original.skip(k));
    crate::text::lemma_prefix_is_char_boundary(original.take(k), original.skip(k));
    crate::text::lemma_utf8_len_bounds(original.take(k));
    assert(encode_utf8(original).subrange(v.offset, utf8_len(original)) =~= encode_utf8(v.data));
}

/// Skipping white space keeps the number of words left; consuming the next word removes
/// one when there is one, and leaves none otherwise.
pub proof fn lemma_word_count_steps(v: InputView)
    ensures
        word_count(v.trim_start().data) == word_count(v.data),
        v.has_next() <==> word_count(v.data) > 0,
        v.has_next() ==> word_count(v.consume().data) + 1 == word_count(v.data),
        !v.has_next() ==> word_count(v.consume().data) == 0,
{
    let t = trim_start_chars(v.data);
    lemma_first_word(v.data);
    lemma_trim_empty(v.data);
    lemma_leading_white_space(v.data);
    if t.len() == 0 {
        assert(forall|i: int| 0 <= i < v.data.len() ==> is_white_space(#[trigger] v.data[i]));
        assert(v.consume().data =~= Seq::<char>::empty());
        assert(trim_start_chars(Seq::<char>::empty()) =~= Seq::<char>::empty());
    } else {
        let k = leading_white_space(v.data) as int;
        assert(t[0] == v.data[k]);
        assert(!is_white_space(v.data[k]));
    }
}

/// Trimming and consuming a word consume a prefix of the input.
pub proof fn lemma_steps_advance(v: InputView)
    ensures
        v.advances_to(v.trim_start()),
        v.trim_start().advances_to(v.consume()),
        v.advances_to(v.consume()),
        v.consume().offset == v.trim_start().offset + utf8_len(v.next_word()),
        v.has_next() ==> v.next_word().len() > 0 && v.consume().offset > v.offset,
{
    let k = leading_white_space(v.data) as int;
    lemma_leading_white_space(v.data);
    let t = v.trim_start();
    assert(v.data.skip(k).len() == v.data.len() - k);
    lemma_first_white_space(t.data);
    let j = word_length(t.data) as int;
    assert(t.data.skip(j).len() == t.data.len() - j);
    lemma_advances_to(v, t, v.consume());
    if v.has_next() {
        lemma_trim_empty(v.data);
        let i = choose|i: int| 0 <= i < v.data.len() && !is_white_space(#[trigger] v.data[i]);
        assert(k < v.data.len());
        assert(t.data[0] == v.data[k]);
        assert(first_white_space(t.data) != Some(0nat));
        lemma_utf8_len_bounds(v.next_word());
        lemma_utf8_len_bounds(v.data.take(k));
    }
}

/// The input to a parser: what is left of the text, and the byte offset in the
/// original text at which it starts.
#[derive(Debug, Clone, Copy, PartialEq)]
pub struct Input<'i> {
    offset: usize,
    original_str: &'i str,
    data: &'i str,
}

impl<'i> View for Input<'i> {
    type V = InputView;

    closed spec fn view(&self) -> InputView {
        InputView { offset: self.offset as int, data: self.data@ }
    }
}

impl<'i> Input<'i> {
    /// The whole text this input was made from.
    pub closed spec fn original(&self) -> Seq<char> {
        self.original_str@
    }

    /// The offset and what is left fit within the original text.
    pub open spec fn wf(&self) -> bool {
        &&& 0 <= self@.offset
        &&& self@.offset + utf8_len(self@.data) <= utf8_len(self.original())
        &&& utf8_len(self.original()) <= usize::MAX
    }

    /// What is left is the original text from some character on, and the offset is the
    /// number of bytes before that character.
    pub open spec fn aligned(&self) -> bool {
        self@.aligned_in(self.original())
    }

    /// An input over `data`, with its leading white space skipped.
    pub fn new(data: &'i str) -> (r: Input<'i>)
        ensures
            r.wf(),
            r.aligned(),
            r.original() == data@,
            r@ == (InputView { offset: 0, data: data@ }).trim_start(),
    {
        // the byte length of a `str` fits in a `usize`
        let _bytes = byte_len(data);
        let mut this = Input { offset: 0, original_str: data, data };
        proof {
            assert(data@.skip(0) =~= data@);
            assert(data@.take(0) =~= Seq::<char>::empty());
            assert(this@.starts_at(data@, 0));
        }
        this.trim_start();
        this
    }

    /// The whole text this input was made from.
    pub fn original_str(&self) -> (r: &'i str)
        ensures
            r@ == self.original(),
    {
        self.original_str
    }

    /// Skips white space, then consumes the next word and returns it with its span.
    pub fn consume_until_space(&mut self) -> (r: (&'i str, Range))
        requires
            old(self).wf(),
        ensures
            final(self).wf(),
            final(self).original() == old(self).original(),
            final(self)@ == old(self)@.consume(),
            r.0@ == old(self)@.next_word(),
            r.1 == old(self)@.next_word_range(),
            old(self).aligned() ==> final(self).aligned(),
            old(self).aligned() ==> encode_utf8(old(self).original()).subrange(
                r.1.start as int,
                r.1.end as int,
            ) == encode_utf8(r.0@),
    {
        proof {
            lemma_steps_advance(old(self)@);
        }
        self.trim_start();
        let ghost t = self@;
        let ghost k = word_length(t.data) as int;
        proof {
            lemma_first_white_space(t.data);
            lemma_utf8_len_split(t.data, k);
        }
        let r = self.with_offset_tracking(Self::split_off_word);
        proof {
            lemma_steps_advance(old(self)@);
            if old(self).aligned() {
                lemma_aligned_advance(self.original(), t, self@);
                lemma_aligned_rest(self.original(), t);
                let word = t.data.take(k);
                let rest = t.data.skip(k);
                assert(t.data =~= word + rest);
                crate::text::lemma_encode_utf8_concat(word, rest);
                let whole = encode_utf8(self.original());
                assert(whole.subrange(t.offset, t.offset + utf8_len(word)) =~= whole.subrange(
                    t.offset,
                    t.offset + utf8_len(t.data),
                ).subrange(0, utf8_len(word)));
            }
        }
        r
    }

    /// Whether anything but white space is left.
    pub fn has_next(&self) -> (r: bool)
        ensures
            r == self@.has_next(),
    {
        !str_trim(self.data).is_empty()
    }

    /// The byte offset in the original text at which the rest of the input starts.
    pub fn offset(&self) -> (r: usize)
        ensures
            r == self@.offset,
    {
        self.offset
    }

    /// Skips leading white space.
    pub fn trim_start(&mut self)
        requires
            old(self).wf(),
        ensures
            final(self).wf(),
            final(self).original() == old(self).original(),
            final(self)@ == old(self)@.trim_start(),
            old(self).aligned() ==> final(self).aligned(),
    {
        let ghost before = self@;
        let ghost k = leading_white_space(before.data) as int;
        proof {
            lemma_leading_white_space(before.data);
            lemma_utf8_len_split(before.data, k);
            lemma_steps_advance(before);
        }
        self.with_offset_tracking(Self::drop_leading_white_space);
        proof {
            if old(self).aligned() {
                lemma_aligned_advance(self.original(), before, self@);
            }
        }
    }

    /// Removes leading and trailing white space; the offset moves on by every byte
    /// removed, at either end.
    pub fn trim(&mut self)
        requires
            old(self).wf(),
        ensures
            final(self).wf(),
            final(self).original() == old(self).original(),
            final(self)@ == old(self)@.trim(),
    {
        let ghost before = self@;
        proof {
            crate::text::lemma_trim_is_infix(before.data);
        }
        self.with_offset_tracking(Self::drop_outer_white_space);
    }

    /// Runs `f` on this input, and moves the offset on by the bytes that `f` removed
    /// from the rest of the input. Returns what `f` returned, with the span from the
    /// offset before to the offset after.
    pub fn with_offset_tracking<Ret, F: FnOnce(&mut Self) -> Ret>(&mut self, f: F) -> (r: (
        Ret,
        Range,
    ))
        requires
            old(self).wf(),
            forall|x: &mut Self| *x == *old(self) ==> call_requires(f, (x,)),
            forall|x: &mut Self, ret: Ret|
                *x == *old(self) && call_ensures(f, (x,), ret) ==> {
                    &&& utf8_len(final(x)@.data) <= utf8_len(old(self)@.data)
                    &&& final(x)@.offset + utf8_len(old(self)@.data) - utf8_len(final(x)@.data)
                        <= usize::MAX
                },
        ensures
            exists|x: &mut Self|
                #![trigger call_ensures(f, (x,), r.0)]
                *x == *old(self) && call_ensures(f, (x,), r.0) && {
                    &&& final(self)@ == (InputView {
                        offset: final(x)@.offset + utf8_len(old(self)@.data) - utf8_len(
                            final(x)@.data,
                        ),
                        data: final(x)@.data,
                    })
                    &&& final(self).original() == final(x).original()
                },
            r.1 == (Range { start: old(self)@.offset as usize, end: final(self)@.offset as usize }),
    {
        let orig_offset = self.offset;
        let len = byte_len(self.data);
        let ret = f(self);
        let new_len = byte_len(self.data);
        self.offset = self.offset + (len - new_len);
        let result = (ret, Range::new(orig_offset, self.offset));
        assert(result.0 == ret);
        result
    }

    /// Runs `f` on this input, and puts the input back as it was when `f` fails.
    pub fn attempt<Ret, F>(&mut self, f: F) -> (r: ParseResult<Ret>) where
        F: FnOnce(&mut Self) -> ParseResult<Ret>,

        requires
            forall|x: &mut Self| *x == *old(self) ==> call_requires(f, (x,)),
        ensures
            exists|x: &mut Self|
                *x == *old(self) && call_ensures(f, (x,), r) && (if r is Ok {
                    *final(self) == *final(x)
                } else {
                    *final(self) == *old(self)
                }),
    {
        let restore = *self;
        let ret = f(self);
        if ret.is_err() {
            *self = restore;
        }
        ret
    }

    /// Removes the leading white space from what is left, leaving the offset alone.
    fn drop_leading_white_space(t: &mut Input<'i>)
        ensures
            final(t).offset == old(t).offset,
            final(t).original_str == old(t).original_str,
            final(t).data@ == trim_start_chars(old(t).data@),
    {
        t.data = str_trim_start(t.data);
    }

    /// Removes the leading and trailing white space from what is left, leaving the
    /// offset alone.
    fn drop_outer_white_space(t: &mut Input<'i>)
        ensures
            final(t).offset == old(t).offset,
            final(t).original_str == old(t).original_str,
            final(t).data@ == trim_chars(old(t).data@),
    {
        t.data = str_trim(t.data);
    }

    /// Splits off and returns the word at the start of what is left, leaving the offset
    /// alone.
    fn split_off_word(this: &mut Input<'i>) -> (ret: &'i str)
        ensures
            final(this).offset == old(this).offset,
            final(this).original_str == old(this).original_str,
            ret@ == old(this).data@.take(word_length(old(this).data@) as int),
            final(this).data@ == old(this).data@.skip(word_length(old(this).data@) as int),
    {
        let ghost k = word_length(this.data@) as int;
        let n = byte_len(this.data);
        proof {
            lemma_first_white_space(this.data@);
            lemma_utf8_len_split(this.data@, k);
        }
        match str_find_white_space(this.data) {
            Some(idx) => {
                let (ret, rest) = split_at_chars(this.data, idx, Ghost(k));
                this.data = rest;
                ret
            },
            None => {
                proof {
                    assert(this.data@.take(k) =~= this.data@);
                }
                let (ret, rest) = split_at_chars(this.data, n, Ghost(k));
                this.data = rest;
                ret
            },
        }
    }

}

} // verus!
