use vstd::prelude::*;

verus! {

/// A span of the analysed text, in bytes from its start.
#[derive(Debug, Clone, Copy, PartialEq, Eq, Structural)]
pub struct Range {
    pub start: usize,
    pub end: usize,
}

impl Range {
    pub fn new(start: usize, end: usize) -> (r: Range)
        ensures
            r == (Range { start, end }),
    {
        Range { start, end }
    }
}

/// A value together with the span of text it was read from.
#[derive(Debug, Clone, Copy)]
pub struct Ranged<T> {
    pub range: Range,
    pub t: T,
}

impl<T> Ranged<T> {
    pub fn new(range: Range, t: T) -> (r: Ranged<T>)
        ensures
            r == (Ranged { range, t }),
    {
        Ranged { range, t }
    }

    /// The span of text the value was read from.
    pub fn range(&self) -> (r: Range)
        ensures
            r == self.range,
    {
        self.range
    }
}

impl<T> AsRef<T> for Ranged<T> {
    fn as_ref(&self) -> (r: &T)
        ensures
            *r == self.t,
    {
        &self.t
    }
}

impl<T> core::ops::Deref for Ranged<T> {
    type Target = T;

    fn deref(&self) -> (r: &T)
        ensures
            *r == self.t,
    {
        &self.t
    }
}

} // verus!
