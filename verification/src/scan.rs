//! A cursor over a borrowed slice of copyable items.

use vstd::prelude::*;

verus! {

/// A position in a borrowed slice, advanced one item at a time.
pub struct Scanner<'a, T> {
    pub items: &'a [T],
    pub current: usize,
}

impl<'a, T: Copy> Scanner<'a, T> {
    /// Whether the cursor lies within the slice.
    pub open spec fn wf(&self) -> bool {
        self.current <= self.items@.len()
    }

    /// A scanner at the start of `items`.
    pub fn new(items: &'a [T]) -> (r: Self)
        ensures
            r.items == items,
            r.current == 0,
            r.wf(),
    {
        Scanner { items, current: 0 }
    }

    /// Whether any item remains.
    pub fn has_next(&self) -> (r: bool)
        ensures
            r == (self.current < self.items@.len()),
    {
        self.current < self.items.len()
    }

    /// The current item, without advancing.
    pub fn peek(&self) -> (r: Option<T>)
        requires
            self.wf(),
        ensures
            match r {
                Some(v) => self.current < self.items@.len() && v == self.items@[
                    self.current as int
                ],
                None => self.current == self.items@.len(),
            },
    {
        if self.has_next() {
            Some(self.items[self.current])
        } else {
            None
        }
    }

    /// Advances past the current item, if any remains.
    pub fn next(&mut self)
        requires
            old(self).wf(),
        ensures
            final(self).wf(),
            final(self).items == old(self).items,
            final(self).current == if old(self).current < old(self).items@.len() {
                old(self).current + 1
            } else {
                old(self).current as int
            },
    {
        let n = self.items.len();
        if self.has_next() {
            self.current = self.current + 1;
        }
    }

    /// The current item, advancing past it.
    pub fn pop(&mut self) -> (r: Option<T>)
        requires
            old(self).wf(),
        ensures
            final(self).wf(),
            final(self).items == old(self).items,
            match r {
                Some(v) => old(self).current < old(self).items@.len() && v == old(self).items@[
                    old(self).current as int
                ] && final(self).current == old(self).current + 1,
                None => old(self).current == old(self).items@.len() && final(self).current == old(
                    self,
                ).current,
            },
    {
        let value = self.peek();
        self.next();
        value
    }
}

} // verus!
