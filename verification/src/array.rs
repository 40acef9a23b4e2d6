//! The handle by which a sequence of children crosses the boundary.

use vstd::prelude::*;

verus! {

/// Sole owner of one contiguous buffer of `T`.
///
/// A handle is obtained from an owned sequence by [`Array::from_vec`], which
/// consumes the sequence, and gives the sequence back through
/// [`Array::into_vec`], which consumes the handle. No other way in or out
/// exists, so a buffer always has exactly one owner. The handle itself
/// never allocates, frees or moves the buffer.
#[derive(Debug, PartialEq, Eq)]
pub struct Array<T> {
    buffer: Vec<T>,
}

impl<T> View for Array<T> {
    type V = Seq<T>;

    closed spec fn view(&self) -> Seq<T> {
        self.buffer@
    }
}

impl<T> Array<T> {
    /// Takes over the buffer of `items`.
    pub fn from_vec(items: Vec<T>) -> (array: Array<T>)
        ensures
            array@ == items@,
    {
        Array { buffer: items }
    }

    /// Gives the buffer back as an owned sequence.
    pub fn into_vec(self) -> (items: Vec<T>)
        ensures
            items@ == self@,
    {
        self.buffer
    }

    /// The number of elements.
    pub fn length(&self) -> (n: usize)
        ensures
            n == self@.len(),
    {
        self.buffer.len()
    }

    /// Every element is structurally smaller than the handle that owns it.
    pub proof fn lemma_elements_decrease(self)
        ensures
            forall|i: int| 0 <= i < self@.len() ==> decreases_to!(self => #[trigger] self@[i]),
    {
        assert forall|i: int| 0 <= i < self@.len() implies decreases_to!(self => #[trigger] self@[i]) by {
            assert(decreases_to!(self => self.buffer));
            assert(decreases_to!(self.buffer => self.buffer@));
            assert(decreases_to!(self.buffer@ => self.buffer@[i]));
        }
    }
}

} // verus!
