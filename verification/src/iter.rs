use vstd::prelude::*;
use crate::raw_val_iter::RawValIter;

verus! {

/// An iterator that looks at the elements of a vector, from either end.
///
/// As a sequence it is the elements it has yet to show.
pub struct Iter<'a, T> {
    slots: &'a Vec<Option<T>>,
    iter: RawValIter,
}

impl<'a, T> View for Iter<'a, T> {
    type V = Seq<T>;

    closed spec fn view(&self) -> Seq<T> {
        self.iter.run(self.slots@)
    }
}

impl<'a, T> Iter<'a, T> {
    /// Every element yet to be shown is in the slots.
    pub closed spec fn wf(&self) -> bool {
        self.iter.spans(self.slots@)
    }

    /// An iterator over the elements of `slots` that `iter` spans.
    pub(crate) fn new(slots: &'a Vec<Option<T>>, iter: RawValIter) -> (shown: Self)
        requires
            iter.spans(slots@),
        ensures
            shown.wf(),
            shown@ == iter.run(slots@),
    {
        Iter { slots, iter }
    }

    /// Shows the first of the elements that are left.
    pub fn next(&mut self) -> (value: Option<&'a T>)
        requires
            old(self).wf(),
        ensures
            final(self).wf(),
            match value {
                Some(v) => {
                    &&& old(self)@.len() > 0
                    &&& *v == old(self)@.first()
                    &&& final(self)@ == old(self)@.drop_first()
                },
                None => old(self)@.len() == 0 && final(self)@ == old(self)@,
            },
    {
        self.iter.next_ref(self.slots)
    }

    /// Shows the last of the elements that are left.
    pub fn next_back(&mut self) -> (value: Option<&'a T>)
        requires
            old(self).wf(),
        ensures
            final(self).wf(),
            match value {
                Some(v) => {
                    &&& old(self)@.len() > 0
                    &&& *v == old(self)@.last()
                    &&& final(self)@ == old(self)@.drop_last()
                },
                None => old(self)@.len() == 0 && final(self)@ == old(self)@,
            },
    {
        self.iter.next_back_ref(self.slots)
    }

    /// How many elements are left: the same number as lower and as upper
    /// bound.
    pub fn size_hint(&self) -> (hint: (usize, Option<usize>))
        requires
            self.wf(),
        ensures
            hint.0 == self@.len(),
            hint.1 == Some(hint.0),
    {
        self.iter.size_hint()
    }
}

} // verus!
