use vstd::prelude::*;
use core::marker::PhantomData;
use crate::allocator::Allocator;
use crate::nom_vec::NomVec;
use crate::raw_val_iter::RawValIter;

verus! {

/// An iterator that moves out the elements a vector held when it was
/// drained, from either end, while the vector stays borrowed.
///
/// The vector has already been cut to length zero. The iterator holds the
/// slots and nothing else of the vector: it cannot give the block back, nor
/// change the capacity. As a sequence it is the elements it has yet to
/// yield.
///
/// An iterator that is dropped leaves what it has not yielded in the slots,
/// where the vector no longer reads it: `finish` drops it at once.
pub struct Drain<'a, T, A: Allocator> {
    vec: PhantomData<&'a mut NomVec<T, A>>,
    slots: &'a mut Vec<Option<T>>,
    iter: RawValIter,
}

impl<'a, T, A: Allocator> View for Drain<'a, T, A> {
    type V = Seq<T>;

    closed spec fn view(&self) -> Seq<T> {
        self.iter.run(self.slots@)
    }
}

impl<'a, T, A: Allocator> Drain<'a, T, A> {
    /// The slots of the vector, as the iterator holds them now.
    pub closed spec fn slots(&self) -> Seq<Option<T>> {
        self.slots@
    }

    /// The position of the next element from the front.
    pub closed spec fn front(&self) -> int {
        self.iter.front()
    }

    /// The position just behind the next element from the back.
    pub closed spec fn back(&self) -> int {
        self.iter.back()
    }

    /// Every element yet to be yielded is in the slots: the boundaries lie
    /// within them, and every slot between the boundaries is live.
    pub closed spec fn wf(&self) -> bool {
        self.iter.spans(self.slots@)
    }

    /// The elements yet to be yielded are what the slots between the
    /// boundaries hold.
    pub proof fn lemma_view(&self)
        requires
            self.wf(),
        ensures
            0 <= self.front() <= self.back() <= self.slots().len(),
            self@.len() == self.back() - self.front(),
            forall|i: int|
                self.front() <= i < self.back() ==> #[trigger] self.slots()[i] == Some(
                    self@[i - self.front()],
                ),
    {
    }

    /// An iterator over the elements of `slots` that `iter` spans.
    pub(crate) fn new(slots: &'a mut Vec<Option<T>>, iter: RawValIter) -> (drain: Self)
        requires
            iter.spans(old(slots)@),
        ensures
            drain.wf(),
            drain@ == iter.run(old(slots)@),
            drain.slots() == old(slots)@,
            drain.front() == iter.front(),
            drain.back() == iter.back(),
    {
        Drain { vec: PhantomData, slots, iter }
    }

    /// Yields the first of the elements that are left, and leaves its slot
    /// dead.
    pub fn next(&mut self) -> (value: Option<T>)
        requires
            old(self).wf(),
        ensures
            final(self).wf(),
            final(self).back() == old(self).back(),
            match value {
                Some(v) => {
                    &&& old(self)@.len() > 0
                    &&& v == old(self)@.first()
                    &&& final(self)@ == old(self)@.drop_first()
                    &&& final(self).front() == old(self).front() + 1
                    &&& final(self).slots() == old(self).slots().update(old(self).front(), None)
                },
                None => {
                    &&& old(self)@.len() == 0
                    &&& final(self)@ == old(self)@
                    &&& final(self).front() == old(self).front()
                    &&& final(self).slots() == old(self).slots()
                },
            },
    {
        self.iter.next(self.slots)
    }

    /// Yields the last of the elements that are left, and leaves its slot
    /// dead.
    pub fn next_back(&mut self) -> (value: Option<T>)
        requires
            old(self).wf(),
        ensures
            final(self).wf(),
            final(self).front() == old(self).front(),
            match value {
                Some(v) => {
                    &&& old(self)@.len() > 0
                    &&& v == old(self)@.last()
                    &&& final(self)@ == old(self)@.drop_last()
                    &&& final(self).back() == old(self).back() - 1
                    &&& final(self).slots() == old(self).slots().update(old(self).back() - 1, None)
                },
                None => {
                    &&& old(self)@.len() == 0
                    &&& final(self)@ == old(self)@
                    &&& final(self).back() == old(self).back()
                    &&& final(self).slots() == old(self).slots()
                },
            },
    {
        self.iter.next_back(self.slots)
    }

    /// How many elements are left: the same number as lower and as upper
    /// bound.
    pub fn size_hint(&self) -> (hint: (usize, Option<usize>))
        requires
            self.wf(),
        ensures
            hint.0 == self@.len(),
            hint.1 == Some(hint.0),
    {
        self.iter.size_hint()
    }

    /// Ends the draining: moves out and drops every element that was not
    /// yielded, first to last. Each slot between the boundaries is dead
    /// afterwards, and every other slot is as it was.
    pub fn finish(&mut self)
        requires
            old(self).wf(),
        ensures
            final(self).wf(),
            final(self)@ == Seq::<T>::empty(),
            final(self).front() == old(self).back(),
            final(self).back() == old(self).back(),
            final(self).slots().len() == old(self).slots().len(),
            forall|i: int|
                0 <= i < old(self).slots().len() ==> #[trigger] final(self).slots()[i]
                    == (if old(self).front() <= i < old(self).back() {
                    None
                } else {
                    old(self).slots()[i]
                }),
    {
        loop
            invariant
                self.wf(),
                self.back() == old(self).back(),
                old(self).front() <= self.front() <= self.back(),
                self.slots().len() == old(self).slots().len(),
                forall|i: int|
                    0 <= i < old(self).slots().len() ==> #[trigger] self.slots()[i]
                        == (if old(self).front() <= i < self.front() {
                        None
                    } else {
                        old(self).slots()[i]
                    }),
            ensures
                self@.len() == 0,
                self.front() == self.back(),
            decreases self@.len(),
        {
            match self.iter.next(self.slots) {
                Some(_) => {},
                None => {
                    break ;
                },
            }
        }
        assert(self@ =~= Seq::<T>::empty());
    }
}

} // verus!
