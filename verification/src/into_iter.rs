use vstd::prelude::*;
use vstd::layout::size_of;
use crate::allocator::Allocator;
use crate::raw_val_iter::RawValIter;
use crate::raw_vec::{dead_slots, RawVec};

verus! {

/// An iterator that owns the buffer of the vector it was made from and moves
/// the elements out, from either end.
///
/// As a sequence it is the elements it has yet to yield.
///
/// An iterator that is dropped gives its memory back to the process and
/// drops what it has not yielded, but tells the allocator nothing:
/// `teardown` does.
pub struct IntoIter<T, A: Allocator> {
    buf: RawVec<T, A>,
    iter: RawValIter,
}

impl<T, A: Allocator> View for IntoIter<T, A> {
    type V = Seq<T>;

    closed spec fn view(&self) -> Seq<T> {
        self.iter.run(self.buf.slots())
    }
}

impl<T, A: Allocator> IntoIter<T, A> {
    /// The buffer is sound and every element yet to be yielded is in it.
    pub closed spec fn wf(&self) -> bool {
        &&& self.buf.wf()
        &&& self.iter.spans(self.buf.slots())
    }

    /// The buffer the iterator owns.
    pub closed spec fn buffer(&self) -> RawVec<T, A> {
        self.buf
    }

    /// The position of the next element from the front.
    pub closed spec fn front(&self) -> int {
        self.iter.front()
    }

    /// The position just behind the next element from the back.
    pub closed spec fn back(&self) -> int {
        self.iter.back()
    }

    /// The buffer is sound, and the elements yet to be yielded are what the
    /// slots between the boundaries hold.
    pub proof fn lemma_view(&self)
        requires
            self.wf(),
        ensures
            self.buffer().wf(),
            0 <= self.front() <= self.back() <= self.buffer().slots().len(),
            self@.len() == self.back() - self.front(),
            forall|i: int|
                self.front() <= i < self.back() ==> #[trigger] self.buffer().slots()[i] == Some(
                    self@[i - self.front()],
                ),
    {
    }

    /// Takes over `buf`, whose first `len` slots are live, to yield them.
    pub(crate) fn new(buf: RawVec<T, A>, len: usize) -> (iter: Self)
        requires
            buf.wf(),
            len <= buf.capacity(),
            forall|i: int| 0 <= i < len ==> (#[trigger] buf@[i]) is Some,
        ensures
            iter.wf(),
            iter.buffer() == buf,
            iter.front() == 0,
            iter.back() == len,
            iter@ == Seq::new(len as nat, |i: int| buf@[i]->Some_0),
    {
        let iter = IntoIter { buf, iter: RawValIter::new(len) };
        proof {
            assert forall|i: int| 0 <= i < len implies i < buf.slots().len()
                && (#[trigger] buf.slots()[i]) is Some by {
                assert(buf@[i] is Some);
            }
            if len > 0 {
                assert(buf@[len - 1] is Some);
            }
            assert(iter@ =~= Seq::new(len as nat, |i: int| buf@[i]->Some_0));
        }
        iter
    }

    /// Yields the first of the elements that are left.
    pub fn next(&mut self) -> (value: Option<T>)
        requires
            old(self).wf(),
        ensures
            final(self).wf(),
            final(self).buffer().capacity() == old(self).buffer().capacity(),
            final(self).buffer().held() == old(self).buffer().held(),
            final(self).buffer().allocator() == old(self).buffer().allocator(),
            final(self).back() == old(self).back(),
            match value {
                Some(v) => {
                    &&& old(self)@.len() > 0
                    &&& v == old(self)@.first()
                    &&& final(self)@ == old(self)@.drop_first()
                    &&& final(self).front() == old(self).front() + 1
                    &&& final(self).buffer().slots() == old(self).buffer().slots().update(
                        old(self).front(),
                        None,
                    )
                },
                None => {
                    &&& old(self)@.len() == 0
                    &&& final(self)@ == old(self)@
                    &&& final(self).front() == old(self).front()
                    &&& final(self).buffer().slots() == old(self).buffer().slots()
                },
            },
    {
        self.iter.next(self.buf.lend_slots())
    }

    /// Yields the last of the elements that are left.
    pub fn next_back(&mut self) -> (value: Option<T>)
        requires
            old(self).wf(),
        ensures
            final(self).wf(),
            final(self).buffer().capacity() == old(self).buffer().capacity(),
            final(self).buffer().held() == old(self).buffer().held(),
            final(self).buffer().allocator() == old(self).buffer().allocator(),
            final(self).front() == old(self).front(),
            match value {
                Some(v) => {
                    &&& old(self)@.len() > 0
                    &&& v == old(self)@.last()
                    &&& final(self)@ == old(self)@.drop_last()
                    &&& final(self).back() == old(self).back() - 1
                    &&& final(self).buffer().slots() == old(self).buffer().slots().update(
                        old(self).back() - 1,
                        None,
                    )
                },
                None => {
                    &&& old(self)@.len() == 0
                    &&& final(self)@ == old(self)@
                    &&& final(self).back() == old(self).back()
                    &&& final(self).buffer().slots() == old(self).buffer().slots()
                },
            },
    {
        self.iter.next_back(self.buf.lend_slots())
    }

    /// How many elements are left: the same number as lower and as upper
    /// bound.
    pub fn size_hint(&self) -> (hint: (usize, Option<usize>))
        requires
            self.wf(),
        ensures
            hint.0 == self@.len(),
            hint.1 == Some(hint.0),
    {
        self.iter.size_hint()
    }

    /// Ends the iteration: drops the elements that were not yielded, first
    /// to last, then gives the block back as `RawVec::release` does: the
    /// allocator is told once if a block is held, and nothing otherwise.
    /// Every slot of the buffer is then dead. Doing so again changes
    /// nothing.
    pub fn teardown(&mut self)
        requires
            old(self).wf(),
        ensures
            final(self).wf(),
            final(self)@ == Seq::<T>::empty(),
            final(self).buffer().capacity() == (if size_of::<T>() == 0 { usize::MAX } else { 0 }),
            final(self).buffer()@ == dead_slots::<T>(final(self).buffer().capacity() as nat),
            final(self).buffer().held() is None,
            final(self).buffer().allocator().requests() == old(self).buffer().released(
                old(self).buffer().allocator().requests(),
            ),
            old(self).buffer().held() is None ==> final(self).buffer().allocator()
                == old(self).buffer().allocator(),
    {
        loop
            invariant
                self.wf(),
                self.buffer().allocator() == old(self).buffer().allocator(),
                self.buffer().held() == old(self).buffer().held(),
            decreases self@.len(),
        {
            match self.iter.next(self.buf.lend_slots()) {
                Some(_) => {},
                None => {
                    break ;
                },
            }
        }
        self.buf.release();
        self.iter = RawValIter::new(0);
        assert(self@ =~= Seq::<T>::empty());
    }
}

} // verus!
