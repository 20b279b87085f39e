use vstd::prelude::*;
use vstd::layout::size_of;
use crate::allocator::{Allocator, Global};
use crate::drain::Drain;
use crate::error::AllocationError;
use crate::into_iter::IntoIter;
use crate::iter::Iter;
use crate::raw_val_iter::RawValIter;
use crate::raw_vec::{
    dead_slots, growth_may_fail_with, grown_capacity, lemma_growth_policy, max_capacity, RawVec,
};

verus! {

/// Stops a caller that hands in an index out of bounds. Verus shows that no
/// caller it has checked ever does; one it has not checked is stopped here,
/// before anything is read or written.
fn in_bounds(holds: bool)
    requires
        holds,
{
    let witness: Option<()> = if holds {
        Some(())
    } else {
        None
    };
    witness.expect("index out of bounds")
}

/// A growable sequence: a buffer and the number of its slots, counted from
/// the first, that hold the elements.
///
/// As a sequence it is the elements in those slots. Slots at or beyond the
/// length are never read; what one of them may still hold is dropped when
/// the slot is written again or the buffer is released.
///
/// A vector that is dropped gives its memory back to the process and drops
/// its elements, but tells the allocator nothing: `teardown` does.
pub struct NomVec<T, A: Allocator = Global> {
    buf: RawVec<T, A>,
    len: usize,
}

impl<T, A: Allocator> View for NomVec<T, A> {
    type V = Seq<T>;

    open spec fn view(&self) -> Seq<T> {
        Seq::new(self.live() as nat, |i: int| self.buffer()@[i]->Some_0)
    }
}

impl<T, A: Allocator> NomVec<T, A> {
    /// The buffer the vector keeps its elements in.
    pub closed spec fn buffer(&self) -> RawVec<T, A> {
        self.buf
    }

    /// The number of slots, counted from the first, that hold the elements.
    pub closed spec fn live(&self) -> usize {
        self.len
    }

    /// The allocator the vector asks, as it is now.
    pub open spec fn allocator(&self) -> A {
        self.buffer().allocator()
    }

    /// Whether `after` is the allocator once room for one more element was
    /// made, or could not be made, with the answer `done`: as it was while
    /// there is a free slot, and what `RawVec::grow_asked` says of growing by
    /// one otherwise.
    pub open spec fn room_asked(&self, done: Result<(), AllocationError>, after: A) -> bool {
        if self@.len() < self.spec_cap() {
            after == self.allocator()
        } else {
            self.buffer().grow_asked(self@.len() + 1, done, after)
        }
    }

    pub open spec fn spec_len(&self) -> usize {
        self@.len() as usize
    }

    pub open spec fn spec_cap(&self) -> usize {
        self.buffer().capacity()
    }

    pub open spec fn spec_is_empty(&self) -> bool {
        self@.len() == 0
    }

    /// The buffer is sound, the length is within the capacity, and every
    /// slot below the length is live.
    pub open spec fn wf(&self) -> bool {
        &&& self.buffer().wf()
        &&& self.live() <= self.buffer().capacity()
        &&& forall|i: int| 0 <= i < self.live() ==> (#[trigger] self.buffer()@[i]) is Some
    }

    /// The capacity the vector has after room for one more element was made:
    /// the one it has while there is a free slot, the grown one otherwise.
    pub open spec fn cap_with_room(&self) -> nat {
        if self@.len() < self.spec_cap() {
            self.spec_cap() as nat
        } else {
            grown_capacity(self.spec_cap() as nat, self@.len() + 1, size_of::<T>())
        }
    }

    /// Whether `e` is what making room for one more element may fail with:
    /// there is no free slot, and growing by one may end in `e`.
    pub open spec fn room_may_fail_with(&self, e: AllocationError) -> bool {
        &&& self@.len() == self.spec_cap()
        &&& growth_may_fail_with(self.spec_cap() as nat, self@.len() + 1, size_of::<T>(), e)
    }

    /// The length is within the capacity. Elements without storage have all
    /// the capacity there is, so that a vector of them has room until its
    /// length is `usize::MAX`; the others have no more than `max_capacity`.
    pub proof fn lemma_capacity(&self)
        requires
            self.wf(),
        ensures
            self@.len() <= self.cap(),
            size_of::<T>() == 0 ==> self.cap() == usize::MAX,
            size_of::<T>() > 0 ==> self.cap() <= max_capacity(size_of::<T>()),
    {
        self.buffer().lemma_capacity();
    }

    /// The live slots are among those that were written.
    proof fn lemma_live_slots(&self)
        requires
            self.wf(),
        ensures
            self.live() <= self.buf.slots().len(),
            forall|i: int|
                0 <= i < self.live() ==> (#[trigger] self.buf.slots()[i]) is Some
                    && self.buf.slots()[i] == self.buf@[i],
    {
        assert forall|i: int| 0 <= i < self.live() implies i < self.buf.slots().len()
            && (#[trigger] self.buf.slots()[i]) is Some
            && self.buf.slots()[i] == self.buf@[i] by {
            assert(self.buffer()@[i] is Some);
        }
        if self.live() > 0 {
            assert(self.buffer()@[self.live() - 1] is Some);
        }
    }

    /// An empty vector that asks `alloc` for its memory. Nothing is asked
    /// for yet.
    pub fn new(alloc: A) -> (vec: Self)
        ensures
            vec.wf(),
            vec.allocator() == alloc,
            vec.buffer().held() is None,
            vec@ == Seq::<T>::empty(),
            vec.cap() == (if size_of::<T>() == 0 { usize::MAX } else { 0 }),
    {
        let vec = NomVec { buf: RawVec::new(alloc), len: 0 };
        assert(vec@ =~= Seq::<T>::empty());
        vec
    }

    /// The number of elements.
    #[verifier::when_used_as_spec(spec_len)]
    pub fn len(&self) -> (len: usize)
        ensures
            len == self@.len(),
    {
        self.len
    }

    /// Whether there is no element.
    #[verifier::when_used_as_spec(spec_is_empty)]
    pub fn is_empty(&self) -> (empty: bool)
        ensures
            empty <==> self@.len() == 0,
    {
        self.len == 0
    }

    /// The number of elements the vector has room for.
    #[verifier::when_used_as_spec(spec_cap)]
    pub fn cap(&self) -> (cap: usize)
        ensures
            cap == self.spec_cap(),
    {
        self.buf.capacity()
    }

    /// Grows the buffer if every slot is taken.
    fn make_room(&mut self) -> (done: Result<(), AllocationError>)
        requires
            old(self).wf(),
        ensures
            final(self).wf(),
            final(self)@ == old(self)@,
            final(self).live() == old(self).live(),
            old(self).room_asked(done, final(self).allocator()),
            match done {
                Ok(_) => {
                    &&& final(self).cap() == old(self).cap_with_room()
                    &&& final(self).live() < final(self).cap()
                    &&& final(self).buffer()@.subrange(0, old(self).cap() as int)
                        == old(self).buffer()@
                },
                Err(e) => {
                    &&& old(self).room_may_fail_with(e)
                    &&& final(self).cap() == old(self).cap()
                    &&& final(self).buffer()@ == old(self).buffer()@
                },
            },
            old(self)@.len() < old(self).cap() ==> done is Ok,
    {
        if self.len == self.buf.capacity() {
            proof {
                self.buf.lemma_capacity();
            }
            let min: usize = self.len.saturating_add(1);
            match self.buf.grow(min) {
                Ok(_) => {},
                Err(e) => {
                    return Err(e);
                },
            }
            proof {
                lemma_growth_policy(old(self).cap() as nat, min as nat, size_of::<T>());
                assert(self.buffer()@.subrange(0, old(self).cap() as int) =~= old(self).buffer()@);
                assert(self@ =~= old(self)@);
            }
        } else {
            assert(self.buffer()@.subrange(0, old(self).cap() as int) =~= old(self).buffer()@);
        }
        Ok(())
    }

    /// Appends `elem`.
    ///
    /// With a free slot this succeeds. Without one the buffer grows first,
    /// and if it cannot, the vector is as it was and the error says why.
    pub fn push(&mut self, elem: T) -> (done: Result<(), AllocationError>)
        requires
            old(self).wf(),
        ensures
            final(self).wf(),
            old(self).cap() <= final(self).cap(),
            old(self).room_asked(done, final(self).allocator()),
            match done {
                Ok(_) => {
                    &&& final(self)@ == old(self)@.push(elem)
                    &&& final(self).cap() == old(self).cap_with_room()
                },
                Err(e) => {
                    &&& old(self).room_may_fail_with(e)
                    &&& final(self)@ == old(self)@
                    &&& final(self).cap() == old(self).cap()
                },
            },
            old(self)@.len() < old(self).cap() ==> done is Ok,
    {
        match self.make_room() {
            Ok(_) => {},
            Err(e) => {
                return Err(e);
            },
        }
        self.buf.write(self.len, elem);
        self.len = self.len + 1;
        assert(self@ =~= old(self)@.push(elem));
        Ok(())
    }

    /// Removes the last element, if there is one. The capacity stays.
    pub fn pop(&mut self) -> (elem: Option<T>)
        requires
            old(self).wf(),
        ensures
            final(self).wf(),
            final(self).cap() == old(self).cap(),
            final(self).allocator() == old(self).allocator(),
            final(self).buffer().held() == old(self).buffer().held(),
            match elem {
                Some(e) => {
                    &&& old(self)@.len() > 0
                    &&& e == old(self)@.last()
                    &&& final(self)@ == old(self)@.drop_last()
                },
                None => old(self)@.len() == 0 && final(self)@ == old(self)@,
            },
    {
        if self.len == 0 {
            None
        } else {
            self.len = self.len - 1;
            let elem = self.buf.take(self.len);
            assert(self@ =~= old(self)@.drop_last());
            elem
        }
    }

    /// Puts `elem` at `index` and moves what was at or behind `index` one
    /// place back. An `index` equal to the length appends; one beyond the
    /// length is out of bounds.
    ///
    /// Room is made as for `push`; if it cannot be made, the vector is as it
    /// was and the error says why.
    pub fn insert(&mut self, index: usize, elem: T) -> (done: Result<(), AllocationError>)
        requires
            old(self).wf(),
            index <= old(self)@.len(),
        ensures
            final(self).wf(),
            old(self).cap() <= final(self).cap(),
            old(self).room_asked(done, final(self).allocator()),
            match done {
                Ok(_) => {
                    &&& final(self)@ == old(self)@.insert(index as int, elem)
                    &&& final(self).cap() == old(self).cap_with_room()
                },
                Err(e) => {
                    &&& old(self).room_may_fail_with(e)
                    &&& final(self)@ == old(self)@
                    &&& final(self).cap() == old(self).cap()
                },
            },
            old(self)@.len() < old(self).cap() ==> done is Ok,
    {
        in_bounds(index <= self.len);
        match self.make_room() {
            Ok(_) => {},
            Err(e) => {
                return Err(e);
            },
        }
        self.buf.shift(index, index + 1, self.len - index);
        self.buf.write(index, elem);
        self.len = self.len + 1;
        assert(self@ =~= old(self)@.insert(index as int, elem));
        Ok(())
    }

    /// Takes out the element at `index` and moves what was behind it one
    /// place forward. The capacity stays. An `index` at or beyond the length
    /// is out of bounds.
    pub fn remove(&mut self, index: usize) -> (elem: T)
        requires
            old(self).wf(),
            index < old(self)@.len(),
        ensures
            final(self).wf(),
            final(self).cap() == old(self).cap(),
            final(self).allocator() == old(self).allocator(),
            final(self).buffer().held() == old(self).buffer().held(),
            elem == old(self)@[index as int],
            final(self)@ == old(self)@.remove(index as int),
    {
        in_bounds(index < self.len);
        let slot = self.buf.take(index);
        self.buf.shift(index + 1, index, self.len - index - 1);
        self.len = self.len - 1;
        assert(self@ =~= old(self)@.remove(index as int));
        slot.unwrap()
    }

    /// Looks at the element at `index`, if there is one.
    pub fn get(&self, index: usize) -> (elem: Option<&T>)
        requires
            self.wf(),
        ensures
            elem == (if index < self@.len() {
                Some(&self@[index as int])
            } else {
                None
            }),
    {
        if index < self.len {
            self.buf.get(index)
        } else {
            None
        }
    }

    /// Looks at the element at `index`, if there is one, to change it in
    /// place. The vector is then as it was but for that element.
    pub fn get_mut(&mut self, index: usize) -> (elem: Option<&mut T>)
        requires
            old(self).wf(),
        ensures
            final(self).wf(),
            final(self).cap() == old(self).cap(),
            final(self).allocator() == old(self).allocator(),
            final(self).buffer().held() == old(self).buffer().held(),
            if index < old(self)@.len() {
                &&& elem is Some
                &&& *elem->Some_0 == old(self)@[index as int]
                &&& final(self)@ == old(self)@.update(index as int, *final(elem->Some_0))
            } else {
                &&& elem is None
                &&& final(self)@ == old(self)@
            },
    {
        if index < self.len {
            self.buf.get_mut(index)
        } else {
            None
        }
    }

    /// An iterator that looks at the elements, from either end.
    pub fn iter(&self) -> (iter: Iter<'_, T>)
        requires
            self.wf(),
        ensures
            iter.wf(),
            iter@ == self@,
    {
        let cursor = RawValIter::new(self.len);
        proof {
            self.lemma_live_slots();
            assert(cursor.run(self.buf.slots()) =~= self@);
        }
        Iter::new(self.buf.show_slots(), cursor)
    }

    /// An iterator that moves the elements out, from either end, and owns
    /// the buffer from now on.
    pub fn into_iter(self) -> (iter: IntoIter<T, A>)
        requires
            self.wf(),
        ensures
            iter.wf(),
            iter@ == self@,
            iter.buffer() == self.buffer(),
            iter.front() == 0,
            iter.back() == self@.len(),
    {
        let NomVec { buf, len } = self;
        IntoIter::new(buf, len)
    }

    /// Cuts the vector to length zero and hands the elements it held to an
    /// iterator that moves them out, from either end.
    ///
    /// The vector is sound and empty from this call on, whatever becomes of
    /// the iterator, and its capacity is what it was. An element the
    /// iterator has neither yielded nor dropped stays in its slot, out of
    /// reach.
    pub fn drain(&mut self) -> (drain: Drain<'_, T, A>)
        requires
            old(self).wf(),
        ensures
            drain.wf(),
            drain@ == old(self)@,
            drain.slots() == old(self).buffer().slots(),
            drain.front() == 0,
            drain.back() == old(self)@.len(),
            final(self).wf(),
            final(self)@ == Seq::<T>::empty(),
            final(self).cap() == old(self).cap(),
            final(self).allocator() == old(self).allocator(),
            final(self).buffer().held() == old(self).buffer().held(),
    {
        let cursor = RawValIter::new(self.len);
        proof {
            self.lemma_live_slots();
            assert(cursor.run(self.buf.slots()) =~= self@);
        }
        self.len = 0;
        Drain::new(self.buf.lend_slots(), cursor)
    }

    /// Drops every element, last to first, then gives the block back as
    /// `RawVec::release` does: the allocator is told once if a block is
    /// held, and nothing otherwise. The vector is then as `new` makes it,
    /// with every slot dead.
    pub fn teardown(&mut self)
        requires
            old(self).wf(),
        ensures
            final(self).wf(),
            final(self)@ == Seq::<T>::empty(),
            final(self).cap() == (if size_of::<T>() == 0 { usize::MAX } else { 0 }),
            final(self).buffer()@ == dead_slots::<T>(final(self).cap() as nat),
            final(self).buffer().held() is None,
            final(self).allocator().requests() == old(self).buffer().released(
                old(self).allocator().requests(),
            ),
            old(self).buffer().held() is None ==> final(self).allocator() == old(self).allocator(),
    {
        while self.len > 0
            invariant
                self.wf(),
                self.allocator() == old(self).allocator(),
                self.buffer().held() == old(self).buffer().held(),
            decreases self@.len(),
        {
            let _ = self.pop();
        }
        self.buf.release();
        assert(self@ =~= Seq::<T>::empty());
    }
}

impl<T, A: Allocator + Default> Default for NomVec<T, A> {
    /// An empty vector on the allocator that `A` has by default.
    fn default() -> (vec: Self)
        ensures
            vec.wf(),
            vec@ == Seq::<T>::empty(),
            vec.cap() == (if size_of::<T>() == 0 { usize::MAX } else { 0 }),
    {
        NomVec::new(A::default())
    }
}

} // verus!
