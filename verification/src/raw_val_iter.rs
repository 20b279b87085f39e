use vstd::prelude::*;

verus! {

/// Two boundaries over a run of slots: what lies between them is still to be
/// yielded, from either end.
///
/// The cursor holds positions, not elements. It is handed the slots at each
/// step, so that they can be walked whether they are owned or borrowed.
pub struct RawValIter {
    start: usize,
    end: usize,
}

impl RawValIter {
    /// The position of the next element from the front.
    pub closed spec fn front(&self) -> int {
        self.start as int
    }

    /// The position just behind the next element from the back.
    pub closed spec fn back(&self) -> int {
        self.end as int
    }

    /// The cursor lies within `slots` and every slot between its boundaries
    /// is live.
    pub open spec fn spans<T>(&self, slots: Seq<Option<T>>) -> bool {
        &&& 0 <= self.front() <= self.back() <= slots.len()
        &&& forall|i: int| self.front() <= i < self.back() ==> (#[trigger] slots[i]) is Some
    }

    /// The elements between the boundaries, front to back.
    pub open spec fn run<T>(&self, slots: Seq<Option<T>>) -> Seq<T> {
        Seq::new((self.back() - self.front()) as nat, |i: int| slots[self.front() + i]->Some_0)
    }

    /// A cursor over the first `len` slots.
    pub fn new(len: usize) -> (iter: Self)
        ensures
            iter.front() == 0,
            iter.back() == len,
    {
        RawValIter { start: 0, end: len }
    }

    /// Steps over the front position and says which it was; `None` when the
    /// boundaries have met.
    pub fn advance(&mut self) -> (index: Option<usize>)
        requires
            old(self).front() <= old(self).back(),
        ensures
            final(self).back() == old(self).back(),
            match index {
                Some(i) => {
                    &&& old(self).front() < old(self).back()
                    &&& i == old(self).front()
                    &&& final(self).front() == old(self).front() + 1
                },
                None => {
                    &&& old(self).front() == old(self).back()
                    &&& final(self).front() == old(self).front()
                },
            },
    {
        if self.start == self.end {
            None
        } else {
            let index = self.start;
            self.start = self.start + 1;
            Some(index)
        }
    }

    /// Steps back over the last position and says which it was; `None` when
    /// the boundaries have met.
    pub fn retreat(&mut self) -> (index: Option<usize>)
        requires
            old(self).front() <= old(self).back(),
        ensures
            final(self).front() == old(self).front(),
            match index {
                Some(i) => {
                    &&& old(self).front() < old(self).back()
                    &&& i == old(self).back() - 1
                    &&& final(self).back() == old(self).back() - 1
                },
                None => {
                    &&& old(self).front() == old(self).back()
                    &&& final(self).back() == old(self).back()
                },
            },
    {
        if self.start == self.end {
            None
        } else {
            self.end = self.end - 1;
            Some(self.end)
        }
    }

    /// How many elements are left: the same number as lower and as upper
    /// bound.
    pub fn size_hint(&self) -> (hint: (usize, Option<usize>))
        requires
            self.front() <= self.back(),
        ensures
            hint.0 == self.back() - self.front(),
            hint.1 == Some(hint.0),
    {
        let len: usize = self.end - self.start;
        (len, Some(len))
    }

    /// Moves the front element out of `slots` and leaves its slot dead.
    pub fn next<T>(&mut self, slots: &mut Vec<Option<T>>) -> (value: Option<T>)
        requires
            old(self).spans(old(slots)@),
        ensures
            final(self).spans(final(slots)@),
            final(self).back() == old(self).back(),
            match value {
                Some(v) => {
                    &&& old(self).run(old(slots)@).len() > 0
                    &&& v == old(self).run(old(slots)@).first()
                    &&& final(self).run(final(slots)@) == old(self).run(old(slots)@).drop_first()
                    &&& final(self).front() == old(self).front() + 1
                    &&& final(slots)@ == old(slots)@.update(old(self).front(), None)
                },
                None => {
                    &&& old(self).run(old(slots)@).len() == 0
                    &&& final(self).front() == old(self).front()
                    &&& final(slots)@ == old(slots)@
                },
            },
    {
        match self.advance() {
            None => None,
            Some(index) => {
                let value = slots[index].take();
                assert(self.run(slots@) =~= old(self).run(old(slots)@).drop_first());
                value
            },
        }
    }

    /// Moves the back element out of `slots` and leaves its slot dead.
    pub fn next_back<T>(&mut self, slots: &mut Vec<Option<T>>) -> (value: Option<T>)
        requires
            old(self).spans(old(slots)@),
        ensures
            final(self).spans(final(slots)@),
            final(self).front() == old(self).front(),
            match value {
                Some(v) => {
                    &&& old(self).run(old(slots)@).len() > 0
                    &&& v == old(self).run(old(slots)@).last()
                    &&& final(self).run(final(slots)@) == old(self).run(old(slots)@).drop_last()
                    &&& final(self).back() == old(self).back() - 1
                    &&& final(slots)@ == old(slots)@.update(old(self).back() - 1, None)
                },
                None => {
                    &&& old(self).run(old(slots)@).len() == 0
                    &&& final(self).back() == old(self).back()
                    &&& final(slots)@ == old(slots)@
                },
            },
    {
        match self.retreat() {
            None => None,
            Some(index) => {
                let value = slots[index].take();
                assert(self.run(slots@) =~= old(self).run(old(slots)@).drop_last());
                value
            },
        }
    }

    /// Looks at the front element of `slots` and steps over it.
    pub fn next_ref<'a, T>(&mut self, slots: &'a Vec<Option<T>>) -> (value: Option<&'a T>)
        requires
            old(self).spans(slots@),
        ensures
            final(self).spans(slots@),
            final(self).back() == old(self).back(),
            match value {
                Some(v) => {
                    &&& old(self).run(slots@).len() > 0
                    &&& *v == old(self).run(slots@).first()
                    &&& final(self).run(slots@) == old(self).run(slots@).drop_first()
                    &&& final(self).front() == old(self).front() + 1
                },
                None => {
                    &&& old(self).run(slots@).len() == 0
                    &&& final(self).front() == old(self).front()
                },
            },
    {
        match self.advance() {
            None => None,
            Some(index) => {
                let value = slots[index].as_ref();
                assert(self.run(slots@) =~= old(self).run(slots@).drop_first());
                value
            },
        }
    }

    /// Looks at the back element of `slots` and steps back over it.
    pub fn next_back_ref<'a, T>(&mut self, slots: &'a Vec<Option<T>>) -> (value: Option<&'a T>)
        requires
            old(self).spans(slots@),
        ensures
            final(self).spans(slots@),
            final(self).front() == old(self).front(),
            match value {
                Some(v) => {
                    &&& old(self).run(slots@).len() > 0
                    &&& *v == old(self).run(slots@).last()
                    &&& final(self).run(slots@) == old(self).run(slots@).drop_last()
                    &&& final(self).back() == old(self).back() - 1
                },
                None => {
                    &&& old(self).run(slots@).len() == 0
                    &&& final(self).back() == old(self).back()
                },
            },
    {
        match self.retreat() {
            None => None,
            Some(index) => {
                let value = slots[index].as_ref();
                assert(self.run(slots@) =~= old(self).run(slots@).drop_last());
                value
            },
        }
    }
}

} // verus!
