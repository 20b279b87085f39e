use vstd::prelude::*;
use vstd::layout::{align_of, size_of};
use crate::allocator::{oversize, recorded, AllocError, Allocator, Layout, Request};
use crate::error::AllocationError;

verus! {

/// The capacity the growth policy asks for after `cap`: four slots to begin
/// with, half as much again from then on.
pub open spec fn policy_capacity(cap: nat) -> nat {
    if cap == 0 {
        4
    } else {
        cap + cap / 2
    }
}

/// The largest capacity whose bytes stay within `isize::MAX`, for elements of
/// `elem_size` bytes.
pub open spec fn max_capacity(elem_size: nat) -> nat
    recommends
        elem_size > 0,
{
    (isize::MAX as nat) / elem_size
}

/// The capacity a buffer of `cap` slots grows to when at least `min` slots
/// are asked for: what the policy asks, held back to `max_capacity`, and then
/// raised to `min` if that is more.
pub open spec fn grown_capacity(cap: nat, min: nat, elem_size: nat) -> nat
    recommends
        elem_size > 0,
{
    let policy = policy_capacity(cap);
    let clamped = if policy <= max_capacity(elem_size) {
        policy
    } else {
        max_capacity(elem_size)
    };
    if min <= clamped {
        clamped
    } else {
        min
    }
}

/// What growing comes to before anyone is asked for memory: the new capacity,
/// or the reason why there is none. Elements without storage never grow; for
/// the others the bytes of the new capacity have to pass `oversize`.
pub open spec fn growth_outcome(cap: nat, min: nat, elem_size: nat) -> Result<nat, AllocationError> {
    if elem_size == 0 {
        Err(AllocationError::CapacityOverflow)
    } else {
        let target = grown_capacity(cap, min, elem_size);
        match oversize((target * elem_size) as int) {
            Some(e) => Err(e),
            None => Ok(target),
        }
    }
}

/// Whether `e` is an error that growing from `cap` to at least `min` slots
/// may end in: the one `growth_outcome` names, or, where it names none, a
/// request that was declined.
pub open spec fn growth_may_fail_with(cap: nat, min: nat, elem_size: nat, e: AllocationError) -> bool {
    match growth_outcome(cap, min, elem_size) {
        Ok(_) => e == AllocationError::AllocationFailed,
        Err(reason) => e == reason,
    }
}

/// `n` slots that hold nothing.
pub open spec fn dead_slots<T>(n: nat) -> Seq<Option<T>> {
    Seq::new(n, |i: int| None::<T>)
}

/// The slots after the `count` slots that begin at `from` have moved to the
/// `count` slots that begin at `to`. A slot that something moved into holds
/// what moved; a slot that was only moved out of is dead; the others are as
/// they were. The two runs may overlap.
pub open spec fn shifted<T>(slots: Seq<Option<T>>, from: int, to: int, count: int) -> Seq<Option<T>> {
    Seq::new(
        slots.len(),
        |i: int|
            if to <= i < to + count {
                slots[i - to + from]
            } else if from <= i < from + count {
                None
            } else {
                slots[i]
            },
    )
}

/// Computes `grown_capacity`.
pub fn grow_target(cap: usize, min: usize, elem_size: usize) -> (target: usize)
    requires
        elem_size > 0,
    ensures
        target == grown_capacity(cap as nat, min as nat, elem_size as nat),
{
    let policy: usize = if cap == 0 {
        4
    } else {
        cap.saturating_add(cap / 2)
    };
    let limit: usize = isize::MAX as usize / elem_size;
    let clamped: usize = if policy <= limit {
        policy
    } else {
        limit
    };
    if min <= clamped {
        clamped
    } else {
        min
    }
}

/// What a buffer holds of its allocator.
#[derive(Clone, Copy)]
enum Block {
    /// Nothing was asked for yet, or it was given back.
    Empty,
    /// A block for `capacity` elements, granted under `layout`.
    Allocated { capacity: usize, layout: Layout },
    /// The elements take no storage: there is nothing to ask for.
    ZeroSized,
}

/// A run of slots, each of them dead or holding one live element, together
/// with the allocator that granted it.
///
/// The buffer is its slots: a sequence as long as the capacity, `None` where
/// a slot is dead. It knows nothing of which slots its owner takes for live.
///
/// A buffer that is dropped gives its memory back to the process and drops
/// what its slots hold, but tells the allocator nothing: `release` does.
pub struct RawVec<T, A: Allocator> {
    slots: Vec<Option<T>>,
    block: Block,
    alloc: A,
}

impl<T, A: Allocator> View for RawVec<T, A> {
    type V = Seq<Option<T>>;

    open spec fn view(&self) -> Seq<Option<T>> {
        Seq::new(
            self.spec_capacity() as nat,
            |i: int|
                if i < self.slots().len() {
                    self.slots()[i]
                } else {
                    None
                },
        )
    }
}

impl<T, A: Allocator> RawVec<T, A> {
    /// The slots that were written so far, as they lie in memory. A slot
    /// that lies beyond them is dead.
    pub closed spec fn slots(&self) -> Seq<Option<T>> {
        self.slots@
    }

    /// The allocator the buffer asks, as it is now.
    pub closed spec fn allocator(&self) -> A {
        self.alloc
    }

    /// The layout under which the buffer holds a block of its allocator, if
    /// it holds one.
    pub closed spec fn held(&self) -> Option<Layout> {
        match self.block {
            Block::Allocated { capacity, layout } => Some(layout),
            _ => None,
        }
    }

    /// What the buffer asks of its allocator to grow to `target` slots: a
    /// first block, or a larger one for the block it holds.
    pub open spec fn growth_request(&self, target: nat) -> Request {
        match self.held() {
            Some(layout) => Request::Grow(layout, Layout::array_of::<T>(target)),
            None => Request::Allocate(Layout::array_of::<T>(target)),
        }
    }

    /// Whether `after` is the allocator once the buffer was asked to grow to
    /// at least `min` slots and answered `done`.
    ///
    /// Where `growth_outcome` names a capacity larger than the present one,
    /// the allocator was asked `growth_request`, once and nothing else; if
    /// the buffer failed, it may also be that the memory could not be
    /// reserved and the allocator was not asked at all. In every other case
    /// the allocator is as it was.
    pub open spec fn grow_asked(&self, min: nat, done: Result<(), AllocationError>, after: A) -> bool {
        match growth_outcome(self.capacity() as nat, min, size_of::<T>()) {
            Ok(target) => {
                if target > self.capacity() {
                    let asked = after.requests() == recorded(
                        self.allocator().requests(),
                        self.growth_request(target),
                    );
                    if done is Ok {
                        asked
                    } else {
                        asked || after == self.allocator()
                    }
                } else {
                    after == self.allocator()
                }
            },
            Err(_) => after == self.allocator(),
        }
    }

    /// What the allocator's record is once the buffer has given up the
    /// block it holds, if it holds one: one `Deallocate` with the layout of
    /// the block written behind `record`, or `record` itself.
    pub open spec fn released(&self, record: Option<Seq<Request>>) -> Option<Seq<Request>> {
        match self.held() {
            Some(layout) => recorded(record, Request::Deallocate(layout)),
            None => record,
        }
    }

    pub closed spec fn spec_capacity(&self) -> usize {
        match self.block {
            Block::Empty => 0,
            Block::Allocated { capacity, layout } => capacity,
            Block::ZeroSized => usize::MAX,
        }
    }

    /// The buffer holds a block that matches its capacity and its element
    /// type.
    pub closed spec fn wf(&self) -> bool {
        match self.block {
            Block::Empty => size_of::<T>() > 0,
            Block::Allocated { capacity, layout } => {
                &&& size_of::<T>() > 0
                &&& capacity > 0
                &&& capacity * size_of::<T>() <= isize::MAX
                &&& 0 < align_of::<T>() <= usize::MAX
                &&& layout == Layout::array_of::<T>(capacity as nat)
            },
            Block::ZeroSized => size_of::<T>() == 0,
        }
    }

    /// Elements without storage have all the capacity there is; the others
    /// have no more than `max_capacity`.
    pub proof fn lemma_capacity(&self)
        requires
            self.wf(),
        ensures
            size_of::<T>() == 0 ==> self.capacity() == usize::MAX,
            size_of::<T>() > 0 ==> self.capacity() <= max_capacity(size_of::<T>()),
    {
        if size_of::<T>() > 0 && self.capacity() > 0 {
            let cap = self.capacity() as int;
            let size = size_of::<T>() as int;
            assert(cap <= (isize::MAX as int) / size) by (nonlinear_arith)
                requires
                    size > 0,
                    cap * size <= isize::MAX as int,
            ;
        }
    }

    /// A block is held exactly when there are slots that take storage, and
    /// its layout is that of as many elements as the capacity says.
    pub proof fn lemma_held(&self)
        requires
            self.wf(),
        ensures
            self.held() == (if self.capacity() > 0 && size_of::<T>() > 0 {
                Some(Layout::array_of::<T>(self.capacity() as nat))
            } else {
                None
            }),
            self.held() is Some ==> {
                &&& self.held()->Some_0.is_request()
                &&& self.held()->Some_0.size() == self.capacity() * size_of::<T>()
                &&& self.held()->Some_0.align() == align_of::<T>()
            },
    {
        Layout::lemma_array_of::<T>(self.capacity() as nat);
        if self.held() is Some {
            assert(0 < self.capacity() * size_of::<T>()) by (nonlinear_arith)
                requires
                    self.capacity() > 0,
                    size_of::<T>() > 0,
            ;
        }
    }

    /// A buffer without a block: no slot at all, or, for elements without
    /// storage, every slot there can be. Nothing is asked of `alloc`.
    pub fn new(alloc: A) -> (buf: Self)
        ensures
            buf.wf(),
            buf.allocator() == alloc,
            buf.held() is None,
            buf.capacity() == (if size_of::<T>() == 0 { usize::MAX } else { 0 }),
            buf@ == dead_slots::<T>(buf.capacity() as nat),
    {
        let block = if core::mem::size_of::<T>() == 0 {
            Block::ZeroSized
        } else {
            Block::Empty
        };
        let buf = RawVec { slots: Vec::new(), block, alloc };
        assert(buf@ =~= dead_slots::<T>(buf.capacity() as nat));
        buf
    }

    /// The number of slots.
    #[verifier::when_used_as_spec(spec_capacity)]
    pub fn capacity(&self) -> (cap: usize)
        ensures
            cap == self.spec_capacity(),
    {
        match self.block {
            Block::Empty => 0,
            Block::Allocated { capacity, .. } => capacity,
            Block::ZeroSized => usize::MAX,
        }
    }

    /// Puts `value` into slot `index`. What the slot held before is dropped.
    pub fn write(&mut self, index: usize, value: T)
        requires
            old(self).wf(),
            index < old(self).capacity(),
        ensures
            final(self).wf(),
            final(self).capacity() == old(self).capacity(),
            final(self).allocator() == old(self).allocator(),
            final(self).held() == old(self).held(),
            final(self)@ == old(self)@.update(index as int, Some(value)),
    {
        while self.slots.len() < index
            invariant
                self.wf(),
                self.capacity() == old(self).capacity(),
                self.allocator() == old(self).allocator(),
                self.held() == old(self).held(),
                self@ == old(self)@,
                index < self.capacity(),
            decreases index - self.slots.len(),
        {
            let ghost before = self@;
            self.slots.push(None);
            assert(self@ =~= before);
        }
        if index < self.slots.len() {
            self.slots[index] = Some(value);
        } else {
            self.slots.push(Some(value));
        }
        assert(self@ =~= old(self)@.update(index as int, Some(value)));
    }

    /// Moves out what slot `index` holds and leaves the slot dead.
    pub fn take(&mut self, index: usize) -> (value: Option<T>)
        requires
            old(self).wf(),
            index < old(self).capacity(),
        ensures
            final(self).wf(),
            final(self).capacity() == old(self).capacity(),
            final(self).allocator() == old(self).allocator(),
            final(self).held() == old(self).held(),
            value == old(self)@[index as int],
            final(self)@ == old(self)@.update(index as int, None),
    {
        let value = if index < self.slots.len() {
            self.slots[index].take()
        } else {
            None
        };
        assert(self@ =~= old(self)@.update(index as int, None));
        value
    }

    /// Looks at what slot `index` holds.
    pub fn get(&self, index: usize) -> (value: Option<&T>)
        requires
            self.wf(),
            index < self.capacity(),
        ensures
            value == match self@[index as int] {
                Some(v) => Some(&v),
                None => None,
            },
    {
        if index < self.slots.len() {
            self.slots[index].as_ref()
        } else {
            None
        }
    }

    /// Looks at what slot `index` holds, to change it in place.
    pub fn get_mut(&mut self, index: usize) -> (value: Option<&mut T>)
        requires
            old(self).wf(),
            index < old(self).capacity(),
        ensures
            final(self).wf(),
            final(self).capacity() == old(self).capacity(),
            final(self).allocator() == old(self).allocator(),
            final(self).held() == old(self).held(),
            match old(self)@[index as int] {
                Some(v) => value is Some && *value->Some_0 == v
                    && final(self)@ == old(self)@.update(index as int, Some(*final(value->Some_0))),
                None => value is None && final(self)@ == old(self)@,
            },
    {
        if index < self.slots.len() {
            self.slots[index].as_mut()
        } else {
            None
        }
    }

    /// Makes slot `index` hold what `slot` holds.
    fn put(&mut self, index: usize, slot: Option<T>)
        requires
            old(self).wf(),
            index < old(self).capacity(),
        ensures
            final(self).wf(),
            final(self).capacity() == old(self).capacity(),
            final(self).allocator() == old(self).allocator(),
            final(self).held() == old(self).held(),
            final(self)@ == old(self)@.update(index as int, slot),
    {
        match slot {
            Some(value) => {
                self.write(index, value);
            },
            None => {
                let _ = self.take(index);
            },
        }
    }

    /// Moves the `count` slots that begin at `from` to the `count` slots that
    /// begin at `to`, in the order that keeps every element whole where the
    /// two runs overlap.
    pub fn shift(&mut self, from: usize, to: usize, count: usize)
        requires
            old(self).wf(),
            from + count <= old(self).capacity(),
            to + count <= old(self).capacity(),
        ensures
            final(self).wf(),
            final(self).capacity() == old(self).capacity(),
            final(self).allocator() == old(self).allocator(),
            final(self).held() == old(self).held(),
            final(self)@ == shifted(old(self)@, from as int, to as int, count as int),
    {
        if from < to {
            let mut k: usize = count;
            while k > 0
                invariant
                    self.wf(),
                    self.capacity() == old(self).capacity(),
                    self.allocator() == old(self).allocator(),
                    self.held() == old(self).held(),
                    from < to,
                    k <= count,
                    from + count <= self.capacity(),
                    to + count <= self.capacity(),
                    self@ == Seq::new(
                        old(self)@.len(),
                        |i: int|
                            if to + k <= i < to + count {
                                old(self)@[i - to + from]
                            } else if from + k <= i < from + count {
                                None
                            } else {
                                old(self)@[i]
                            },
                    ),
                decreases k,
            {
                k = k - 1;
                let slot = self.take(from + k);
                self.put(to + k, slot);
                assert(self@ =~= Seq::new(
                    old(self)@.len(),
                    |i: int|
                        if to + k <= i < to + count {
                            old(self)@[i - to + from]
                        } else if from + k <= i < from + count {
                            None
                        } else {
                            old(self)@[i]
                        },
                ));
            }
            assert(self@ =~= shifted(old(self)@, from as int, to as int, count as int));
        } else if to < from {
            let mut k: usize = 0;
            while k < count
                invariant
                    self.wf(),
                    self.capacity() == old(self).capacity(),
                    self.allocator() == old(self).allocator(),
                    self.held() == old(self).held(),
                    to < from,
                    k <= count,
                    from + count <= self.capacity(),
                    to + count <= self.capacity(),
                    self@ == Seq::new(
                        old(self)@.len(),
                        |i: int|
                            if to <= i < to + k {
                                old(self)@[i - to + from]
                            } else if from <= i < from + k {
                                None
                            } else {
                                old(self)@[i]
                            },
                    ),
                decreases count - k,
            {
                let slot = self.take(from + k);
                self.put(to + k, slot);
                k = k + 1;
                assert(self@ =~= Seq::new(
                    old(self)@.len(),
                    |i: int|
                        if to <= i < to + k {
                            old(self)@[i - to + from]
                        } else if from <= i < from + k {
                            None
                        } else {
                            old(self)@[i]
                        },
                ));
            }
            assert(self@ =~= shifted(old(self)@, from as int, to as int, count as int));
        } else {
            assert(self@ =~= shifted(old(self)@, from as int, to as int, count as int));
        }
    }

    /// Settles a request for `capacity` slots under `layout` once the answer
    /// to it is known: a grant makes the buffer that large, the old slots
    /// as they were and the new ones dead; a refusal leaves the buffer as it
    /// was.
    fn commit(
        &mut self,
        capacity: usize,
        layout: Layout,
        granted: Result<(), AllocError>,
    ) -> (done: Result<(), AllocationError>)
        requires
            old(self).wf(),
            size_of::<T>() > 0,
            old(self).capacity() < capacity,
            layout.is_request(),
            layout == Layout::array_of::<T>(capacity as nat),
            layout.size() == capacity * size_of::<T>(),
            layout.align() == align_of::<T>(),
        ensures
            final(self).wf(),
            final(self).allocator() == old(self).allocator(),
            match granted {
                Ok(_) => {
                    &&& done is Ok
                    &&& final(self).held() == Some(layout)
                    &&& final(self).capacity() == capacity
                    &&& final(self)@ == old(self)@ + dead_slots::<T>(
                        (capacity - old(self).capacity()) as nat,
                    )
                },
                Err(_) => {
                    &&& done == Err::<(), AllocationError>(AllocationError::AllocationFailed)
                    &&& final(self).held() == old(self).held()
                    &&& final(self).capacity() == old(self).capacity()
                    &&& final(self)@ == old(self)@
                },
            },
    {
        match granted {
            Ok(_) => {
                // no slot beyond the old capacity is part of the buffer
                self.slots.truncate(self.capacity());
                self.block = Block::Allocated { capacity, layout };
                assert(self@ =~= old(self)@ + dead_slots::<T>(
                    (capacity - old(self).capacity()) as nat,
                ));
                Ok(())
            },
            Err(_) => Err(AllocationError::AllocationFailed),
        }
    }

    /// Makes room for at least `requested_minimum` slots.
    ///
    /// `growth_outcome` says what the new capacity is, or why there is none.
    /// Where it names a capacity larger than the present one, the memory is
    /// reserved and the allocator is asked, once: for a first block if the
    /// buffer holds none, else for a larger one in place of the block held.
    /// If either declines, the buffer fails with `AllocationFailed`. A
    /// buffer that fails is as it was. One that succeeds has its old slots
    /// as they were and its new slots dead, and holds the block it asked
    /// for.
    pub fn grow(&mut self, requested_minimum: usize) -> (done: Result<(), AllocationError>)
        requires
            old(self).wf(),
        ensures
            final(self).wf(),
            old(self).capacity() <= final(self).capacity(),
            old(self).grow_asked(requested_minimum as nat, done, final(self).allocator()),
            final(self).held() == (if final(self).capacity() > old(self).capacity() {
                Some(Layout::array_of::<T>(final(self).capacity() as nat))
            } else {
                old(self).held()
            }),
            match done {
                Ok(_) => {
                    &&& growth_outcome(
                        old(self).capacity() as nat,
                        requested_minimum as nat,
                        size_of::<T>(),
                    ) == Ok::<nat, AllocationError>(final(self).capacity() as nat)
                    &&& final(self)@ == old(self)@ + dead_slots::<T>(
                        (final(self).capacity() - old(self).capacity()) as nat,
                    )
                },
                Err(e) => {
                    &&& growth_may_fail_with(
                        old(self).capacity() as nat,
                        requested_minimum as nat,
                        size_of::<T>(),
                        e,
                    )
                    &&& final(self).capacity() == old(self).capacity()
                    &&& final(self)@ == old(self)@
                },
            },
            growth_outcome(
                old(self).capacity() as nat,
                requested_minimum as nat,
                size_of::<T>(),
            ) == Ok::<nat, AllocationError>(old(self).capacity() as nat) ==> done is Ok,
    {
        let elem_size: usize = core::mem::size_of::<T>();
        if elem_size == 0 {
            return Err(AllocationError::CapacityOverflow);
        }
        let cap: usize = self.capacity();
        let target: usize = grow_target(cap, requested_minimum, elem_size);
        let new_layout = match Layout::array::<T>(target) {
            Ok(layout) => layout,
            Err(e) => {
                return Err(e);
            },
        };
        proof {
            self.lemma_capacity();
            self.lemma_held();
            lemma_growth_policy(cap as nat, requested_minimum as nat, elem_size as nat);
        }
        if target == cap {
            assert(self@ =~= self@ + dead_slots::<T>(0));
            return Ok(());
        }
        vstd::layout::layout_for_type_is_valid::<T>();
        assert(cap * elem_size < target * elem_size) by (nonlinear_arith)
            requires
                cap < target,
                elem_size > 0,
        ;
        let written: usize = self.slots.len();
        let additional: usize = if written < target {
            target - written
        } else {
            0
        };
        let granted = match self.slots.try_reserve(additional) {
            Err(_) => Err(AllocError),
            Ok(_) => match self.block {
                Block::Allocated { capacity, layout } => self.alloc.grow(layout, new_layout),
                _ => self.alloc.allocate(new_layout),
            },
        };
        self.commit(target, new_layout, granted)
    }

    /// Lends the slots to one who moves elements out of them. Whatever is
    /// done to the slots, the block and the capacity stay.
    pub(crate) fn lend_slots(&mut self) -> (slots: &mut Vec<Option<T>>)
        ensures
            slots@ == old(self).slots(),
            final(self).slots() == final(slots)@,
            final(self).capacity() == old(self).capacity(),
            final(self).allocator() == old(self).allocator(),
            final(self).held() == old(self).held(),
            final(self).wf() == old(self).wf(),
    {
        &mut self.slots
    }

    /// Shows the slots to one who looks at the elements in them.
    pub(crate) fn show_slots(&self) -> (slots: &Vec<Option<T>>)
        ensures
            slots@ == self.slots(),
    {
        &self.slots
    }

    /// Gives the block back, if there is one, and drops whatever the slots
    /// still hold. The buffer is then as `new` makes it; releasing it again
    /// does nothing.
    ///
    /// A block is held exactly when the capacity is not zero and the
    /// elements take storage. The allocator is then told once, with the
    /// layout of as many elements as the capacity says; otherwise it is told
    /// nothing.
    pub fn release(&mut self)
        requires
            old(self).wf(),
        ensures
            final(self).wf(),
            final(self).capacity() == (if size_of::<T>() == 0 { usize::MAX } else { 0 }),
            final(self)@ == dead_slots::<T>(final(self).capacity() as nat),
            final(self).held() is None,
            old(self).held() == (if old(self).capacity() > 0 && size_of::<T>() > 0 {
                Some(Layout::array_of::<T>(old(self).capacity() as nat))
            } else {
                None
            }),
            final(self).allocator().requests() == old(self).released(
                old(self).allocator().requests(),
            ),
            old(self).held() is None ==> final(self).allocator() == old(self).allocator(),
    {
        proof {
            self.lemma_held();
        }
        self.slots = Vec::new();
        match self.block {
            Block::Allocated { capacity, layout } => {
                self.alloc.deallocate(layout);
                self.block = Block::Empty;
            },
            _ => {},
        }
        assert(self@ =~= dead_slots::<T>(self.capacity() as nat));
    }
}

/// The growth policy. Where the limit on bytes does not hold it back, the
/// first growth gives four slots and each later one half as much again, and
/// either gives more if more was asked for. Held back or not, growing never
/// gives less than there was, nor less than was asked for.
pub proof fn lemma_growth_policy(cap: nat, min: nat, elem_size: nat)
    requires
        elem_size > 0,
        cap <= max_capacity(elem_size),
    ensures
        cap <= grown_capacity(cap, min, elem_size),
        min <= grown_capacity(cap, min, elem_size),
        policy_capacity(cap) <= max_capacity(elem_size) ==> grown_capacity(cap, min, elem_size)
            == (if min <= policy_capacity(cap) {
            policy_capacity(cap)
        } else {
            min
        }),
        cap == 0 && min <= 4 <= max_capacity(elem_size) ==> grown_capacity(cap, min, elem_size)
            == 4,
        cap > 0 && min <= cap + cap / 2 <= max_capacity(elem_size) ==> grown_capacity(
            cap,
            min,
            elem_size,
        ) == cap + cap / 2,
{
}

} // verus!
