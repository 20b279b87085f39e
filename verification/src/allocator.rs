use vstd::prelude::*;
use vstd::layout::{align_of, size_of};
use crate::error::AllocationError;

verus! {

/// The size and alignment of one request for memory.
#[derive(Debug, Clone, Copy, PartialEq, Eq, Structural)]
pub struct Layout {
    size: usize,
    align: usize,
}

/// What stands in the way of a block of `bytes` bytes, if anything does:
/// a count that no `usize` holds, or one beyond `isize::MAX`.
pub open spec fn oversize(bytes: int) -> Option<AllocationError> {
    if bytes > usize::MAX {
        Some(AllocationError::CapacityOverflow)
    } else if bytes > isize::MAX {
        Some(AllocationError::AllocationTooLarge)
    } else {
        None
    }
}

impl Layout {
    pub closed spec fn spec_size(&self) -> usize {
        self.size
    }

    pub closed spec fn spec_align(&self) -> usize {
        self.align
    }

    /// The layout of `n` elements of `T` side by side, where their bytes
    /// fit a `usize`.
    pub closed spec fn array_of<T>(n: nat) -> Layout {
        Layout { size: (n * size_of::<T>()) as usize, align: align_of::<T>() as usize }
    }

    /// The size of an array is the sizes of its elements together, and its
    /// alignment is theirs.
    pub proof fn lemma_array_of<T>(n: nat)
        ensures
            n * size_of::<T>() <= usize::MAX ==> Layout::array_of::<T>(n).size()
                == n * size_of::<T>(),
            align_of::<T>() <= usize::MAX ==> Layout::array_of::<T>(n).align() == align_of::<T>(),
    {
    }

    /// The number of bytes asked for.
    #[verifier::when_used_as_spec(spec_size)]
    pub fn size(&self) -> (bytes: usize)
        ensures
            bytes == self.spec_size(),
    {
        self.size
    }

    /// The alignment asked for.
    #[verifier::when_used_as_spec(spec_align)]
    pub fn align(&self) -> (align: usize)
        ensures
            align == self.spec_align(),
    {
        self.align
    }

    /// A layout that may be handed to an allocator: it asks for at least one
    /// byte, for no more than `isize::MAX`, at a real alignment.
    pub open spec fn is_request(&self) -> bool {
        &&& 0 < self.size() <= isize::MAX
        &&& 0 < self.align()
    }

    /// The layout of `n` elements of `T` side by side.
    ///
    /// It exists exactly when the `n * size_of::<T>()` bytes fit the limits
    /// that `oversize` names; otherwise the error is the one `oversize` gives.
    pub fn array<T>(n: usize) -> (layout: Result<Layout, AllocationError>)
        ensures
            match oversize(n * size_of::<T>()) {
                Some(e) => layout == Err::<Layout, AllocationError>(e),
                None => layout == Ok::<Layout, AllocationError>(Layout::array_of::<T>(n as nat))
                    && layout->Ok_0.size() == n * size_of::<T>()
                    && layout->Ok_0.align() == align_of::<T>(),
            },
    {
        let elem_size: usize = core::mem::size_of::<T>();
        match n.checked_mul(elem_size) {
            None => Err(AllocationError::CapacityOverflow),
            Some(bytes) => {
                if bytes > isize::MAX as usize {
                    Err(AllocationError::AllocationTooLarge)
                } else {
                    Ok(Layout { size: bytes, align: core::mem::align_of::<T>() })
                }
            },
        }
    }
}

/// The answer of an allocator that declines a request.
#[derive(Debug, Clone, Copy, PartialEq, Eq, Structural)]
pub struct AllocError;

/// One thing an allocator was asked or told.
#[derive(Debug, Clone, Copy, PartialEq, Eq, Structural)]
pub enum Request {
    /// A first block of this layout was asked for.
    Allocate(Layout),
    /// The block held under the first layout was asked to become one of the
    /// second.
    Grow(Layout, Layout),
    /// The block held under this layout was given up.
    Deallocate(Layout),
}

/// The record `record` with `request` written behind it. An allocator that
/// keeps no record has none afterwards either.
pub open spec fn recorded(record: Option<Seq<Request>>, request: Request) -> Option<Seq<Request>> {
    match record {
        Some(requests) => Some(requests.push(request)),
        None => None,
    }
}

/// The capability a buffer is parameterised by.
///
/// A buffer keeps its slots in memory of the process. The capability is
/// asked whenever the buffer takes a first block or enlarges the one it has,
/// and told when the buffer gives its block up. An implementation may keep
/// accounts, set a quota, or decline at will: a buffer never takes an answer
/// for granted and never asks for anything but a well-formed layout.
///
/// An allocator may keep a record of what it was asked and told, granted or
/// not, in the order it came. The record is what the contracts of a buffer
/// speak of when they say which requests were made; it says nothing of the
/// answers. One that keeps none, which is the default, claims nothing.
pub trait Allocator {
    /// Everything this allocator was asked or told so far, first to last,
    /// if it keeps a record.
    open spec fn requests(&self) -> Option<Seq<Request>> {
        None
    }

    /// Asks for a first block of `layout`.
    fn allocate(&mut self, layout: Layout) -> (granted: Result<(), AllocError>)
        requires
            layout.is_request(),
        ensures
            final(self).requests() == recorded(old(self).requests(), Request::Allocate(layout)),
    ;

    /// Asks to enlarge the block held under `old_layout` to `new_layout`.
    /// Declining leaves the block as it was.
    fn grow(&mut self, old_layout: Layout, new_layout: Layout) -> (granted: Result<(), AllocError>)
        requires
            old_layout.is_request(),
            new_layout.is_request(),
            old_layout.size() < new_layout.size(),
            old_layout.align() == new_layout.align(),
        ensures
            final(self).requests() == recorded(
                old(self).requests(),
                Request::Grow(old_layout, new_layout),
            ),
    ;

    /// Gives up the block held under `layout`.
    fn deallocate(&mut self, layout: Layout)
        requires
            layout.is_request(),
        ensures
            final(self).requests() == recorded(old(self).requests(), Request::Deallocate(layout)),
    ;
}

/// The allocator of the process: it grants every request, and keeps a
/// record of them.
pub struct Global {
    asked: Ghost<Seq<Request>>,
}

impl Global {
    /// The allocator of the process, with nothing asked of it yet.
    pub fn new() -> (global: Self)
        ensures
            global.requests() == Some(Seq::<Request>::empty()),
    {
        Global { asked: Ghost(Seq::empty()) }
    }
}

impl Default for Global {
    fn default() -> (global: Self)
        ensures
            global.requests() == Some(Seq::<Request>::empty()),
    {
        Global::new()
    }
}

impl Allocator for Global {
    closed spec fn requests(&self) -> Option<Seq<Request>> {
        Some(self.asked@)
    }

    fn allocate(&mut self, layout: Layout) -> (granted: Result<(), AllocError>)
        ensures
            granted is Ok,
    {
        self.asked = Ghost(self.asked@.push(Request::Allocate(layout)));
        Ok(())
    }

    fn grow(&mut self, old_layout: Layout, new_layout: Layout) -> (granted: Result<(), AllocError>)
        ensures
            granted is Ok,
    {
        self.asked = Ghost(self.asked@.push(Request::Grow(old_layout, new_layout)));
        Ok(())
    }

    fn deallocate(&mut self, layout: Layout) {
        self.asked = Ghost(self.asked@.push(Request::Deallocate(layout)));
    }
}

} // verus!
