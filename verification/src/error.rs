use vstd::prelude::*;

verus! {

/// Why a buffer could not grow.
#[derive(Debug, Clone, Copy, PartialEq, Eq, Structural)]
pub enum AllocationError {
    /// Growth was asked of a buffer whose elements take no storage, or the
    /// number of bytes asked for cannot be written down in a `usize`.
    CapacityOverflow,
    /// The number of bytes asked for is more than `isize::MAX`.
    AllocationTooLarge,
    /// The request was well formed and was declined.
    AllocationFailed,
}

impl AllocationError {
    /// The text a person reads for this error.
    pub open spec fn text(self) -> Seq<char> {
        match self {
            AllocationError::CapacityOverflow => "Capacity overflow"@,
            AllocationError::AllocationTooLarge => "Allocation too large"@,
            AllocationError::AllocationFailed => "Allocation failed"@,
        }
    }

    pub fn message(&self) -> (text: &'static str)
        ensures
            text@ == self.text(),
    {
        match self {
            AllocationError::CapacityOverflow => "Capacity overflow",
            AllocationError::AllocationTooLarge => "Allocation too large",
            AllocationError::AllocationFailed => "Allocation failed",
        }
    }
}

} // verus!
