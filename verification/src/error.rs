use vstd::prelude::*;

verus! {

/// Errors reported by the virtual-memory core. Every fallible operation
/// returns one of these; none of the verified operations panic on bad input.
#[derive(Clone, Copy, Debug, PartialEq, Eq, Structural)]
pub enum Error {
    /// The frame allocator has no frame left to back a new table.
    OutOfMemory,
    /// A physical or virtual address is malformed, out of the platform's
    /// range, or the table path for it is occupied by an incompatible entry.
    InvalidAddress,
    /// A virtual address is not aligned to the page size in play.
    InvalidVAddrAlignment,
    /// The address space already carries a tag; a tag is assigned once.
    AlreadyTagged,
    /// The tag value is unusable, or no tag has been assigned yet.
    InvalidTag,
    /// The platform lacks the hardware support the operation needs.
    UnsupportedOperation,
    /// A region request smaller than one page.
    SubPageSizeNotAllowed,
    /// A search argument (such as the alignment) is out of range.
    InvalidArgument,
    /// No free region of the requested size exists in the scanned range.
    RangeUnavailable,
    /// No mapping of the requested granularity exists at the address.
    NotMapped,
}

} // verus!
