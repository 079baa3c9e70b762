use vstd::prelude::*;

use crate::error::Error;
use crate::pte::PADDR_LIMIT;

verus! {

/// Whether a 64-bit value is a canonical virtual address: the high
/// seventeen bits all equal, sign-extending bit 47.
pub open spec fn canonical(v: u64) -> bool {
    v >> 47 == 0 || v >> 47 == 0x1_FFFF
}

/// Index into the top-level table (bits 47..39).
pub open spec fn pml4_index_of(v: u64) -> u64 {
    (v >> 39) & 0x1FF
}

/// Index into the directory-pointer table (bits 38..30).
pub open spec fn pdpt_index_of(v: u64) -> u64 {
    (v >> 30) & 0x1FF
}

/// Index into the page directory (bits 29..21).
pub open spec fn pd_index_of(v: u64) -> u64 {
    (v >> 21) & 0x1FF
}

/// Index into the lowest-level table (bits 20..12).
pub open spec fn pt_index_of(v: u64) -> u64 {
    (v >> 12) & 0x1FF
}

/// The base of the standard page containing the address.
pub open spec fn page_base_of(v: u64) -> u64 {
    v & 0xFFFF_FFFF_FFFF_F000u64
}

/// Whether two addresses select the same leaf slot at standard-page
/// granularity: all four table indices agree.
pub open spec fn same_standard_slot(a: u64, b: u64) -> bool {
    &&& pml4_index_of(a) == pml4_index_of(b)
    &&& pdpt_index_of(a) == pdpt_index_of(b)
    &&& pd_index_of(a) == pd_index_of(b)
    &&& pt_index_of(a) == pt_index_of(b)
}

/// Whether two addresses select the same leaf slot at large-page
/// granularity: the three upper indices agree.
pub open spec fn same_large_slot(a: u64, b: u64) -> bool {
    &&& pml4_index_of(a) == pml4_index_of(b)
    &&& pdpt_index_of(a) == pdpt_index_of(b)
    &&& pd_index_of(a) == pd_index_of(b)
}

/// Whether two addresses select the same leaf slot at huge-page
/// granularity: the two upper indices agree.
pub open spec fn same_huge_slot(a: u64, b: u64) -> bool {
    &&& pml4_index_of(a) == pml4_index_of(b)
    &&& pdpt_index_of(a) == pdpt_index_of(b)
}

/// The smallest multiple of `alignment` that is at least `v`.
pub open spec fn align_up(v: u64, alignment: u64) -> int {
    if v % alignment == 0 {
        v as int
    } else {
        v - (v % alignment) + alignment
    }
}

/// A virtual address. Values of this type are always canonical; the
/// constructor rejects every other bit pattern.
#[derive(Clone, Copy, Debug, PartialEq, Eq, Structural)]
pub struct VirtualAddress {
    bits: u64,
}

impl View for VirtualAddress {
    type V = u64;

    closed spec fn view(&self) -> u64 {
        self.bits
    }
}

impl VirtualAddress {
    /// Wraps a canonical 64-bit value; rejects non-canonical ones.
    pub fn new(bits: u64) -> (r: Result<VirtualAddress, Error>)
        ensures
            canonical(bits) ==> (r matches Ok(va) && va@ == bits),
            !canonical(bits) ==> r == Err::<VirtualAddress, Error>(Error::InvalidAddress),
    {
        if bits >> 47 == 0 || bits >> 47 == 0x1_FFFF {
            Ok(VirtualAddress { bits })
        } else {
            Err(Error::InvalidAddress)
        }
    }

    /// Wraps a value already known to be canonical.
    pub(crate) fn from_canonical(bits: u64) -> (r: VirtualAddress)
        requires
            canonical(bits),
        ensures
            r@ == bits,
    {
        VirtualAddress { bits }
    }

    /// The raw 64-bit value.
    pub fn bits(&self) -> (r: u64)
        ensures
            r == self@,
    {
        self.bits
    }

    /// Whether this is the null address.
    pub fn is_null(&self) -> (r: bool)
        ensures
            r == (self@ == 0),
    {
        self.bits == 0
    }

    /// Whether the address is a multiple of `alignment`.
    pub fn is_aligned_to(&self, alignment: u64) -> (r: bool)
        requires
            alignment > 0,
        ensures
            r == (self@ % alignment == 0),
    {
        self.bits % alignment == 0
    }

    /// The smallest multiple of `alignment` that is at least this address,
    /// as a raw value.
    pub fn aligned_after(&self, alignment: u64) -> (r: u64)
        requires
            alignment > 0,
            align_up(self@, alignment) <= u64::MAX,
        ensures
            r == align_up(self@, alignment),
    {
        let rem = self.bits % alignment;
        if rem == 0 {
            self.bits
        } else {
            proof {
                assert(rem <= self.bits) by (nonlinear_arith)
                    requires
                        alignment > 0,
                        rem == self.bits % alignment,
                ;
            }
            self.bits - rem + alignment
        }
    }

    /// Index into the top-level table.
    pub fn pml4_index(&self) -> (r: usize)
        ensures
            r == pml4_index_of(self@),
            r < 512,
    {
        let v = self.bits;
        proof {
            assert((v >> 39) & 0x1FF < 512) by (bit_vector);
        }
        ((v >> 39) & 0x1FF) as usize
    }

    /// Index into the directory-pointer table.
    pub fn pdpt_index(&self) -> (r: usize)
        ensures
            r == pdpt_index_of(self@),
            r < 512,
    {
        let v = self.bits;
        proof {
            assert((v >> 30) & 0x1FF < 512) by (bit_vector);
        }
        ((v >> 30) & 0x1FF) as usize
    }

    /// Index into the page directory.
    pub fn pd_index(&self) -> (r: usize)
        ensures
            r == pd_index_of(self@),
            r < 512,
    {
        let v = self.bits;
        proof {
            assert((v >> 21) & 0x1FF < 512) by (bit_vector);
        }
        ((v >> 21) & 0x1FF) as usize
    }

    /// Index into the lowest-level table.
    pub fn pt_index(&self) -> (r: usize)
        ensures
            r == pt_index_of(self@),
            r < 512,
    {
        let v = self.bits;
        proof {
            assert((v >> 12) & 0x1FF < 512) by (bit_vector);
        }
        ((v >> 12) & 0x1FF) as usize
    }
}

/// A physical address. Values of this type lie inside the platform's
/// valid physical range.
#[derive(Clone, Copy, Debug, PartialEq, Eq, Structural)]
pub struct PhysicalAddress {
    bits: u64,
}

impl View for PhysicalAddress {
    type V = u64;

    closed spec fn view(&self) -> u64 {
        self.bits
    }
}

impl PhysicalAddress {
    /// Wraps a value inside the platform's physical range; rejects the rest.
    pub fn new(bits: u64) -> (r: Result<PhysicalAddress, Error>)
        ensures
            bits < PADDR_LIMIT ==> (r matches Ok(pa) && pa@ == bits),
            bits >= PADDR_LIMIT ==> r == Err::<PhysicalAddress, Error>(Error::InvalidAddress),
    {
        if bits < PADDR_LIMIT {
            Ok(PhysicalAddress { bits })
        } else {
            Err(Error::InvalidAddress)
        }
    }

    /// Wraps a value already known to be in range.
    pub(crate) fn from_in_range(bits: u64) -> (r: PhysicalAddress)
        requires
            bits < PADDR_LIMIT,
        ensures
            r@ == bits,
    {
        PhysicalAddress { bits }
    }

    /// The raw 64-bit value.
    pub fn bits(&self) -> (r: u64)
        ensures
            r == self@,
    {
        self.bits
    }
}

} // verus!
