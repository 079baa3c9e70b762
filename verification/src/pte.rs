use vstd::prelude::*;

verus! {

/// Bytes covered by one standard page and by one table entry at the
/// lowest level.
pub const PAGE_SIZE: u64 = 4096;
/// Bytes covered by one large page (one entry at the page-directory level).
pub const LARGE_PAGE_SIZE: u64 = 0x20_0000;
/// Bytes covered by one huge page (one entry at the directory-pointer level).
pub const HUGE_PAGE_SIZE: u64 = 0x4000_0000;
/// Entries in one page table; a table occupies exactly one physical frame.
pub const ENTRY_COUNT: usize = 512;
/// Exclusive upper bound of the platform's valid physical address range.
pub const PADDR_LIMIT: u64 = 0x10_0000_0000_0000;

/// Entry flag: the entry is present (valid for translation).
pub const PTE_PRESENT: u64 = 0x1;
/// Entry flag: the mapped memory is writable.
pub const PTE_WRITE: u64 = 0x2;
/// Entry flag: the mapped memory is accessible from user mode.
pub const PTE_USER: u64 = 0x4;
/// Entry flag: write-through caching.
pub const PTE_WRITE_THROUGH: u64 = 0x8;
/// Entry flag: the entry is a large or huge leaf rather than a pointer to a
/// lower-level table. Only meaningful above the lowest level.
pub const PTE_PAGE_SIZE: u64 = 0x80;
/// Entry flag: the translation is global (kept across address-space switches).
pub const PTE_GLOBAL: u64 = 0x100;
/// Entry flag: the mapped memory must not be executed.
pub const PTE_NO_EXECUTE: u64 = 0x8000_0000_0000_0000;
/// Bits of an entry that hold the physical frame address.
pub const PTE_ADDR_MASK: u64 = 0x000F_FFFF_FFFF_F000;

/// The three page granularities one table hierarchy can serve.
#[derive(Clone, Copy, Debug, PartialEq, Eq, Structural)]
pub enum PageSize {
    /// 4 KiB, a leaf at the lowest table level.
    Standard,
    /// 2 MiB, a leaf at the page-directory level.
    Large,
    /// 1 GiB, a leaf at the directory-pointer level.
    Huge,
}

impl PageSize {
    /// Bytes covered by one page of this size.
    pub open spec fn spec_bytes(self) -> u64 {
        match self {
            PageSize::Standard => PAGE_SIZE,
            PageSize::Large => LARGE_PAGE_SIZE,
            PageSize::Huge => HUGE_PAGE_SIZE,
        }
    }

    /// Bytes covered by one page of this size.
    #[verifier::when_used_as_spec(spec_bytes)]
    pub fn bytes(self) -> (r: u64)
        ensures
            r == self.spec_bytes(),
    {
        match self {
            PageSize::Standard => PAGE_SIZE,
            PageSize::Large => LARGE_PAGE_SIZE,
            PageSize::Huge => HUGE_PAGE_SIZE,
        }
    }
}

/// One established translation, as a query reports it: the physical address
/// the queried virtual address resolves to, the flag bits of the leaf entry
/// that maps it, and the granularity of that leaf.
#[derive(Clone, Copy, Debug, PartialEq, Eq, Structural)]
pub struct Mapping {
    pub paddr: u64,
    pub flags: u64,
    pub size: PageSize,
}

/// Whether the entry is valid for translation.
pub open spec fn pte_is_present(e: u64) -> bool {
    e & PTE_PRESENT == PTE_PRESENT
}

/// Whether the entry carries the large/huge-leaf indicator.
pub open spec fn pte_is_leaf_size(e: u64) -> bool {
    e & PTE_PAGE_SIZE == PTE_PAGE_SIZE
}

/// The physical frame address held in the entry.
pub open spec fn pte_paddr(e: u64) -> u64 {
    e & PTE_ADDR_MASK
}

/// The flag bits of the entry (everything outside the address field).
pub open spec fn pte_flag_bits(e: u64) -> u64 {
    e & !PTE_ADDR_MASK
}

/// The address bits a leaf entry of the given size may carry; coarser
/// leaves implicitly zero the low bits of the frame base.
pub open spec fn leaf_addr_mask(size: PageSize) -> u64 {
    match size {
        PageSize::Standard => 0x000F_FFFF_FFFF_F000u64,
        PageSize::Large => 0x000F_FFFF_FFE0_0000u64,
        PageSize::Huge => 0x000F_FFFF_C000_0000u64,
    }
}

/// The leaf entry installed when mapping `paddr` with `flags` at the given
/// granularity: the frame base masked to the size's alignment, the caller's
/// flag bits (address and leaf-indicator bits stripped), the present bit,
/// and the leaf indicator for the coarser sizes.
pub open spec fn leaf_entry(paddr: u64, flags: u64, size: PageSize) -> u64 {
    (paddr & leaf_addr_mask(size)) | (flags & !PTE_ADDR_MASK & !PTE_PAGE_SIZE) | PTE_PRESENT | (
    if size == PageSize::Standard {
        0u64
    } else {
        PTE_PAGE_SIZE
    })
}

/// The entry installed to make a table at `child` the next level of a path:
/// the child's frame base, the caller's flag bits (address and
/// leaf-indicator bits stripped), and the present bit.
pub open spec fn intermediate_entry_bits(child: u64, flags: u64) -> u64 {
    (child & PTE_ADDR_MASK) | (flags & !PTE_ADDR_MASK & !PTE_PAGE_SIZE) | PTE_PRESENT
}

/// Builds the leaf entry for a mapping.
pub fn make_leaf_entry(paddr: u64, flags: u64, size: PageSize) -> (r: u64)
    ensures
        r == leaf_entry(paddr, flags, size),
{
    let mask: u64 = match size {
        PageSize::Standard => 0x000F_FFFF_FFFF_F000u64,
        PageSize::Large => 0x000F_FFFF_FFE0_0000u64,
        PageSize::Huge => 0x000F_FFFF_C000_0000u64,
    };
    let ps: u64 = match size {
        PageSize::Standard => 0u64,
        PageSize::Large => PTE_PAGE_SIZE,
        PageSize::Huge => PTE_PAGE_SIZE,
    };
    (paddr & mask) | (flags & !PTE_ADDR_MASK & !PTE_PAGE_SIZE) | PTE_PRESENT | ps
}

/// Builds the intermediate entry that links a parent table to `child`.
pub fn make_intermediate_entry(child: u64, flags: u64) -> (r: u64)
    ensures
        r == intermediate_entry_bits(child, flags),
{
    (child & PTE_ADDR_MASK) | (flags & !PTE_ADDR_MASK & !PTE_PAGE_SIZE) | PTE_PRESENT
}

/// How a clear entry decodes: absent, with no leaf indicator, no address
/// and no flags.
pub proof fn lemma_clear_entry_decodes()
    by (bit_vector)
    ensures
        !pte_is_present(0),
        !pte_is_leaf_size(0),
        pte_paddr(0) == 0,
        pte_flag_bits(0) == 0,
{
}

/// The address field of any entry is a page-aligned address inside the
/// platform's physical range.
pub proof fn lemma_pte_paddr_bounds(e: u64)
    by (bit_vector)
    ensures
        pte_paddr(e) <= 0x000F_FFFF_FFFF_F000u64,
        pte_paddr(e) % 4096 == 0,
        pte_paddr(e) < 0x10_0000_0000_0000u64,
{
}

/// The in-page offsets an address can carry at each granularity are
/// bounded by that granularity.
pub proof fn lemma_offset_bounds(va: u64)
    by (bit_vector)
    ensures
        va & 0xFFFu64 < 0x1000,
        va & 0x1F_FFFFu64 < 0x20_0000,
        va & 0x3FFF_FFFFu64 < 0x4000_0000,
{
}

/// How a freshly built intermediate entry decodes: present, no leaf
/// indicator, and the child address it was built from (for a frame base
/// inside the platform's physical range).
pub proof fn lemma_intermediate_entry_decodes(child: u64, flags: u64)
    by (bit_vector)
    requires
        child % 4096 == 0,
        child < 0x10_0000_0000_0000,
    ensures
        pte_is_present(intermediate_entry_bits(child, flags)),
        !pte_is_leaf_size(intermediate_entry_bits(child, flags)),
        pte_paddr(intermediate_entry_bits(child, flags)) == child,
{
}

/// How a freshly built leaf entry decodes: present, the leaf indicator
/// exactly for the coarser sizes, and the frame base masked to the size's
/// alignment.
pub proof fn lemma_leaf_entry_decodes(paddr: u64, flags: u64, size: PageSize)
    ensures
        pte_is_present(leaf_entry(paddr, flags, size)),
        pte_is_leaf_size(leaf_entry(paddr, flags, size)) == (size != PageSize::Standard),
        pte_paddr(leaf_entry(paddr, flags, size)) == paddr & leaf_addr_mask(size),
        pte_flag_bits(leaf_entry(paddr, flags, size)) == (flags & !PTE_ADDR_MASK
            & !PTE_PAGE_SIZE) | PTE_PRESENT | (
        if size == PageSize::Standard {
            0u64
        } else {
            PTE_PAGE_SIZE
        }),
{
    let m = leaf_addr_mask(size);
    let ps: u64 = if size == PageSize::Standard {
        0u64
    } else {
        PTE_PAGE_SIZE
    };
    let e = leaf_entry(paddr, flags, size);
    assert(m & !0x000F_FFFF_FFFF_F000u64 == 0 && m & 0xFFF == 0) by (bit_vector)
        requires
            m == 0x000F_FFFF_FFFF_F000u64 || m == 0x000F_FFFF_FFE0_0000u64 || m
                == 0x000F_FFFF_C000_0000u64,
    ;
    lemma_leaf_entry_bits(paddr, flags, m, ps, e);
}

proof fn lemma_leaf_entry_bits(paddr: u64, flags: u64, m: u64, ps: u64, e: u64)
    by (bit_vector)
    requires
        m & !0x000F_FFFF_FFFF_F000u64 == 0,
        m & 0xFFF == 0,
        ps == 0 || ps == 0x80,
        e == (paddr & m) | (flags & !0x000F_FFFF_FFFF_F000u64 & !0x80) | 0x1 | ps,
    ensures
        e & 0x1 == 0x1,
        (e & 0x80 == 0x80) == (ps == 0x80),
        e & 0x000F_FFFF_FFFF_F000u64 == paddr & m,
        e & !0x000F_FFFF_FFFF_F000u64 == (flags & !0x000F_FFFF_FFFF_F000u64 & !0x80) | 0x1 | ps,
{
}

} // verus!
