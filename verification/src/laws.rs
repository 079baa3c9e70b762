use vstd::prelude::*;

use crate::addr::{same_large_slot, same_standard_slot};
use crate::error::Error;
use crate::page_map::{
    first_fit_result, good_candidate, huge_map_applied, large_map_applied, spec_set_pcid,
    standard_map_applied, standard_unmap_applied,
};
use crate::phys_mem::{
    blocked_for_standard, huge_leaf_at, large_leaf_at, mem_wf, translate_page, MemModel,
};
use crate::pte::{
    leaf_entry, lemma_leaf_entry_decodes, pte_flag_bits, Mapping, PageSize, PADDR_LIMIT,
};

verus! {

/// Round trip at standard granularity: after mapping an aligned virtual
/// address to a valid frame, a lookup of that address yields exactly the
/// mapped frame, and after the matching unmap the address translates to
/// nothing again. Together with the mapping operations' own contracts —
/// a successful unmap returns the physical address its slot translated
/// to — the frame handed back by the unmap is exactly the one mapped.
pub proof fn lemma_standard_round_trip(
    m0: MemModel,
    m1: MemModel,
    m2: MemModel,
    cr3: u64,
    va: u64,
    pa: u64,
    flags: u64,
)
    requires
        va % 4096 == 0,
        pa % 4096 == 0,
        pa < PADDR_LIMIT,
        standard_map_applied(m0, m1, cr3, va, pa, flags),
        standard_unmap_applied(m1, m2, cr3, va),
    ensures
        translate_page(m1, cr3, va) == Some(
            Mapping {
                paddr: pa,
                flags: pte_flag_bits(leaf_entry(pa, flags, PageSize::Standard)),
                size: PageSize::Standard,
            },
        ),
        translate_page(m2, cr3, va) is None,
{
    lemma_leaf_entry_decodes(pa, flags, PageSize::Standard);
    assert(va & 0xFFFu64 == 0) by (bit_vector)
        requires
            va % 4096 == 0,
    ;
    assert(pa & 0x000F_FFFF_FFFF_F000u64 == pa) by (bit_vector)
        requires
            pa % 4096 == 0,
            pa < 0x10_0000_0000_0000u64,
    ;
    assert(same_standard_slot(va, va));
}

/// Idempotence of the region search: the first-fit characterization pins
/// the result down, so two searches over the same tables with the same
/// arguments report the same address, or both report exhaustion.
pub proof fn lemma_first_fit_deterministic(
    m: MemModel,
    cr3: u64,
    size: u64,
    alignment: u64,
    s: u64,
    e: u64,
    r1: Result<u64, Error>,
    r2: Result<u64, Error>,
)
    requires
        alignment > 0,
        first_fit_result(m, cr3, size, alignment, s, e, r1),
        first_fit_result(m, cr3, size, alignment, s, e, r2),
    ensures
        r1 == r2,
{
    if r1 is Ok && r2 is Ok {
        let c1 = r1->Ok_0;
        let c2 = r2->Ok_0;
        if c1 < c2 {
            let k1 = choose|k: int| 0 <= k && c1 == s + #[trigger] (k * alignment);
            assert(!good_candidate(m, cr3, size, (s + k1 * alignment) as u64));
            assert(false);
        } else if c2 < c1 {
            let k2 = choose|k: int| 0 <= k && c2 == s + #[trigger] (k * alignment);
            assert(!good_candidate(m, cr3, size, (s + k2 * alignment) as u64));
            assert(false);
        }
    } else if r1 is Ok && r2 is Err {
        let c1 = r1->Ok_0;
        let k1 = choose|k: int| 0 <= k && c1 == s + #[trigger] (k * alignment);
        assert(!good_candidate(m, cr3, size, (s + k1 * alignment) as u64));
        assert(false);
    } else if r1 is Err && r2 is Ok {
        let c2 = r2->Ok_0;
        let k2 = choose|k: int| 0 <= k && c2 == s + #[trigger] (k * alignment);
        assert(!good_candidate(m, cr3, size, (s + k2 * alignment) as u64));
        assert(false);
    }
}

/// Granularity non-interference, first half: after a large page is
/// mapped at an aligned address, every standard page inside it reflects
/// that large mapping — its physical address offset into the large frame
/// and the large leaf's flag bits.
pub proof fn lemma_large_mapping_covers_subpages(
    m0: MemModel,
    m1: MemModel,
    cr3: u64,
    va: u64,
    pa: u64,
    flags: u64,
    vp: u64,
)
    requires
        va % 0x20_0000 == 0,
        pa % 0x20_0000 == 0,
        pa < PADDR_LIMIT,
        large_map_applied(m0, m1, cr3, va, pa, flags),
        va <= vp < va + 0x20_0000,
    ensures
        translate_page(m1, cr3, vp) == Some(
            Mapping {
                paddr: (pa + (vp - va)) as u64,
                flags: pte_flag_bits(leaf_entry(pa, flags, PageSize::Large)),
                size: PageSize::Large,
            },
        ),
{
    lemma_leaf_entry_decodes(pa, flags, PageSize::Large);
    assert(pa & 0x000F_FFFF_FFE0_0000u64 == pa) by (bit_vector)
        requires
            pa % 0x20_0000 == 0,
            pa < 0x10_0000_0000_0000u64,
    ;
    assert(same_large_slot(va, vp) && vp & 0x1F_FFFFu64 == vp - va) by (bit_vector)
        requires
            va % 0x20_0000 == 0,
            va <= vp,
            vp < va + 0x20_0000,
    ;
}

/// Granularity non-interference, second half: wherever a large or huge
/// leaf covers an address, the path a standard-page walk for that
/// address would take is blocked — so, by the mapping operations' own
/// contracts, mapping a standard page at a sub-address of a coarser
/// mapping fails rather than splitting the hierarchy.
pub proof fn lemma_coarse_leaf_blocks_standard(m: MemModel, cr3: u64, vp: u64)
    requires
        mem_wf(m),
        (translate_page(m, cr3, vp) matches Some(mp) && (mp.size == PageSize::Large || mp.size
            == PageSize::Huge)),
    ensures
        blocked_for_standard(m, cr3, vp),
{
    let mp = translate_page(m, cr3, vp)->Some_0;
    if mp.size == PageSize::Huge {
        assert(huge_leaf_at(m, cr3, vp));
    } else {
        assert(large_leaf_at(m, cr3, vp));
    }
}

/// The tag is one-shot: once a tag assignment has succeeded, every
/// further assignment to the same handle fails with `AlreadyTagged`,
/// whatever tag value it carries — even the same one.
pub proof fn lemma_tag_one_shot(cr3: u64, t1: u16, t2: u16)
    requires
        spec_set_pcid(cr3, t1) is Ok,
    ensures
        spec_set_pcid(spec_set_pcid(cr3, t1)->Ok_0, t2) == Err::<u64, Error>(Error::AlreadyTagged),
{
    let c1 = spec_set_pcid(cr3, t1)->Ok_0;
    assert((cr3 | t1 as u64) & 0xFFF == t1) by (bit_vector)
        requires
            cr3 & 0xFFF == 0,
            0 < t1 < 4096,
    ;
}

} // verus!
