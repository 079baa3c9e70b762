use vstd::prelude::*;

use crate::addr::{
    pd_index_of, pdpt_index_of, pml4_index_of, pt_index_of, same_huge_slot, same_large_slot,
    same_standard_slot,
};
use crate::error::Error;
use crate::page_table::{zero_table, PageTable};
use crate::pte::{
    pte_flag_bits, pte_is_leaf_size, pte_is_present, pte_paddr, Mapping, PageSize, PADDR_LIMIT,
};

verus! {

/// Mathematical model of the table arena: the frames that currently hold
/// page tables, each with the level it serves, laid out contiguously from
/// `base` up to at most `capacity` frames.
pub ghost struct MemModel {
    pub base: u64,
    pub capacity: nat,
    pub levels: Seq<u8>,
    pub tables: Seq<Seq<u64>>,
}

/// Position of the frame with physical base `pa` in the arena.
pub open spec fn frame_index(m: MemModel, pa: u64) -> int {
    (pa - m.base) / 4096
}

/// Whether `pa` is the base of a table frame the arena currently holds.
pub open spec fn has_frame(m: MemModel, pa: u64) -> bool {
    &&& pa >= m.base
    &&& (pa - m.base) % 4096 == 0
    &&& frame_index(m, pa) < m.tables.len()
}

/// The level the frame at `pa` serves (4 for a root table, 1 for the
/// lowest level).
pub open spec fn level_of(m: MemModel, pa: u64) -> u8 {
    m.levels[frame_index(m, pa)]
}

/// The entries of the frame at `pa`.
pub open spec fn table_at(m: MemModel, pa: u64) -> Seq<u64> {
    m.tables[frame_index(m, pa)]
}

/// Whether entry `k` of frame `i` links its table to a lower-level table:
/// present, without the leaf indicator, in a table above the lowest level.
pub open spec fn entry_is_intermediate(m: MemModel, i: int, k: int) -> bool {
    &&& m.levels[i] >= 2
    &&& pte_is_present(m.tables[i][k])
    &&& !pte_is_leaf_size(m.tables[i][k])
}

/// Whether the target of an intermediate entry is sound: a frame the arena
/// holds, serving exactly the next level down.
pub open spec fn entry_target_ok(m: MemModel, i: int, k: int) -> bool {
    entry_is_intermediate(m, i, k) ==> {
        &&& has_frame(m, pte_paddr(m.tables[i][k]))
        &&& m.levels[frame_index(m, pte_paddr(m.tables[i][k]))] == m.levels[i] - 1
    }
}

/// Well-formedness of the arena: geometry in range, every table 512
/// entries at a level between 1 and 4, every intermediate link sound, no
/// leaf indicator at the top level, and every frame referenced by at most
/// one intermediate entry, so the tables form a forest.
pub open spec fn mem_wf(m: MemModel) -> bool {
    &&& m.levels.len() == m.tables.len()
    &&& m.tables.len() <= m.capacity
    &&& m.base % 4096 == 0
    &&& m.base > 0
    &&& m.base + m.capacity * 4096 <= PADDR_LIMIT
    &&& forall|i: int| 0 <= i < m.tables.len() ==> (#[trigger] m.tables[i]).len() == 512
    &&& forall|i: int| 0 <= i < m.levels.len() ==> 1 <= (#[trigger] m.levels[i]) <= 4
    &&& forall|i: int, k: int|
        0 <= i < m.tables.len() && 0 <= k < 512 ==> #[trigger] entry_target_ok(m, i, k)
    &&& forall|i: int, k: int|
        0 <= i < m.tables.len() && 0 <= k < 512 && m.levels[i] == 4 && pte_is_present(
            #[trigger] m.tables[i][k],
        ) ==> !pte_is_leaf_size(m.tables[i][k])
    &&& forall|i1: int, k1: int, i2: int, k2: int|
        0 <= i1 < m.tables.len() && 0 <= k1 < 512 && 0 <= i2 < m.tables.len() && 0 <= k2 < 512 && #[trigger] entry_is_intermediate(
            m,
            i1,
            k1,
        ) && #[trigger] entry_is_intermediate(m, i2, k2) && !(i1 == i2 && k1 == k2)
            ==> pte_paddr(m.tables[i1][k1]) != pte_paddr(m.tables[i2][k2])
}

/// The physical base of the root table named by a root-register value:
/// its low twelve bits carry the tag, not address bits.
pub open spec fn root_paddr(cr3: u64) -> u64 {
    cr3 & 0xFFFF_FFFF_FFFF_F000u64
}

/// Whether the arena holds a root table for this root-register value.
pub open spec fn has_root(m: MemModel, cr3: u64) -> bool {
    &&& has_frame(m, root_paddr(cr3))
    &&& level_of(m, root_paddr(cr3)) == 4
}

/// Follows one link out of table `t` at entry `idx`, expecting a table of
/// level `lvl` below it; `None` when the entry is absent, a leaf, or does
/// not name such a table.
pub open spec fn step_down(m: MemModel, t: u64, idx: u64, lvl: u8) -> Option<u64> {
    let e = table_at(m, t)[idx as int];
    if pte_is_present(e) && !pte_is_leaf_size(e) && has_frame(m, pte_paddr(e)) && level_of(
        m,
        pte_paddr(e),
    ) == lvl {
        Some(pte_paddr(e))
    } else {
        None
    }
}

/// The root table on the path of `va`, when the root is present.
pub open spec fn pml4_of(m: MemModel, cr3: u64) -> Option<u64> {
    if has_root(m, cr3) {
        Some(root_paddr(cr3))
    } else {
        None
    }
}

/// The directory-pointer table on the path of `va`.
pub open spec fn pdpt_of(m: MemModel, cr3: u64, va: u64) -> Option<u64> {
    match pml4_of(m, cr3) {
        Some(t) => step_down(m, t, pml4_index_of(va), 3),
        None => None,
    }
}

/// The page directory on the path of `va`.
pub open spec fn pd_of(m: MemModel, cr3: u64, va: u64) -> Option<u64> {
    match pdpt_of(m, cr3, va) {
        Some(t) => step_down(m, t, pdpt_index_of(va), 2),
        None => None,
    }
}

/// The lowest-level table on the path of `va`.
pub open spec fn pt_of(m: MemModel, cr3: u64, va: u64) -> Option<u64> {
    match pd_of(m, cr3, va) {
        Some(t) => step_down(m, t, pd_index_of(va), 1),
        None => None,
    }
}

/// Whether a huge-page leaf sits on the path of `va`.
pub open spec fn huge_leaf_at(m: MemModel, cr3: u64, va: u64) -> bool {
    match pdpt_of(m, cr3, va) {
        Some(t3) => {
            let e3 = table_at(m, t3)[pdpt_index_of(va) as int];
            pte_is_present(e3) && pte_is_leaf_size(e3)
        },
        None => false,
    }
}

/// Whether a large-page leaf sits on the path of `va`.
pub open spec fn large_leaf_at(m: MemModel, cr3: u64, va: u64) -> bool {
    match pd_of(m, cr3, va) {
        Some(t2) => {
            let e2 = table_at(m, t2)[pd_index_of(va) as int];
            pte_is_present(e2) && pte_is_leaf_size(e2)
        },
        None => false,
    }
}

/// What the address space rooted at `cr3` maps `va` to: the walk a
/// processor would perform over the arena, ending at the first leaf entry,
/// or `None` where the path is incomplete or the leaf is absent.
pub open spec fn translate_page(m: MemModel, cr3: u64, va: u64) -> Option<Mapping> {
    match pdpt_of(m, cr3, va) {
        None => None,
        Some(t3) => {
            let e3 = table_at(m, t3)[pdpt_index_of(va) as int];
            if pte_is_present(e3) && pte_is_leaf_size(e3) {
                Some(
                    Mapping {
                        paddr: (pte_paddr(e3) + (va & 0x3FFF_FFFFu64)) as u64,
                        flags: pte_flag_bits(e3),
                        size: PageSize::Huge,
                    },
                )
            } else {
                match pd_of(m, cr3, va) {
                    None => None,
                    Some(t2) => {
                        let e2 = table_at(m, t2)[pd_index_of(va) as int];
                        if pte_is_present(e2) && pte_is_leaf_size(e2) {
                            Some(
                                Mapping {
                                    paddr: (pte_paddr(e2) + (va & 0x1F_FFFFu64)) as u64,
                                    flags: pte_flag_bits(e2),
                                    size: PageSize::Large,
                                },
                            )
                        } else {
                            match pt_of(m, cr3, va) {
                                None => None,
                                Some(t1) => {
                                    let e1 = table_at(m, t1)[pt_index_of(va) as int];
                                    if pte_is_present(e1) {
                                        Some(
                                            Mapping {
                                                paddr: (pte_paddr(e1) + (va & 0xFFFu64)) as u64,
                                                flags: pte_flag_bits(e1),
                                                size: PageSize::Standard,
                                            },
                                        )
                                    } else {
                                        None
                                    }
                                },
                            }
                        }
                    },
                }
            }
        },
    }
}

/// How many tables a walk to the lowest level would have to create for
/// `va`: one for each level whose table is not yet on the path.
pub open spec fn missing_for_standard(m: MemModel, cr3: u64, va: u64) -> int {
    (if pdpt_of(m, cr3, va) is Some {
        0int
    } else {
        1int
    }) + (if pd_of(m, cr3, va) is Some {
        0int
    } else {
        1int
    }) + (if pt_of(m, cr3, va) is Some {
        0int
    } else {
        1int
    })
}

/// How many tables a walk to the page-directory level would have to create.
pub open spec fn missing_for_large(m: MemModel, cr3: u64, va: u64) -> int {
    (if pdpt_of(m, cr3, va) is Some {
        0int
    } else {
        1int
    }) + (if pd_of(m, cr3, va) is Some {
        0int
    } else {
        1int
    })
}

/// How many tables a walk to the directory-pointer level would have to
/// create.
pub open spec fn missing_for_huge(m: MemModel, cr3: u64, va: u64) -> int {
    if pdpt_of(m, cr3, va) is Some {
        0int
    } else {
        1int
    }
}

/// Whether a coarser leaf already occupies the path a standard-page walk
/// for `va` would take.
pub open spec fn blocked_for_standard(m: MemModel, cr3: u64, va: u64) -> bool {
    huge_leaf_at(m, cr3, va) || large_leaf_at(m, cr3, va)
}

/// Whether a coarser leaf already occupies the path a large-page walk for
/// `va` would take.
pub open spec fn blocked_for_large(m: MemModel, cr3: u64, va: u64) -> bool {
    huge_leaf_at(m, cr3, va)
}

/// Whether two arena states have the same base and capacity.
pub open spec fn same_geometry(a: MemModel, b: MemModel) -> bool {
    a.base == b.base && a.capacity == b.capacity
}

/// Whether every address space translates every address identically in the
/// two arena states.
pub open spec fn translations_preserved(a: MemModel, b: MemModel) -> bool {
    forall|cr3: u64, va: u64| #[trigger] translate_page(b, cr3, va) == translate_page(a, cr3, va)
}

/// The four table indices of any address are below 512.
pub proof fn lemma_indices_in_range(va: u64)
    by (bit_vector)
    ensures
        pml4_index_of(va) < 512,
        pdpt_index_of(va) < 512,
        pd_index_of(va) < 512,
        pt_index_of(va) < 512,
{
}

/// Two distinct frame bases in the arena sit at distinct positions.
pub proof fn lemma_frame_index_injective(m: MemModel, a: u64, b: u64)
    requires
        has_frame(m, a),
        has_frame(m, b),
        frame_index(m, a) == frame_index(m, b),
    ensures
        a == b,
{
    let fa = frame_index(m, a);
    assert(a == m.base + fa * 4096 && b == m.base + fa * 4096) by (nonlinear_arith)
        requires
            a >= m.base,
            b >= m.base,
            (a - m.base) % 4096 == 0,
            (b - m.base) % 4096 == 0,
            fa == (a - m.base) / 4096,
            fa == (b - m.base) / 4096,
    ;
}

/// The arena with entry `idx` of the frame at `t` overwritten by `e`.
pub open spec fn with_entry(m: MemModel, t: u64, idx: u64, e: u64) -> MemModel {
    MemModel {
        tables: m.tables.update(
            frame_index(m, t),
            m.tables[frame_index(m, t)].update(idx as int, e),
        ),
        ..m
    }
}

/// In a well-formed arena the walk frames of two addresses agree exactly
/// as far as their table indices agree: distinct links lead to distinct
/// tables, because every table has at most one referencing entry.
pub proof fn lemma_walk_frames(m: MemModel, cr3: u64, a: u64, b: u64)
    requires
        mem_wf(m),
    ensures
        (pdpt_of(m, cr3, a) is Some && pdpt_of(m, cr3, b) is Some) ==> ((pdpt_of(m, cr3, a)
            == pdpt_of(m, cr3, b)) <==> pml4_index_of(a) == pml4_index_of(b)),
        (pd_of(m, cr3, a) is Some && pd_of(m, cr3, b) is Some) ==> ((pd_of(m, cr3, a) == pd_of(
            m,
            cr3,
            b,
        )) <==> same_huge_slot(a, b)),
        (pt_of(m, cr3, a) is Some && pt_of(m, cr3, b) is Some) ==> ((pt_of(m, cr3, a) == pt_of(
            m,
            cr3,
            b,
        )) <==> same_large_slot(a, b)),
{
    lemma_indices_in_range(a);
    lemma_indices_in_range(b);
    let root = root_paddr(cr3);
    if pdpt_of(m, cr3, a) is Some && pdpt_of(m, cr3, b) is Some {
        let ta = pdpt_of(m, cr3, a)->Some_0;
        let tb = pdpt_of(m, cr3, b)->Some_0;
        let ri = frame_index(m, root);
        let ka = pml4_index_of(a) as int;
        let kb = pml4_index_of(b) as int;
        assert(entry_is_intermediate(m, ri, ka));
        assert(entry_is_intermediate(m, ri, kb));
        if ka != kb {
            assert(pte_paddr(m.tables[ri][ka]) != pte_paddr(m.tables[ri][kb]));
        }
    }
    if pd_of(m, cr3, a) is Some && pd_of(m, cr3, b) is Some {
        let pa3 = pdpt_of(m, cr3, a)->Some_0;
        let pb3 = pdpt_of(m, cr3, b)->Some_0;
        let ta = pd_of(m, cr3, a)->Some_0;
        let tb = pd_of(m, cr3, b)->Some_0;
        let ia = frame_index(m, pa3);
        let ib = frame_index(m, pb3);
        let ka = pdpt_index_of(a) as int;
        let kb = pdpt_index_of(b) as int;
        assert(entry_is_intermediate(m, ia, ka));
        assert(entry_is_intermediate(m, ib, kb));
        if pa3 != pb3 {
            if ia == ib {
                lemma_frame_index_injective(m, pa3, pb3);
            }
            assert(pte_paddr(m.tables[ia][ka]) != pte_paddr(m.tables[ib][kb]));
        } else if ka != kb {
            assert(pte_paddr(m.tables[ia][ka]) != pte_paddr(m.tables[ib][kb]));
        }
    }
    if pt_of(m, cr3, a) is Some && pt_of(m, cr3, b) is Some {
        let pa2 = pd_of(m, cr3, a)->Some_0;
        let pb2 = pd_of(m, cr3, b)->Some_0;
        let ta = pt_of(m, cr3, a)->Some_0;
        let tb = pt_of(m, cr3, b)->Some_0;
        let ia = frame_index(m, pa2);
        let ib = frame_index(m, pb2);
        let ka = pd_index_of(a) as int;
        let kb = pd_index_of(b) as int;
        assert(entry_is_intermediate(m, ia, ka));
        assert(entry_is_intermediate(m, ib, kb));
        if pa2 != pb2 {
            if ia == ib {
                lemma_frame_index_injective(m, pa2, pb2);
            }
            assert(pte_paddr(m.tables[ia][ka]) != pte_paddr(m.tables[ib][kb]));
        } else if ka != kb {
            assert(pte_paddr(m.tables[ia][ka]) != pte_paddr(m.tables[ib][kb]));
        }
    }
}

/// Installing a link from an absent entry to a fresh zeroed table leaves
/// every translation of every address space as it was: paths that used to
/// stop at the absent entry now descend into a table that maps nothing.
pub proof fn lemma_install_link_preserves_translate(
    m0: MemModel,
    m1: MemModel,
    t: u64,
    idx: u64,
    e: u64,
)
    requires
        mem_wf(m0),
        has_frame(m0, t),
        2 <= level_of(m0, t),
        idx < 512,
        !pte_is_present(table_at(m0, t)[idx as int]),
        pte_is_present(e),
        !pte_is_leaf_size(e),
        has_frame(m0, pte_paddr(e)),
        pte_paddr(e) != t,
        table_at(m0, pte_paddr(e)) == zero_table(),
        m1 == with_entry(m0, t, idx, e),
    ensures
        translations_preserved(m0, m1),
{
    let fi = frame_index(m0, t);
    let child = pte_paddr(e);
    assert forall|cr3: u64, va: u64|
        #[trigger] translate_page(m1, cr3, va) == translate_page(m0, cr3, va) by {
        lemma_indices_in_range(va);
        crate::pte::lemma_clear_entry_decodes();
        if frame_index(m0, child) == fi {
            lemma_frame_index_injective(m0, child, t);
        }
        assert(table_at(m1, child) == zero_table());
    }
}

/// Writing the lowest-level entry on the path of `va` changes the
/// translation of exactly the addresses sharing that standard-page slot,
/// to whatever the new entry decodes to, and keeps the arena well-formed.
pub proof fn lemma_write_pt_entry(m0: MemModel, m1: MemModel, cr3: u64, va: u64, e: u64)
    requires
        mem_wf(m0),
        pt_of(m0, cr3, va) is Some,
        m1 == with_entry(m0, pt_of(m0, cr3, va)->Some_0, pt_index_of(va), e),
    ensures
        mem_wf(m1),
        forall|vp: u64|
            same_standard_slot(va, vp) ==> #[trigger] translate_page(m1, cr3, vp) == (
            if pte_is_present(e) {
                Some(
                    Mapping {
                        paddr: (pte_paddr(e) + (vp & 0xFFFu64)) as u64,
                        flags: pte_flag_bits(e),
                        size: PageSize::Standard,
                    },
                )
            } else {
                None
            }),
        forall|vp: u64|
            !same_standard_slot(va, vp) ==> #[trigger] translate_page(m1, cr3, vp)
                == translate_page(m0, cr3, vp),
{
    let t1 = pt_of(m0, cr3, va)->Some_0;
    let fi = frame_index(m0, t1);
    let idx = pt_index_of(va) as int;
    lemma_indices_in_range(va);
    assert(level_of(m0, t1) == 1);
    assert forall|i: int, k: int| 0 <= i < m1.tables.len() && 0 <= k < 512 implies
        #[trigger] entry_target_ok(m1, i, k) by {
        assert(entry_target_ok(m0, i, k));
    }
    assert forall|i1: int, k1: int, i2: int, k2: int|
        0 <= i1 < m1.tables.len() && 0 <= k1 < 512 && 0 <= i2 < m1.tables.len() && 0 <= k2 < 512
            && #[trigger] entry_is_intermediate(m1, i1, k1) && #[trigger] entry_is_intermediate(
            m1,
            i2,
            k2,
        ) && !(i1 == i2 && k1 == k2) implies pte_paddr(m1.tables[i1][k1]) != pte_paddr(
        m1.tables[i2][k2],
    ) by {
        assert(entry_is_intermediate(m0, i1, k1));
        assert(entry_is_intermediate(m0, i2, k2));
    }
    assert forall|vp: u64| true implies {
        &&& same_standard_slot(va, vp) ==> translate_page(m1, cr3, vp) == (
        if pte_is_present(e) {
            Some(
                Mapping {
                    paddr: (pte_paddr(e) + (vp & 0xFFFu64)) as u64,
                    flags: pte_flag_bits(e),
                    size: PageSize::Standard,
                },
            )
        } else {
            None
        })
        &&& !same_standard_slot(va, vp) ==> translate_page(m1, cr3, vp) == translate_page(
            m0,
            cr3,
            vp,
        )
    } by {
        lemma_indices_in_range(vp);
        assert(pdpt_of(m1, cr3, vp) == pdpt_of(m0, cr3, vp));
        assert(pd_of(m1, cr3, vp) == pd_of(m0, cr3, vp));
        assert(pt_of(m1, cr3, vp) == pt_of(m0, cr3, vp));
        if pt_of(m0, cr3, vp) is Some {
            lemma_walk_frames(m0, cr3, va, vp);
        }
    }
}

/// Writing the page-directory entry on the path of `va` (a large leaf or
/// a clear entry) changes the translation of exactly the addresses
/// sharing that large-page slot and keeps the arena well-formed.
pub proof fn lemma_write_pd_entry(m0: MemModel, m1: MemModel, cr3: u64, va: u64, e: u64)
    requires
        mem_wf(m0),
        pd_of(m0, cr3, va) is Some,
        pte_is_present(e) ==> pte_is_leaf_size(e),
        m1 == with_entry(m0, pd_of(m0, cr3, va)->Some_0, pd_index_of(va), e),
    ensures
        mem_wf(m1),
        forall|vp: u64|
            same_large_slot(va, vp) ==> #[trigger] translate_page(m1, cr3, vp) == (
            if pte_is_present(e) {
                Some(
                    Mapping {
                        paddr: (pte_paddr(e) + (vp & 0x1F_FFFFu64)) as u64,
                        flags: pte_flag_bits(e),
                        size: PageSize::Large,
                    },
                )
            } else {
                None
            }),
        forall|vp: u64|
            !same_large_slot(va, vp) ==> #[trigger] translate_page(m1, cr3, vp) == translate_page(
                m0,
                cr3,
                vp,
            ),
{
    let t2 = pd_of(m0, cr3, va)->Some_0;
    let fi = frame_index(m0, t2);
    let idx = pd_index_of(va) as int;
    lemma_indices_in_range(va);
    assert(level_of(m0, t2) == 2);
    assert forall|i: int, k: int| 0 <= i < m1.tables.len() && 0 <= k < 512 implies
        #[trigger] entry_target_ok(m1, i, k) by {
        assert(entry_target_ok(m0, i, k));
    }
    assert forall|i1: int, k1: int, i2: int, k2: int|
        0 <= i1 < m1.tables.len() && 0 <= k1 < 512 && 0 <= i2 < m1.tables.len() && 0 <= k2 < 512
            && #[trigger] entry_is_intermediate(m1, i1, k1) && #[trigger] entry_is_intermediate(
            m1,
            i2,
            k2,
        ) && !(i1 == i2 && k1 == k2) implies pte_paddr(m1.tables[i1][k1]) != pte_paddr(
        m1.tables[i2][k2],
    ) by {
        assert(entry_is_intermediate(m0, i1, k1));
        assert(entry_is_intermediate(m0, i2, k2));
    }
    assert forall|vp: u64| true implies {
        &&& same_large_slot(va, vp) ==> translate_page(m1, cr3, vp) == (
        if pte_is_present(e) {
            Some(
                Mapping {
                    paddr: (pte_paddr(e) + (vp & 0x1F_FFFFu64)) as u64,
                    flags: pte_flag_bits(e),
                    size: PageSize::Large,
                },
            )
        } else {
            None
        })
        &&& !same_large_slot(va, vp) ==> translate_page(m1, cr3, vp) == translate_page(m0, cr3, vp)
    } by {
        lemma_indices_in_range(vp);
        assert(pdpt_of(m1, cr3, vp) == pdpt_of(m0, cr3, vp));
        assert(pd_of(m1, cr3, vp) == pd_of(m0, cr3, vp));
        if pd_of(m0, cr3, vp) is Some {
            lemma_walk_frames(m0, cr3, va, vp);
        }
        if same_large_slot(va, vp) {
            assert(pd_of(m0, cr3, vp) == pd_of(m0, cr3, va));
            assert(table_at(m1, t2)[pd_index_of(vp) as int] == e);
        } else {
            if pd_of(m0, cr3, vp) is Some {
                if pd_of(m0, cr3, vp)->Some_0 == t2 && pd_index_of(vp) == pd_index_of(va) {
                    assert(same_large_slot(va, vp));
                }
                assert(pt_of(m1, cr3, vp) == pt_of(m0, cr3, vp));
            }
        }
    }
}

/// Writing the directory-pointer entry on the path of `va` (a huge leaf
/// or a clear entry) changes the translation of exactly the addresses
/// sharing that huge-page slot and keeps the arena well-formed.
pub proof fn lemma_write_pdpt_entry(m0: MemModel, m1: MemModel, cr3: u64, va: u64, e: u64)
    requires
        mem_wf(m0),
        pdpt_of(m0, cr3, va) is Some,
        pte_is_present(e) ==> pte_is_leaf_size(e),
        m1 == with_entry(m0, pdpt_of(m0, cr3, va)->Some_0, pdpt_index_of(va), e),
    ensures
        mem_wf(m1),
        forall|vp: u64|
            same_huge_slot(va, vp) ==> #[trigger] translate_page(m1, cr3, vp) == (
            if pte_is_present(e) {
                Some(
                    Mapping {
                        paddr: (pte_paddr(e) + (vp & 0x3FFF_FFFFu64)) as u64,
                        flags: pte_flag_bits(e),
                        size: PageSize::Huge,
                    },
                )
            } else {
                None
            }),
        forall|vp: u64|
            !same_huge_slot(va, vp) ==> #[trigger] translate_page(m1, cr3, vp) == translate_page(
                m0,
                cr3,
                vp,
            ),
{
    let t3 = pdpt_of(m0, cr3, va)->Some_0;
    let fi = frame_index(m0, t3);
    let idx = pdpt_index_of(va) as int;
    lemma_indices_in_range(va);
    assert(level_of(m0, t3) == 3);
    assert forall|i: int, k: int| 0 <= i < m1.tables.len() && 0 <= k < 512 implies
        #[trigger] entry_target_ok(m1, i, k) by {
        assert(entry_target_ok(m0, i, k));
    }
    assert forall|i1: int, k1: int, i2: int, k2: int|
        0 <= i1 < m1.tables.len() && 0 <= k1 < 512 && 0 <= i2 < m1.tables.len() && 0 <= k2 < 512
            && #[trigger] entry_is_intermediate(m1, i1, k1) && #[trigger] entry_is_intermediate(
            m1,
            i2,
            k2,
        ) && !(i1 == i2 && k1 == k2) implies pte_paddr(m1.tables[i1][k1]) != pte_paddr(
        m1.tables[i2][k2],
    ) by {
        assert(entry_is_intermediate(m0, i1, k1));
        assert(entry_is_intermediate(m0, i2, k2));
    }
    assert forall|vp: u64| true implies {
        &&& same_huge_slot(va, vp) ==> translate_page(m1, cr3, vp) == (
        if pte_is_present(e) {
            Some(
                Mapping {
                    paddr: (pte_paddr(e) + (vp & 0x3FFF_FFFFu64)) as u64,
                    flags: pte_flag_bits(e),
                    size: PageSize::Huge,
                },
            )
        } else {
            None
        })
        &&& !same_huge_slot(va, vp) ==> translate_page(m1, cr3, vp) == translate_page(m0, cr3, vp)
    } by {
        lemma_indices_in_range(vp);
        assert(pdpt_of(m1, cr3, vp) == pdpt_of(m0, cr3, vp));
        if pdpt_of(m0, cr3, vp) is Some {
            lemma_walk_frames(m0, cr3, va, vp);
        }
        if same_huge_slot(va, vp) {
            assert(pdpt_of(m0, cr3, vp) == pdpt_of(m0, cr3, va));
            assert(table_at(m1, t3)[pdpt_index_of(vp) as int] == e);
        } else {
            if pdpt_of(m0, cr3, vp) is Some {
                if pdpt_of(m0, cr3, vp)->Some_0 == t3 && pdpt_index_of(vp) == pdpt_index_of(va) {
                    assert(same_huge_slot(va, vp));
                }
                assert(pd_of(m1, cr3, vp) == pd_of(m0, cr3, vp));
                assert(pt_of(m1, cr3, vp) == pt_of(m0, cr3, vp));
            }
        }
    }
}

/// The simulated physical memory: a contiguous arena of page-table frames
/// together with the bump allocator that hands fresh zeroed frames to the
/// walker. Frames that back mapped pages are not part of the arena; only
/// the tables that describe them are. `mem_wf` is the type's invariant:
/// the constructor establishes it and every operation preserves it.
pub struct PhysicalMemory {
    base: u64,
    capacity: usize,
    levels: Vec<u8>,
    tables: Vec<PageTable>,
}

impl View for PhysicalMemory {
    type V = MemModel;

    closed spec fn view(&self) -> MemModel {
        MemModel {
            base: self.base,
            capacity: self.capacity as nat,
            levels: self.levels@,
            tables: Seq::new(self.tables@.len(), |i: int| self.tables@[i]@),
        }
    }
}

impl PhysicalMemory {
    /// A fresh arena at `base` with room for `capacity` table frames.
    /// The base must be a nonzero page-aligned address, and the whole
    /// arena must fit in the platform's physical range.
    pub fn new(base: u64, capacity: usize) -> (r: Result<PhysicalMemory, Error>)
        ensures
            (base % 4096 == 0 && base > 0 && base + capacity * 4096 <= PADDR_LIMIT) ==> (r matches
            Ok(m) && m@ == (MemModel {
                base,
                capacity: capacity as nat,
                levels: Seq::<u8>::empty(),
                tables: Seq::<Seq<u64>>::empty(),
            }) && mem_wf(m@)),
            !(base % 4096 == 0 && base > 0 && base + capacity * 4096 <= PADDR_LIMIT) ==> r == Err::<
                PhysicalMemory,
                Error,
            >(Error::InvalidArgument),
    {
        if base % 4096 == 0 && base > 0 && base <= PADDR_LIMIT && capacity as u64 <= (PADDR_LIMIT
            - base) / 4096 {
            proof {
                assert(base + capacity * 4096 <= PADDR_LIMIT) by (nonlinear_arith)
                    requires
                        capacity as u64 <= (PADDR_LIMIT - base) / 4096,
                        base <= PADDR_LIMIT,
                ;
            }
            let m = PhysicalMemory { base, capacity, levels: Vec::new(), tables: Vec::new() };
            proof {
                assert(m@.tables =~= Seq::<Seq<u64>>::empty());
            }
            Ok(m)
        } else {
            proof {
                if base % 4096 == 0 && base > 0 {
                    assert(!(base <= PADDR_LIMIT && capacity as u64 <= (PADDR_LIMIT - base) / 4096)
                        ==> base + capacity * 4096 > PADDR_LIMIT) by (nonlinear_arith);
                }
            }
            Err(Error::InvalidArgument)
        }
    }

    /// The arena's base address.
    pub fn base(&self) -> (r: u64)
        ensures
            r == self@.base,
    {
        self.base
    }

    /// How many table frames the arena currently holds.
    pub fn frame_count(&self) -> (r: usize)
        ensures
            r == self@.tables.len(),
    {
        self.tables.len()
    }

    /// Whether the arena holds a table frame at `pa` serving `level`.
    pub(crate) fn is_frame_at_level(&self, pa: u64, level: u8) -> (r: bool)
        requires
            mem_wf(self@),
        ensures
            r == (has_frame(self@, pa) && level_of(self@, pa) == level),
    {
        if pa >= self.base && (pa - self.base) % 4096 == 0 {
            let fi = (pa - self.base) / 4096;
            if fi < self.levels.len() as u64 {
                self.levels[fi as usize] == level
            } else {
                false
            }
        } else {
            false
        }
    }

    /// The level of the table frame at `pa`.
    pub(crate) fn frame_level(&self, pa: u64) -> (r: u8)
        requires
            mem_wf(self@),
            has_frame(self@, pa),
        ensures
            r == level_of(self@, pa),
    {
        let fi = (pa - self.base) / 4096;
        self.levels[fi as usize]
    }

    /// Reads entry `idx` of the table frame at `pa`.
    pub(crate) fn read_entry(&self, pa: u64, idx: usize) -> (r: u64)
        requires
            mem_wf(self@),
            has_frame(self@, pa),
            idx < 512,
        ensures
            r == table_at(self@, pa)[idx as int],
    {
        let fi = ((pa - self.base) / 4096) as usize;
        proof {
            assert(self@.tables[fi as int] == self.tables@[fi as int]@);
            assert(self@.tables[fi as int].len() == 512);
        }
        self.tables[fi].get(idx)
    }

    /// Overwrites entry `idx` of the table frame at `pa`. Restoring
    /// well-formedness is the caller's concern.
    pub(crate) fn write_entry(&mut self, pa: u64, idx: usize, e: u64)
        requires
            mem_wf(old(self)@),
            has_frame(old(self)@, pa),
            idx < 512,
        ensures
            final(self)@ == (MemModel {
                tables: old(self)@.tables.update(
                    frame_index(old(self)@, pa),
                    old(self)@.tables[frame_index(old(self)@, pa)].update(idx as int, e),
                ),
                ..old(self)@
            }),
    {
        let fi = ((pa - self.base) / 4096) as usize;
        self.tables[fi].set_entry(idx, e);
        proof {
            let m0 = old(self)@;
            assert(self@.tables =~= m0.tables.update(
                frame_index(m0, pa),
                m0.tables[frame_index(m0, pa)].update(idx as int, e),
            ));
        }
    }

    /// Hands out the next free frame as a zeroed table serving `level`, or
    /// reports exhaustion. Fresh frames never disturb what any address
    /// space already translates.
    pub(crate) fn allocate_table(&mut self, level: u8) -> (r: Result<u64, Error>)
        requires
            mem_wf(old(self)@),
            1 <= level <= 4,
        ensures
            mem_wf(final(self)@),
            same_geometry(old(self)@, final(self)@),
            translations_preserved(old(self)@, final(self)@),
            old(self)@.tables.len() < old(self)@.capacity ==> (r matches Ok(pa) && pa == old(
                self,
            )@.base + old(self)@.tables.len() * 4096 && final(self)@.levels == old(
                self,
            )@.levels.push(level) && final(self)@.tables == old(self)@.tables.push(zero_table())
                && has_frame(final(self)@, pa) && !has_frame(old(self)@, pa) && level_of(
                final(self)@,
                pa,
            ) == level && table_at(final(self)@, pa) == zero_table()),
            old(self)@.tables.len() >= old(self)@.capacity ==> r == Err::<u64, Error>(
                Error::OutOfMemory,
            ) && final(self)@ == old(self)@,
    {
        if self.tables.len() < self.capacity {
            let ghost m0 = self@;
            let n = self.tables.len();
            proof {
                assert(n * 4096 < m0.capacity * 4096 && 0 <= n * 4096) by (nonlinear_arith)
                    requires
                        0 <= n < m0.capacity,
                ;
            }
            let pa = self.base + (n as u64) * 4096;
            self.tables.push(PageTable::new());
            self.levels.push(level);
            proof {
                let m1 = self@;
                assert(m1.tables =~= m0.tables.push(zero_table()));
                assert((pa - m0.base) % 4096 == 0 && frame_index(m1, pa) == n) by (nonlinear_arith)
                    requires
                        m0.base % 4096 == 0,
                        pa == m0.base + n * 4096,
                        frame_index(m1, pa) == (pa - m0.base) / 4096,
                        m1.base == m0.base,
                ;
                assert forall|i: int, k: int|
                    0 <= i < m1.tables.len() && 0 <= k < 512 implies #[trigger] entry_target_ok(
                    m1,
                    i,
                    k,
                ) by {
                    crate::pte::lemma_clear_entry_decodes();
                    if i < m0.tables.len() {
                        assert(entry_target_ok(m0, i, k));
                    }
                }
                assert forall|i: int, k: int|
                    0 <= i < m1.tables.len() && 0 <= k < 512 && m1.levels[i] == 4 && pte_is_present(
                        #[trigger] m1.tables[i][k],
                    ) implies !pte_is_leaf_size(m1.tables[i][k]) by {
                    crate::pte::lemma_clear_entry_decodes();
                }
                assert forall|i1: int, k1: int, i2: int, k2: int|
                    0 <= i1 < m1.tables.len() && 0 <= k1 < 512 && 0 <= i2 < m1.tables.len() && 0
                        <= k2 < 512 && #[trigger] entry_is_intermediate(m1, i1, k1)
                        && #[trigger] entry_is_intermediate(m1, i2, k2) && !(i1 == i2 && k1 == k2)
                        implies pte_paddr(m1.tables[i1][k1]) != pte_paddr(m1.tables[i2][k2]) by {
                    crate::pte::lemma_clear_entry_decodes();
                    assert(entry_is_intermediate(m0, i1, k1));
                    assert(entry_is_intermediate(m0, i2, k2));
                }
                lemma_append_preserves_translate(m0, m1, level);
            }
            Ok(pa)
        } else {
            Err(Error::OutOfMemory)
        }
    }

    /// A checksum over every entry of every table frame, so a caller can
    /// observe that a failed operation has not touched the tables.
    pub fn checksum(&self) -> (r: u64)
        requires
            mem_wf(self@),
        ensures
            r == arena_checksum(self@, self@.tables.len() as int),
    {
        let mut acc: u64 = 0;
        let mut i: usize = 0;
        while i < self.tables.len()
            invariant
                mem_wf(self@),
                i <= self@.tables.len(),
                self@.tables.len() == self.tables@.len(),
                acc == arena_checksum(self@, i as int),
            decreases self@.tables.len() - i,
        {
            let t = &self.tables[i];
            proof {
                assert(t@ == self@.tables[i as int]);
                assert(self@.tables[i as int].len() == 512);
            }
            let mut tacc: u64 = 0;
            let mut j: usize = 0;
            while j < 512
                invariant
                    j <= 512,
                    t@.len() == 512,
                    tacc == table_checksum(t@, j as int),
                decreases 512 - j,
            {
                tacc = tacc ^ t.get(j);
                j = j + 1;
            }
            acc = acc ^ tacc;
            i = i + 1;
        }
        acc
    }
}

/// The exclusive-or of the first `n` entries of one table.
pub open spec fn table_checksum(t: Seq<u64>, n: int) -> u64
    decreases n,
{
    if n <= 0 {
        0
    } else {
        table_checksum(t, n - 1) ^ t[n - 1]
    }
}

/// The exclusive-or checksum over the first `n` table frames.
pub open spec fn arena_checksum(m: MemModel, n: int) -> u64
    decreases n,
{
    if n <= 0 {
        0
    } else {
        arena_checksum(m, n - 1) ^ table_checksum(m.tables[n - 1], 512)
    }
}

/// Appending a fresh zeroed table to a well-formed arena leaves every
/// translation of every address space as it was: no existing path can
/// reach the new frame, and the new frame maps nothing.
proof fn lemma_append_preserves_translate(m0: MemModel, m1: MemModel, level: u8)
    requires
        mem_wf(m0),
        m1 == (MemModel { levels: m0.levels.push(level), tables: m0.tables.push(zero_table()), ..m0
        }),
    ensures
        translations_preserved(m0, m1),
{
    assert forall|cr3: u64, va: u64|
        #[trigger] translate_page(m1, cr3, va) == translate_page(m0, cr3, va) by {
        lemma_indices_in_range(va);
        crate::pte::lemma_clear_entry_decodes();
        let nb = (m0.base + m0.tables.len() * 4096) as u64;
        assert forall|pa: u64| has_frame(m1, pa) && !has_frame(m0, pa) implies table_at(m1, pa)
            =~= zero_table() by {
            assert(frame_index(m1, pa) == m0.tables.len());
        }
    }
}

} // verus!
