use vstd::prelude::*;

use crate::cpu::{kept_without_tag, CpuContext, CpuModel};
use crate::addr::{
    pd_index_of, pdpt_index_of, pml4_index_of, pt_index_of, same_huge_slot, same_large_slot,
    same_standard_slot, VirtualAddress,
};
use crate::addr::PhysicalAddress;
use crate::error::Error;
use crate::page_table::zero_table;
use crate::phys_mem::{
    blocked_for_large, blocked_for_standard, frame_index, has_frame, has_root, huge_leaf_at,
    large_leaf_at, level_of, mem_wf, missing_for_huge, missing_for_large, missing_for_standard,
    pd_of, pdpt_of, pt_of, root_paddr, same_geometry, step_down, table_at, translate_page,
    translations_preserved, with_entry, MemModel, PhysicalMemory,
};
use crate::pte::{
    intermediate_entry_bits, leaf_entry, make_intermediate_entry, make_leaf_entry, pte_flag_bits,
    pte_is_leaf_size, pte_is_present, pte_paddr, Mapping, PageSize, PADDR_LIMIT, PAGE_SIZE,
    PTE_ADDR_MASK, PTE_PAGE_SIZE, PTE_PRESENT,
};

verus! {

/// Returns the table one level below `t` reached through entry `idx`,
/// creating it from a fresh zeroed frame when the entry is absent. A
/// present entry that is a coarser leaf is a conflict, not a table.
fn get_or_map_table(mem: &mut PhysicalMemory, t: u64, idx: usize, flags: u64) -> (r: Result<
    u64,
    Error,
>)
    requires
        mem_wf(old(mem)@),
        has_frame(old(mem)@, t),
        2 <= level_of(old(mem)@, t),
        idx < 512,
    ensures
        mem_wf(final(mem)@),
        same_geometry(old(mem)@, final(mem)@),
        translations_preserved(old(mem)@, final(mem)@),
        ({
            let m0 = old(mem)@;
            let m1 = final(mem)@;
            let e0 = table_at(m0, t)[idx as int];
            let child_level = (level_of(m0, t) - 1) as u8;
            match r {
                Ok(child) => {
                    &&& has_frame(m1, child)
                    &&& level_of(m1, child) == child_level
                    &&& step_down(m1, t, idx as u64, child_level) == Some(child)
                    &&& !(pte_is_present(e0) && pte_is_leaf_size(e0))
                    &&& ((pte_is_present(e0) && !pte_is_leaf_size(e0)) ==> (m1 == m0 && child
                        == pte_paddr(e0)))
                    &&& (!pte_is_present(e0) ==> {
                        &&& m0.tables.len() < m0.capacity
                        &&& m1.tables.len() == m0.tables.len() + 1
                        &&& !has_frame(m0, child)
                        &&& child == m0.base + m0.tables.len() * 4096
                        &&& table_at(m1, child) == zero_table()
                        &&& m1 == with_entry(
                            MemModel {
                                levels: m0.levels.push(child_level),
                                tables: m0.tables.push(zero_table()),
                                ..m0
                            },
                            t,
                            idx as u64,
                            intermediate_entry_bits(child, flags),
                        )
                    })
                },
                Err(err) => {
                    &&& m1 == m0
                    &&& (err == Error::OutOfMemory ==> (!pte_is_present(e0) && m0.tables.len()
                        >= m0.capacity))
                    &&& (err == Error::InvalidAddress ==> (pte_is_present(e0) && pte_is_leaf_size(
                        e0,
                    )))
                    &&& (err == Error::OutOfMemory || err == Error::InvalidAddress)
                },
            }
        }),
{
    let e = mem.read_entry(t, idx);
    if e & PTE_PRESENT == PTE_PRESENT {
        if e & PTE_PAGE_SIZE == PTE_PAGE_SIZE {
            Err(Error::InvalidAddress)
        } else {
            proof {
                let m0 = mem@;
                assert(crate::phys_mem::entry_target_ok(m0, frame_index(m0, t), idx as int));
                assert(crate::phys_mem::entry_is_intermediate(m0, frame_index(m0, t), idx as int));
            }
            Ok(e & PTE_ADDR_MASK)
        }
    } else {
        let ghost m0 = mem@;
        let level = mem.frame_level(t);
        let child = mem.allocate_table(level - 1)?;
        let ghost ma = mem@;
        let link = make_intermediate_entry(child, flags);
        proof {
            crate::pte::lemma_intermediate_entry_decodes(child, flags);
            assert((child - ma.base) % 4096 == 0 && child % 4096 == 0) by (nonlinear_arith)
                requires
                    ma.base % 4096 == 0,
                    child >= ma.base,
                    (child - ma.base) % 4096 == 0,
            ;
        }
        mem.write_entry(t, idx, link);
        proof {
            let m1 = mem@;
            let fi = frame_index(ma, t);
            assert(table_at(ma, t)[idx as int] == table_at(m0, t)[idx as int]);
            // Well-formedness: the one new entry is a sound link to the
            // fresh table; everything else carries over.
            assert forall|i: int, k: int| 0 <= i < m1.tables.len() && 0 <= k < 512 implies
                #[trigger] crate::phys_mem::entry_target_ok(m1, i, k) by {
                assert(crate::phys_mem::entry_target_ok(ma, i, k));
                if i == fi && k == idx as int {
                    assert(has_frame(m1, child));
                } else {
                    assert(m1.tables[i][k] == ma.tables[i][k]);
                }
            }
            assert forall|i: int, k: int|
                0 <= i < m1.tables.len() && 0 <= k < 512 && m1.levels[i] == 4 && pte_is_present(
                    #[trigger] m1.tables[i][k],
                ) implies !pte_is_leaf_size(m1.tables[i][k]) by {
                if !(i == fi && k == idx as int) {
                    assert(m1.tables[i][k] == ma.tables[i][k]);
                }
            }
            assert forall|i1: int, k1: int, i2: int, k2: int|
                0 <= i1 < m1.tables.len() && 0 <= k1 < 512 && 0 <= i2 < m1.tables.len() && 0 <= k2
                    < 512 && #[trigger] crate::phys_mem::entry_is_intermediate(m1, i1, k1)
                    && #[trigger] crate::phys_mem::entry_is_intermediate(m1, i2, k2) && !(i1 == i2
                    && k1 == k2) implies pte_paddr(m1.tables[i1][k1]) != pte_paddr(
                m1.tables[i2][k2],
            ) by {
                assert(frame_index(ma, child) == m0.tables.len()) by (nonlinear_arith)
                    requires
                        child == m0.base + m0.tables.len() * 4096,
                        ma.base == m0.base,
                        frame_index(ma, child) == (child - ma.base) / 4096,
                        m0.tables.len() >= 0,
                ;
                if i1 == fi && k1 == idx as int {
                    assert(m1.tables[i2][k2] == ma.tables[i2][k2]);
                    assert(crate::phys_mem::entry_is_intermediate(ma, i2, k2));
                    if i2 < m0.tables.len() {
                        assert(ma.tables[i2][k2] == m0.tables[i2][k2]);
                        assert(crate::phys_mem::entry_is_intermediate(m0, i2, k2));
                        assert(crate::phys_mem::entry_target_ok(m0, i2, k2));
                        assert(frame_index(m0, pte_paddr(m0.tables[i2][k2])) < m0.tables.len());
                    } else {
                        assert(ma.tables[i2] == zero_table());
                        crate::pte::lemma_clear_entry_decodes();
                        assert(false);
                    }
                } else if i2 == fi && k2 == idx as int {
                    assert(m1.tables[i1][k1] == ma.tables[i1][k1]);
                    assert(crate::phys_mem::entry_is_intermediate(ma, i1, k1));
                    if i1 < m0.tables.len() {
                        assert(ma.tables[i1][k1] == m0.tables[i1][k1]);
                        assert(crate::phys_mem::entry_is_intermediate(m0, i1, k1));
                        assert(crate::phys_mem::entry_target_ok(m0, i1, k1));
                        assert(frame_index(m0, pte_paddr(m0.tables[i1][k1])) < m0.tables.len());
                    } else {
                        assert(ma.tables[i1] == zero_table());
                        crate::pte::lemma_clear_entry_decodes();
                        assert(false);
                    }
                } else {
                    assert(crate::phys_mem::entry_is_intermediate(ma, i1, k1));
                    assert(crate::phys_mem::entry_is_intermediate(ma, i2, k2));
                }
            }
            assert(mem_wf(m1));
            crate::phys_mem::lemma_install_link_preserves_translate(
                ma,
                m1,
                t,
                idx as u64,
                link,
            );
            assert forall|cr3: u64, va: u64|
                #[trigger] translate_page(m1, cr3, va) == translate_page(m0, cr3, va) by {
                assert(translate_page(m1, cr3, va) == translate_page(ma, cr3, va));
                assert(translate_page(ma, cr3, va) == translate_page(m0, cr3, va));
            }
            assert(step_down(m1, t, idx as u64, (level_of(m0, t) - 1) as u8) == Some(child));
            assert(ma == (MemModel {
                levels: m0.levels.push((level_of(m0, t) - 1) as u8),
                tables: m0.tables.push(zero_table()),
                ..m0
            }));
            assert(m1 == with_entry(ma, t, idx as u64, link));
        }
        Ok(child)
    }
}

/// A transient cursor over one address space's table hierarchy: it
/// resolves a virtual address level by level, creating missing
/// intermediate tables on the way down, and remembers the table reached
/// at each level for the duration of one operation.
struct Walker<'a> {
    page_map: &'a PageMap,
    pml4: Option<u64>,
    pdpt: Option<u64>,
    pd: Option<u64>,
    pt: Option<u64>,
}

impl<'a> Walker<'a> {
    /// A fresh cursor over `page_map`, with no level resolved yet.
    fn new(page_map: &'a PageMap) -> (w: Walker<'a>)
        ensures
            w.page_map == page_map,
            w.pml4 is None,
            w.pdpt is None,
            w.pd is None,
            w.pt is None,
    {
        Self { page_map, pml4: None, pdpt: None, pd: None, pt: None }
    }

    /// Resolves the root table from the root-register value.
    fn walk_cr3(&mut self, mem: &PhysicalMemory) -> (r: Result<(), Error>)
        requires
            mem_wf(mem@),
        ensures
            final(self).page_map == old(self).page_map,
            final(self).pdpt == old(self).pdpt,
            final(self).pd == old(self).pd,
            final(self).pt == old(self).pt,
            match r {
                Ok(()) => has_root(mem@, old(self).page_map@) && final(self).pml4 == Some(
                    root_paddr(old(self).page_map@),
                ),
                Err(err) => err == Error::InvalidAddress && !has_root(mem@, old(self).page_map@)
                    && final(self).pml4 == old(self).pml4,
            },
    {
        let root = self.page_map.cr3 & 0xFFFF_FFFF_FFFF_F000u64;
        if mem.is_frame_at_level(root, 4) {
            self.pml4 = Some(root);
            Ok(())
        } else {
            Err(Error::InvalidAddress)
        }
    }
    /// Resolves the directory-pointer table on the path of `vaddr`,
    /// creating it when absent.
    fn walk_pml4(&mut self, mem: &mut PhysicalMemory, vaddr: VirtualAddress, flags: u64) -> (r:
        Result<(), Error>)
        requires
            mem_wf(old(mem)@),
        ensures
            mem_wf(final(mem)@),
            same_geometry(old(mem)@, final(mem)@),
            translations_preserved(old(mem)@, final(mem)@),
            final(self).page_map == old(self).page_map,
            final(self).pd == old(self).pd,
            final(self).pt == old(self).pt,
            ({
                let cr3 = old(self).page_map@;
                let va = vaddr@;
                let m0 = old(mem)@;
                let m1 = final(mem)@;
                match r {
                    Ok(()) => {
                        &&& has_root(m0, cr3) && has_root(m1, cr3)
                        &&& final(self).pml4 == Some(root_paddr(cr3))
                        &&& pdpt_of(m1, cr3, va) is Some
                        &&& final(self).pdpt == pdpt_of(m1, cr3, va)
                        &&& m1.tables.len() == m0.tables.len() + missing_for_huge(m0, cr3, va)
                        &&& (pdpt_of(m0, cr3, va) is Some ==> m1 == m0)
                        &&& pd_of(m1, cr3, va) == pd_of(m0, cr3, va)
                        &&& pt_of(m1, cr3, va) == pt_of(m0, cr3, va)
                        &&& huge_leaf_at(m1, cr3, va) == huge_leaf_at(m0, cr3, va)
                        &&& large_leaf_at(m1, cr3, va) == large_leaf_at(m0, cr3, va)
                    },
                    Err(err) => {
                        &&& final(self).pdpt == old(self).pdpt
                        &&& (err == Error::InvalidAddress ==> !has_root(m0, cr3) && m1 == m0)
                        &&& (err == Error::OutOfMemory ==> (has_root(m0, cr3) && pdpt_of(
                            m0,
                            cr3,
                            va,
                        ) is None && m0.tables.len() >= m0.capacity && m1 == m0))
                        &&& (err == Error::InvalidAddress || err == Error::OutOfMemory)
                    },
                }
            }),
    {
        self.walk_cr3(mem)?;
        let ghost m0 = mem@;
        let ghost cr3 = self.page_map@;
        let t4 = self.pml4.unwrap();
        proof {
            crate::phys_mem::lemma_indices_in_range(vaddr@);
            let ri = frame_index(m0, t4);
            let i4 = pml4_index_of(vaddr@) as int;
            if pte_is_present(m0.tables[ri][i4]) {
                assert(!pte_is_leaf_size(m0.tables[ri][i4]));
                assert(crate::phys_mem::entry_target_ok(m0, ri, i4));
                assert(crate::phys_mem::entry_is_intermediate(m0, ri, i4));
            }
        }
        let child = get_or_map_table(mem, t4, vaddr.pml4_index(), flags)?;
        self.pdpt = Some(child);
        proof {
            let m1 = mem@;
            let va = vaddr@;
            crate::pte::lemma_clear_entry_decodes();
            assert(pdpt_of(m1, cr3, va) == Some(child));
            if pdpt_of(m0, cr3, va) is None {
                assert(table_at(m1, child) == zero_table());
                assert(pd_of(m1, cr3, va) is None && pd_of(m0, cr3, va) is None);
                assert(!huge_leaf_at(m1, cr3, va) && !huge_leaf_at(m0, cr3, va));
                assert(!large_leaf_at(m1, cr3, va) && !large_leaf_at(m0, cr3, va));
            }
        }
        Ok(())
    }

    /// Resolves the page directory on the path of `vaddr`, creating the
    /// levels above it as needed.
    fn walk_pdpt(&mut self, mem: &mut PhysicalMemory, vaddr: VirtualAddress, flags: u64) -> (r:
        Result<(), Error>)
        requires
            mem_wf(old(mem)@),
        ensures
            mem_wf(final(mem)@),
            same_geometry(old(mem)@, final(mem)@),
            translations_preserved(old(mem)@, final(mem)@),
            final(self).page_map == old(self).page_map,
            final(self).pt == old(self).pt,
            ({
                let cr3 = old(self).page_map@;
                let va = vaddr@;
                let m0 = old(mem)@;
                let m1 = final(mem)@;
                match r {
                    Ok(()) => {
                        &&& has_root(m0, cr3) && has_root(m1, cr3)
                        &&& !huge_leaf_at(m0, cr3, va)
                        &&& final(self).pml4 == Some(root_paddr(cr3))
                        &&& pdpt_of(m1, cr3, va) is Some
                        &&& final(self).pdpt == pdpt_of(m1, cr3, va)
                        &&& pd_of(m1, cr3, va) is Some
                        &&& final(self).pd == pd_of(m1, cr3, va)
                        &&& m1.tables.len() == m0.tables.len() + missing_for_large(m0, cr3, va)
                        &&& (pd_of(m0, cr3, va) is Some ==> m1 == m0)
                        &&& pt_of(m1, cr3, va) == pt_of(m0, cr3, va)
                        &&& large_leaf_at(m1, cr3, va) == large_leaf_at(m0, cr3, va)
                    },
                    Err(err) => {
                        &&& final(self).pd == old(self).pd
                        &&& (err == Error::InvalidAddress ==> (!has_root(m0, cr3) || huge_leaf_at(
                            m0,
                            cr3,
                            va,
                        )) && m1 == m0)
                        &&& (err == Error::OutOfMemory ==> (has_root(m0, cr3) && !huge_leaf_at(
                            m0,
                            cr3,
                            va,
                        ) && m0.tables.len() + missing_for_large(m0, cr3, va) > m0.capacity))
                        &&& (err == Error::InvalidAddress || err == Error::OutOfMemory)
                    },
                }
            }),
    {
        self.walk_pml4(mem, vaddr, flags)?;
        let ghost m0 = old(mem)@;
        let ghost mid = mem@;
        let ghost cr3 = self.page_map@;
        let t3 = self.pdpt.unwrap();
        proof {
            crate::phys_mem::lemma_indices_in_range(vaddr@);
            let fi = frame_index(mid, t3);
            let i3 = pdpt_index_of(vaddr@) as int;
            if pte_is_present(mid.tables[fi][i3]) && !pte_is_leaf_size(mid.tables[fi][i3]) {
                assert(crate::phys_mem::entry_target_ok(mid, fi, i3));
                assert(crate::phys_mem::entry_is_intermediate(mid, fi, i3));
            }
        }
        let child = get_or_map_table(mem, t3, vaddr.pdpt_index(), flags)?;
        self.pd = Some(child);
        proof {
            let m1 = mem@;
            let va = vaddr@;
            crate::pte::lemma_clear_entry_decodes();
            assert(pdpt_of(m1, cr3, va) == Some(t3));
            assert(pd_of(m1, cr3, va) == Some(child));
            if pd_of(mid, cr3, va) is None {
                assert(table_at(m1, child) == zero_table());
                assert(pt_of(m1, cr3, va) is None && pt_of(mid, cr3, va) is None);
                assert(!large_leaf_at(m1, cr3, va) && !large_leaf_at(mid, cr3, va));
            }
        }
        Ok(())
    }

    /// Resolves the lowest-level table on the path of `vaddr`, creating
    /// the levels above it as needed.
    fn walk_pd(&mut self, mem: &mut PhysicalMemory, vaddr: VirtualAddress, flags: u64) -> (r:
        Result<(), Error>)
        requires
            mem_wf(old(mem)@),
        ensures
            mem_wf(final(mem)@),
            same_geometry(old(mem)@, final(mem)@),
            translations_preserved(old(mem)@, final(mem)@),
            final(self).page_map == old(self).page_map,
            ({
                let cr3 = old(self).page_map@;
                let va = vaddr@;
                let m0 = old(mem)@;
                let m1 = final(mem)@;
                match r {
                    Ok(()) => {
                        &&& has_root(m0, cr3) && has_root(m1, cr3)
                        &&& !blocked_for_standard(m0, cr3, va)
                        &&& final(self).pml4 == Some(root_paddr(cr3))
                        &&& pt_of(m1, cr3, va) is Some
                        &&& final(self).pt == pt_of(m1, cr3, va)
                        &&& m1.tables.len() == m0.tables.len() + missing_for_standard(m0, cr3, va)
                        &&& (pt_of(m0, cr3, va) is Some ==> m1 == m0)
                        &&& (pt_of(m0, cr3, va) is None ==> table_at(
                            m1,
                            pt_of(m1, cr3, va)->Some_0,
                        ) == zero_table())
                        &&& (pt_of(m0, cr3, va) is Some ==> table_at(m1, pt_of(m1, cr3, va)->Some_0)
                            == table_at(m0, pt_of(m0, cr3, va)->Some_0))
                    },
                    Err(err) => {
                        &&& final(self).pt == old(self).pt
                        &&& (err == Error::InvalidAddress ==> (!has_root(m0, cr3)
                            || blocked_for_standard(m0, cr3, va)) && m1 == m0)
                        &&& (err == Error::OutOfMemory ==> (has_root(m0, cr3)
                            && !blocked_for_standard(m0, cr3, va) && m0.tables.len()
                            + missing_for_standard(m0, cr3, va) > m0.capacity))
                        &&& (err == Error::InvalidAddress || err == Error::OutOfMemory)
                    },
                }
            }),
    {
        self.walk_pdpt(mem, vaddr, flags)?;
        let ghost m0 = old(mem)@;
        let ghost mid = mem@;
        let ghost cr3 = self.page_map@;
        let t2 = self.pd.unwrap();
        proof {
            crate::phys_mem::lemma_indices_in_range(vaddr@);
            let fi = frame_index(mid, t2);
            let i2 = pd_index_of(vaddr@) as int;
            if pte_is_present(mid.tables[fi][i2]) && !pte_is_leaf_size(mid.tables[fi][i2]) {
                assert(crate::phys_mem::entry_target_ok(mid, fi, i2));
                assert(crate::phys_mem::entry_is_intermediate(mid, fi, i2));
            }
        }
        let child = get_or_map_table(mem, t2, vaddr.pd_index(), flags)?;
        self.pt = Some(child);
        proof {
            let m1 = mem@;
            let va = vaddr@;
            crate::pte::lemma_clear_entry_decodes();
            assert(pdpt_of(m1, cr3, va) == pdpt_of(mid, cr3, va));
            assert(pd_of(m1, cr3, va) == Some(t2));
            assert(pt_of(m1, cr3, va) == Some(child));
            assert(!large_leaf_at(mid, cr3, va));
            if pt_of(mid, cr3, va) is None {
                assert(table_at(m1, child) == zero_table());
            }
        }
        Ok(())
    }
}

/// One address space: nothing but the root-register value that names it
/// in hardware — the physical base of its top-level table in the high
/// bits, its tag in the low twelve.
#[derive(Debug)]
pub struct PageMap {
    cr3: u64,
}

impl View for PageMap {
    type V = u64;

    closed spec fn view(&self) -> u64 {
        self.cr3
    }
}

/// The named memory-usage intents a caller may map with; the flag policy
/// translates each into the platform's flag bits.
#[derive(Clone, Copy, Debug, PartialEq, Eq, Structural)]
pub enum MemType {
    KernelReadWrite,
    KernelReadOnly,
    KernelReadExecute,
}

/// The flag bits each memory-usage intent stands for: kernel mappings are
/// global and write-through; only read-write mappings are writable, and
/// only executable ones omit the no-execute bit.
pub open spec fn spec_get_flags(mem_type: MemType) -> u64 {
    match mem_type {
        MemType::KernelReadWrite => crate::pte::PTE_PRESENT | crate::pte::PTE_WRITE
            | crate::pte::PTE_NO_EXECUTE | crate::pte::PTE_GLOBAL | crate::pte::PTE_WRITE_THROUGH,
        MemType::KernelReadOnly => crate::pte::PTE_PRESENT | crate::pte::PTE_NO_EXECUTE
            | crate::pte::PTE_GLOBAL | crate::pte::PTE_WRITE_THROUGH,
        MemType::KernelReadExecute => crate::pte::PTE_PRESENT | crate::pte::PTE_GLOBAL
            | crate::pte::PTE_WRITE_THROUGH,
    }
}

/// What a successful standard-page mapping of `va` to `pa` does to the
/// address space: every address of that standard slot now translates
/// through the new leaf, every other address translates as before.
pub open spec fn standard_map_applied(
    m0: MemModel,
    m1: MemModel,
    cr3: u64,
    va: u64,
    pa: u64,
    flags: u64,
) -> bool {
    &&& forall|vp: u64|
        same_standard_slot(va, vp) ==> #[trigger] translate_page(m1, cr3, vp) == Some(
            Mapping {
                paddr: (pte_paddr(leaf_entry(pa, flags, PageSize::Standard)) + (
                vp & 0xFFFu64)) as u64,
                flags: pte_flag_bits(leaf_entry(pa, flags, PageSize::Standard)),
                size: PageSize::Standard,
            },
        )
    &&& forall|vp: u64|
        !same_standard_slot(va, vp) ==> #[trigger] translate_page(m1, cr3, vp) == translate_page(
            m0,
            cr3,
            vp,
        )
}

/// What a successful large-page mapping does to the address space.
pub open spec fn large_map_applied(
    m0: MemModel,
    m1: MemModel,
    cr3: u64,
    va: u64,
    pa: u64,
    flags: u64,
) -> bool {
    &&& forall|vp: u64|
        same_large_slot(va, vp) ==> #[trigger] translate_page(m1, cr3, vp) == Some(
            Mapping {
                paddr: (pte_paddr(leaf_entry(pa, flags, PageSize::Large)) + (
                vp & 0x1F_FFFFu64)) as u64,
                flags: pte_flag_bits(leaf_entry(pa, flags, PageSize::Large)),
                size: PageSize::Large,
            },
        )
    &&& forall|vp: u64|
        !same_large_slot(va, vp) ==> #[trigger] translate_page(m1, cr3, vp) == translate_page(
            m0,
            cr3,
            vp,
        )
}

/// What a successful huge-page mapping does to the address space.
pub open spec fn huge_map_applied(
    m0: MemModel,
    m1: MemModel,
    cr3: u64,
    va: u64,
    pa: u64,
    flags: u64,
) -> bool {
    &&& forall|vp: u64|
        same_huge_slot(va, vp) ==> #[trigger] translate_page(m1, cr3, vp) == Some(
            Mapping {
                paddr: (pte_paddr(leaf_entry(pa, flags, PageSize::Huge)) + (
                vp & 0x3FFF_FFFFu64)) as u64,
                flags: pte_flag_bits(leaf_entry(pa, flags, PageSize::Huge)),
                size: PageSize::Huge,
            },
        )
    &&& forall|vp: u64|
        !same_huge_slot(va, vp) ==> #[trigger] translate_page(m1, cr3, vp) == translate_page(
            m0,
            cr3,
            vp,
        )
}

/// What a successful standard-page unmapping of `va` does: the standard
/// slot of `va` translates nothing, everything else as before.
pub open spec fn standard_unmap_applied(m0: MemModel, m1: MemModel, cr3: u64, va: u64) -> bool {
    &&& forall|vp: u64|
        same_standard_slot(va, vp) ==> #[trigger] translate_page(m1, cr3, vp) is None
    &&& forall|vp: u64|
        !same_standard_slot(va, vp) ==> #[trigger] translate_page(m1, cr3, vp) == translate_page(
            m0,
            cr3,
            vp,
        )
}

/// What a successful large-page unmapping of `va` does.
pub open spec fn large_unmap_applied(m0: MemModel, m1: MemModel, cr3: u64, va: u64) -> bool {
    &&& forall|vp: u64| same_large_slot(va, vp) ==> #[trigger] translate_page(m1, cr3, vp) is None
    &&& forall|vp: u64|
        !same_large_slot(va, vp) ==> #[trigger] translate_page(m1, cr3, vp) == translate_page(
            m0,
            cr3,
            vp,
        )
}

/// What a successful huge-page unmapping of `va` does.
pub open spec fn huge_unmap_applied(m0: MemModel, m1: MemModel, cr3: u64, va: u64) -> bool {
    &&& forall|vp: u64| same_huge_slot(va, vp) ==> #[trigger] translate_page(m1, cr3, vp) is None
    &&& forall|vp: u64|
        !same_huge_slot(va, vp) ==> #[trigger] translate_page(m1, cr3, vp) == translate_page(
            m0,
            cr3,
            vp,
        )
}

/// Whether no mapping of any granularity covers any standard page the
/// byte range `[start, start + size)` touches.
pub open spec fn range_free(m: MemModel, cr3: u64, start: u64, size: u64) -> bool {
    forall|vp: u64|
        vp % 4096 == 0 && crate::addr::page_base_of(start) <= vp && vp < start + size
            ==> #[trigger] translate_page(m, cr3, vp) is None
}

/// Whether `a` can be the base of a fresh region of `size` bytes: a
/// canonical address whose whole range is unmapped.
pub open spec fn good_candidate(m: MemModel, cr3: u64, size: u64, a: u64) -> bool {
    crate::addr::canonical(a) && range_free(m, cr3, a, size)
}

/// What the first-fit region search reports: the lowest good candidate on
/// the alignment stride from `s` that lies below `e`, or that no
/// candidate below `e` is good.
pub open spec fn first_fit_result(
    m: MemModel,
    cr3: u64,
    size: u64,
    alignment: u64,
    s: u64,
    e: u64,
    r: Result<u64, Error>,
) -> bool {
    match r {
        Ok(c) => {
            &&& (exists|k: int| 0 <= k && c == s + #[trigger] (k * alignment))
            &&& c < e
            &&& good_candidate(m, cr3, size, c)
            &&& forall|k: int|
                0 <= k && s + #[trigger] (k * alignment) < c ==> !good_candidate(
                    m,
                    cr3,
                    size,
                    (s + k * alignment) as u64,
                )
        },
        Err(err) => {
            &&& err == Error::RangeUnavailable
            &&& forall|k: int|
                0 <= k && s + #[trigger] (k * alignment) < e ==> !good_candidate(
                    m,
                    cr3,
                    size,
                    (s + k * alignment) as u64,
                )
        },
    }
}

/// What assigning a tag does to a root-register value: a tag can be
/// assigned once, must be a usable tag value (nonzero, below 4096), and
/// lands in the low twelve bits.
pub open spec fn spec_set_pcid(cr3: u64, pcid: u16) -> Result<u64, Error> {
    if cr3 & 0xFFF != 0 {
        Err(Error::AlreadyTagged)
    } else if pcid == 0 || pcid >= 4096 {
        Err(Error::InvalidTag)
    } else {
        Ok(cr3 | pcid as u64)
    }
}

impl PageMap {
    /// A fresh address space: takes one frame from the allocator for the
    /// root table and returns the handle, still untagged. The new space
    /// translates nothing.
    pub fn try_new(mem: &mut PhysicalMemory) -> (r: Result<PageMap, Error>)
        requires
            mem_wf(old(mem)@),
        ensures
            mem_wf(final(mem)@),
            same_geometry(old(mem)@, final(mem)@),
            translations_preserved(old(mem)@, final(mem)@),
            old(mem)@.tables.len() < old(mem)@.capacity ==> (r matches Ok(pm) && pm@ == old(
                mem,
            )@.base + old(mem)@.tables.len() * 4096 && pm@ < PADDR_LIMIT && pm@ & 0xFFF == 0
                && has_root(final(mem)@, pm@) && (forall|va: u64|
                #[trigger] translate_page(final(mem)@, pm@, va) is None)),
            old(mem)@.tables.len() >= old(mem)@.capacity ==> r == Err::<PageMap, Error>(
                Error::OutOfMemory,
            ) && final(mem)@ == old(mem)@,
    {
        let ghost m0 = mem@;
        let root = mem.allocate_table(4)?;
        proof {
            let m1 = mem@;
            assert(root % 4096 == 0 && root < PADDR_LIMIT) by (nonlinear_arith)
                requires
                    m0.base % 4096 == 0,
                    m0.base > 0,
                    root == m0.base + m0.tables.len() * 4096,
                    m0.tables.len() < m0.capacity,
                    m0.base + m0.capacity * 4096 <= PADDR_LIMIT,
            ;
            assert(root & 0xFFF == 0 && root & 0xFFFF_FFFF_FFFF_F000u64 == root) by (bit_vector)
                requires
                    root % 4096 == 0,
            ;
            assert(has_root(m1, root));
            assert forall|va: u64| #[trigger] translate_page(m1, root, va) is None by {
                crate::phys_mem::lemma_indices_in_range(va);
                crate::pte::lemma_clear_entry_decodes();
                assert(table_at(m1, root)[pml4_index_of(va) as int] == 0);
            }
        }
        Ok(PageMap { cr3: root })
    }

    /// Reconstructs the handle of an address space from a previously
    /// captured root-register value, checking that the address portion
    /// lies in the platform's physical range.
    pub fn from_cr3(cr3: u64) -> (r: Result<PageMap, Error>)
        ensures
            cr3 < PADDR_LIMIT ==> (r matches Ok(pm) && pm@ == cr3),
            cr3 >= PADDR_LIMIT ==> r == Err::<PageMap, Error>(Error::InvalidAddress),
    {
        if cr3 < PADDR_LIMIT {
            Ok(PageMap { cr3 })
        } else {
            Err(Error::InvalidAddress)
        }
    }

    /// The physical base of the top-level table.
    pub fn get_pml4_paddr(&self) -> (r: PhysicalAddress)
        requires
            self@ < PADDR_LIMIT,
        ensures
            r@ == root_paddr(self@),
    {
        proof {
            let c = self.cr3;
            assert(c & 0xFFFF_FFFF_FFFF_F000u64 <= c) by (bit_vector);
        }
        PhysicalAddress::from_in_range(self.cr3 & 0xFFFF_FFFF_FFFF_F000u64)
    }

    /// The address-space tag in the low twelve bits of the handle.
    pub fn get_pcid(&self) -> (r: u16)
        ensures
            r == (self@ & 0xFFF) as u16,
            r < 4096,
    {
        proof {
            let c = self.cr3;
            assert(c & 0xFFF < 4096) by (bit_vector);
        }
        (self.cr3 & 0xFFF) as u16
    }

    /// Assigns the address-space tag. One-shot by design: once a tag has
    /// been assigned the handle's identity is immutable, and a second
    /// assignment fails whatever value it carries.
    pub fn set_pcid(&mut self, pcid: u16) -> (r: Result<(), Error>)
        ensures
            match spec_set_pcid(old(self)@, pcid) {
                Ok(c) => r matches Ok(()) && final(self)@ == c && final(self)@ & 0xFFF == pcid
                    && root_paddr(final(self)@) == root_paddr(old(self)@) && (old(self)@
                    < PADDR_LIMIT ==> final(self)@ < PADDR_LIMIT),
                Err(err) => r == Err::<(), Error>(err) && final(self)@ == old(self)@,
            },
    {
        proof {
            let c = self.cr3;
            assert(c & 0xFFF < 4096) by (bit_vector);
        }
        if self.get_pcid() != 0 {
            Err(Error::AlreadyTagged)
        } else if pcid == 0 || pcid >= 4096 {
            Err(Error::InvalidTag)
        } else {
            let ghost c0 = self.cr3;
            self.cr3 = self.cr3 | pcid as u64;
            proof {
                let c1 = self.cr3;
                assert((c0 | pcid as u64) & 0xFFF == pcid && (c0 | pcid as u64)
                    & 0xFFFF_FFFF_FFFF_F000u64 == c0 & 0xFFFF_FFFF_FFFF_F000u64 && (c0
                    < 0x10_0000_0000_0000 ==> (c0 | pcid as u64) < 0x10_0000_0000_0000))
                    by (bit_vector)
                    requires
                        c0 & 0xFFF == 0,
                        0 < pcid < 4096,
                ;
            }
            Ok(())
        }
    }

    /// Loads this address space into the processor, making it the one the
    /// processor translates through. Fails unless a tag has been assigned
    /// first; tagged cache entries survive the switch.
    pub fn load(&self, ctx: &mut CpuContext) -> (r: Result<(), Error>)
        ensures
            self@ & 0xFFF != 0 ==> (r matches Ok(()) && final(ctx)@ == (CpuModel {
                cr3: self@,
                ..old(ctx)@
            })),
            self@ & 0xFFF == 0 ==> r == Err::<(), Error>(Error::InvalidTag) && final(ctx)@ == old(
                ctx,
            )@,
    {
        proof {
            let c = self.cr3;
            assert(c & 0xFFF < 4096) by (bit_vector);
        }
        if self.get_pcid() != 0 {
            ctx.set_cr3(self.cr3);
            Ok(())
        } else {
            Err(Error::InvalidTag)
        }
    }

    /// Flushes every cached translation carrying this address space's tag
    /// from the processor's translation cache.
    pub fn invalidate_pcid(&self, ctx: &mut CpuContext)
        ensures
            final(ctx)@ == (CpuModel {
                tlb: kept_without_tag(old(ctx)@.tlb, (self@ & 0xFFFu64) as u16),
                ..old(ctx)@
            }),
    {
        ctx.retain_without_tag(self.get_pcid());
    }

    /// Translates the memory-usage intents callers name into the
    /// platform's flag bits, so no caller hand-assembles raw bits.
    pub fn get_flags(mem_type: MemType) -> (r: u64)
        ensures
            r == spec_get_flags(mem_type),
    {
        match mem_type {
            MemType::KernelReadWrite => crate::pte::PTE_PRESENT | crate::pte::PTE_WRITE
                | crate::pte::PTE_NO_EXECUTE | crate::pte::PTE_GLOBAL
                | crate::pte::PTE_WRITE_THROUGH,
            MemType::KernelReadOnly => crate::pte::PTE_PRESENT | crate::pte::PTE_NO_EXECUTE
                | crate::pte::PTE_GLOBAL | crate::pte::PTE_WRITE_THROUGH,
            MemType::KernelReadExecute => crate::pte::PTE_PRESENT | crate::pte::PTE_GLOBAL
                | crate::pte::PTE_WRITE_THROUGH,
        }
    }

    /// The directory-pointer table on the path of `vaddr`, if present.
    fn pdpt_table(&self, mem: &PhysicalMemory, vaddr: VirtualAddress) -> (r: Option<u64>)
        requires
            mem_wf(mem@),
        ensures
            r == pdpt_of(mem@, self@, vaddr@),
    {
        let root = self.cr3 & 0xFFFF_FFFF_FFFF_F000u64;
        if !mem.is_frame_at_level(root, 4) {
            return None;
        }
        let e4 = mem.read_entry(root, vaddr.pml4_index());
        if e4 & PTE_PRESENT != PTE_PRESENT || e4 & PTE_PAGE_SIZE == PTE_PAGE_SIZE {
            return None;
        }
        proof {
            let m = mem@;
            let ri = frame_index(m, root);
            let i4 = pml4_index_of(vaddr@) as int;
            assert(crate::phys_mem::entry_target_ok(m, ri, i4));
            assert(crate::phys_mem::entry_is_intermediate(m, ri, i4));
        }
        Some(e4 & PTE_ADDR_MASK)
    }

    /// The page directory on the path of `vaddr`, if present.
    fn pd_table(&self, mem: &PhysicalMemory, vaddr: VirtualAddress) -> (r: Option<u64>)
        requires
            mem_wf(mem@),
        ensures
            r == pd_of(mem@, self@, vaddr@),
    {
        let t3 = match self.pdpt_table(mem, vaddr) {
            Some(t3) => t3,
            None => {
                return None;
            },
        };
        let e3 = mem.read_entry(t3, vaddr.pdpt_index());
        if e3 & PTE_PRESENT != PTE_PRESENT || e3 & PTE_PAGE_SIZE == PTE_PAGE_SIZE {
            return None;
        }
        proof {
            let m = mem@;
            let fi = frame_index(m, t3);
            let i3 = pdpt_index_of(vaddr@) as int;
            assert(crate::phys_mem::entry_target_ok(m, fi, i3));
            assert(crate::phys_mem::entry_is_intermediate(m, fi, i3));
        }
        Some(e3 & PTE_ADDR_MASK)
    }

    /// The lowest-level table on the path of `vaddr`, if present.
    fn pt_table(&self, mem: &PhysicalMemory, vaddr: VirtualAddress) -> (r: Option<u64>)
        requires
            mem_wf(mem@),
        ensures
            r == pt_of(mem@, self@, vaddr@),
    {
        let t2 = match self.pd_table(mem, vaddr) {
            Some(t2) => t2,
            None => {
                return None;
            },
        };
        let e2 = mem.read_entry(t2, vaddr.pd_index());
        if e2 & PTE_PRESENT != PTE_PRESENT || e2 & PTE_PAGE_SIZE == PTE_PAGE_SIZE {
            return None;
        }
        proof {
            let m = mem@;
            let fi = frame_index(m, t2);
            let i2 = pd_index_of(vaddr@) as int;
            assert(crate::phys_mem::entry_target_ok(m, fi, i2));
            assert(crate::phys_mem::entry_is_intermediate(m, fi, i2));
        }
        Some(e2 & PTE_ADDR_MASK)
    }

    /// What this address space currently maps `vaddr` to: the physical
    /// address it resolves to, the leaf's flag bits, and the granularity
    /// of the leaf, or nothing where no mapping covers the address.
    pub fn translate(&self, mem: &PhysicalMemory, vaddr: VirtualAddress) -> (r: Option<Mapping>)
        requires
            mem_wf(mem@),
        ensures
            r == translate_page(mem@, self@, vaddr@),
    {
        let t3 = match self.pdpt_table(mem, vaddr) {
            Some(t3) => t3,
            None => {
                return None;
            },
        };
        let e3 = mem.read_entry(t3, vaddr.pdpt_index());
        proof {
            crate::pte::lemma_pte_paddr_bounds(e3);
            crate::pte::lemma_offset_bounds(vaddr@);
        }
        if e3 & PTE_PRESENT == PTE_PRESENT && e3 & PTE_PAGE_SIZE == PTE_PAGE_SIZE {
            return Some(
                Mapping {
                    paddr: (e3 & PTE_ADDR_MASK) + (vaddr.bits() & 0x3FFF_FFFFu64),
                    flags: e3 & !PTE_ADDR_MASK,
                    size: PageSize::Huge,
                },
            );
        }
        let t2 = match self.pd_table(mem, vaddr) {
            Some(t2) => t2,
            None => {
                return None;
            },
        };
        let e2 = mem.read_entry(t2, vaddr.pd_index());
        proof {
            crate::pte::lemma_pte_paddr_bounds(e2);
            crate::pte::lemma_offset_bounds(vaddr@);
        }
        if e2 & PTE_PRESENT == PTE_PRESENT && e2 & PTE_PAGE_SIZE == PTE_PAGE_SIZE {
            return Some(
                Mapping {
                    paddr: (e2 & PTE_ADDR_MASK) + (vaddr.bits() & 0x1F_FFFFu64),
                    flags: e2 & !PTE_ADDR_MASK,
                    size: PageSize::Large,
                },
            );
        }
        let t1 = match self.pt_table(mem, vaddr) {
            Some(t1) => t1,
            None => {
                return None;
            },
        };
        let e1 = mem.read_entry(t1, vaddr.pt_index());
        proof {
            crate::pte::lemma_pte_paddr_bounds(e1);
            crate::pte::lemma_offset_bounds(vaddr@);
        }
        if e1 & PTE_PRESENT == PTE_PRESENT {
            Some(
                Mapping {
                    paddr: (e1 & PTE_ADDR_MASK) + (vaddr.bits() & 0xFFFu64),
                    flags: e1 & !PTE_ADDR_MASK,
                    size: PageSize::Standard,
                },
            )
        } else {
            None
        }
    }

    /// Maps the standard page at `vaddr` to the frame at `paddr` with the
    /// given flags. The address must be nonzero and page-aligned; missing
    /// intermediate tables are created on the way down; an existing
    /// standard mapping at the slot is overwritten, but a coarser leaf on
    /// the path is a conflict.
    pub fn map_page(
        &self,
        mem: &mut PhysicalMemory,
        vaddr: VirtualAddress,
        paddr: PhysicalAddress,
        flags: u64,
    ) -> (r: Result<(), Error>)
        requires
            mem_wf(old(mem)@),
        ensures
            mem_wf(final(mem)@),
            same_geometry(old(mem)@, final(mem)@),
            r is Err ==> translations_preserved(old(mem)@, final(mem)@),
            ({
                let m0 = old(mem)@;
                let m1 = final(mem)@;
                let cr3 = self@;
                let va = vaddr@;
                &&& (va % 4096 != 0 ==> r == Err::<(), Error>(Error::InvalidVAddrAlignment) && m1
                    == m0)
                &&& (va % 4096 == 0 && va == 0 ==> r == Err::<(), Error>(Error::InvalidAddress)
                    && m1 == m0)
                &&& (va % 4096 == 0 && va != 0 ==> {
                    &&& (!has_root(m0, cr3) ==> r == Err::<(), Error>(Error::InvalidAddress) && m1
                        == m0)
                    &&& (has_root(m0, cr3) && blocked_for_standard(m0, cr3, va) ==> r == Err::<
                        (),
                        Error,
                    >(Error::InvalidAddress) && m1 == m0)
                    &&& (has_root(m0, cr3) && !blocked_for_standard(m0, cr3, va)
                        && m0.tables.len() + missing_for_standard(m0, cr3, va) > m0.capacity ==> r
                        == Err::<(), Error>(Error::OutOfMemory))
                    &&& (has_root(m0, cr3) && !blocked_for_standard(m0, cr3, va)
                        && m0.tables.len() + missing_for_standard(m0, cr3, va) <= m0.capacity ==> r
                        is Ok)
                })
                &&& (r is Ok ==> standard_map_applied(m0, m1, cr3, va, paddr@, flags))
            }),
    {
        if !vaddr.is_aligned_to(PAGE_SIZE) {
            return Err(Error::InvalidVAddrAlignment);
        }
        if vaddr.is_null() {
            return Err(Error::InvalidAddress);
        }
        let ghost m0 = mem@;
        let mut walker = Walker::new(self);
        walker.walk_pd(mem, vaddr, flags)?;
        let pt = walker.pt.unwrap();
        let ghost mw = mem@;
        let e = make_leaf_entry(paddr.bits(), flags, PageSize::Standard);
        mem.write_entry(pt, vaddr.pt_index(), e);
        proof {
            crate::phys_mem::lemma_write_pt_entry(mw, mem@, self@, vaddr@, e);
            crate::pte::lemma_leaf_entry_decodes(paddr@, flags, PageSize::Standard);
            assert forall|vp: u64| !same_standard_slot(vaddr@, vp) implies #[trigger] translate_page(
                mem@,
                self@,
                vp,
            ) == translate_page(m0, self@, vp) by {
                assert(translate_page(mw, self@, vp) == translate_page(m0, self@, vp));
            }
        }
        Ok(())
    }

    /// Maps the large page at `vaddr` to the frame at `paddr`. The
    /// address must be nonzero and aligned to the large-page size; a huge
    /// leaf on the path is a conflict, and whatever else occupied the
    /// large-page slot is replaced, last write winning.
    pub fn map_large_page(
        &self,
        mem: &mut PhysicalMemory,
        vaddr: VirtualAddress,
        paddr: PhysicalAddress,
        flags: u64,
    ) -> (r: Result<(), Error>)
        requires
            mem_wf(old(mem)@),
        ensures
            mem_wf(final(mem)@),
            same_geometry(old(mem)@, final(mem)@),
            r is Err ==> translations_preserved(old(mem)@, final(mem)@),
            ({
                let m0 = old(mem)@;
                let m1 = final(mem)@;
                let cr3 = self@;
                let va = vaddr@;
                &&& (va % 0x20_0000 != 0 ==> r == Err::<(), Error>(Error::InvalidVAddrAlignment)
                    && m1 == m0)
                &&& (va % 0x20_0000 == 0 && va == 0 ==> r == Err::<(), Error>(
                    Error::InvalidAddress,
                ) && m1 == m0)
                &&& (va % 0x20_0000 == 0 && va != 0 ==> {
                    &&& (!has_root(m0, cr3) ==> r == Err::<(), Error>(Error::InvalidAddress) && m1
                        == m0)
                    &&& (has_root(m0, cr3) && blocked_for_large(m0, cr3, va) ==> r == Err::<
                        (),
                        Error,
                    >(Error::InvalidAddress) && m1 == m0)
                    &&& (has_root(m0, cr3) && !blocked_for_large(m0, cr3, va) && m0.tables.len()
                        + missing_for_large(m0, cr3, va) > m0.capacity ==> r == Err::<(), Error>(
                        Error::OutOfMemory,
                    ))
                    &&& (has_root(m0, cr3) && !blocked_for_large(m0, cr3, va) && m0.tables.len()
                        + missing_for_large(m0, cr3, va) <= m0.capacity ==> r is Ok)
                })
                &&& (r is Ok ==> large_map_applied(m0, m1, cr3, va, paddr@, flags))
            }),
    {
        if !vaddr.is_aligned_to(crate::pte::LARGE_PAGE_SIZE) {
            return Err(Error::InvalidVAddrAlignment);
        }
        if vaddr.is_null() {
            return Err(Error::InvalidAddress);
        }
        let ghost m0 = mem@;
        let mut walker = Walker::new(self);
        walker.walk_pdpt(mem, vaddr, flags)?;
        let pd = walker.pd.unwrap();
        let ghost mw = mem@;
        let e = make_leaf_entry(paddr.bits(), flags, PageSize::Large);
        mem.write_entry(pd, vaddr.pd_index(), e);
        proof {
            crate::pte::lemma_leaf_entry_decodes(paddr@, flags, PageSize::Large);
            crate::phys_mem::lemma_write_pd_entry(mw, mem@, self@, vaddr@, e);
            assert forall|vp: u64| !same_large_slot(vaddr@, vp) implies #[trigger] translate_page(
                mem@,
                self@,
                vp,
            ) == translate_page(m0, self@, vp) by {
                assert(translate_page(mw, self@, vp) == translate_page(m0, self@, vp));
            }
        }
        Ok(())
    }

    /// Maps the huge page at `vaddr` to the frame at `paddr`. Fails
    /// outright on a platform without huge-page support, touching
    /// nothing; otherwise the address must be nonzero and aligned to the
    /// huge-page size, and whatever occupied the huge-page slot is
    /// replaced, last write winning.
    pub fn map_huge_page(
        &self,
        mem: &mut PhysicalMemory,
        ctx: &CpuContext,
        vaddr: VirtualAddress,
        paddr: PhysicalAddress,
        flags: u64,
    ) -> (r: Result<(), Error>)
        requires
            mem_wf(old(mem)@),
        ensures
            mem_wf(final(mem)@),
            same_geometry(old(mem)@, final(mem)@),
            r is Err ==> translations_preserved(old(mem)@, final(mem)@),
            !ctx@.huge_pages_supported ==> r == Err::<(), Error>(Error::UnsupportedOperation)
                && final(mem)@ == old(mem)@,
            ({
                let m0 = old(mem)@;
                let m1 = final(mem)@;
                let cr3 = self@;
                let va = vaddr@;
                ctx@.huge_pages_supported ==> {
                    &&& (va % 0x4000_0000 != 0 ==> r == Err::<(), Error>(
                        Error::InvalidVAddrAlignment,
                    ) && m1 == m0)
                    &&& (va % 0x4000_0000 == 0 && va == 0 ==> r == Err::<(), Error>(
                        Error::InvalidAddress,
                    ) && m1 == m0)
                    &&& (va % 0x4000_0000 == 0 && va != 0 ==> {
                        &&& (!has_root(m0, cr3) ==> r == Err::<(), Error>(Error::InvalidAddress)
                            && m1 == m0)
                        &&& (has_root(m0, cr3) && m0.tables.len() + missing_for_huge(m0, cr3, va)
                            > m0.capacity ==> r == Err::<(), Error>(Error::OutOfMemory))
                        &&& (has_root(m0, cr3) && m0.tables.len() + missing_for_huge(m0, cr3, va)
                            <= m0.capacity ==> r is Ok)
                    })
                    &&& (r is Ok ==> huge_map_applied(m0, m1, cr3, va, paddr@, flags))
                }
            }),
    {
        if !ctx.huge_pages_supported() {
            return Err(Error::UnsupportedOperation);
        }
        if !vaddr.is_aligned_to(crate::pte::HUGE_PAGE_SIZE) {
            return Err(Error::InvalidVAddrAlignment);
        }
        if vaddr.is_null() {
            return Err(Error::InvalidAddress);
        }
        let ghost m0 = mem@;
        let mut walker = Walker::new(self);
        walker.walk_pml4(mem, vaddr, flags)?;
        let pdpt = walker.pdpt.unwrap();
        let ghost mw = mem@;
        let e = make_leaf_entry(paddr.bits(), flags, PageSize::Huge);
        mem.write_entry(pdpt, vaddr.pdpt_index(), e);
        proof {
            crate::pte::lemma_leaf_entry_decodes(paddr@, flags, PageSize::Huge);
            crate::phys_mem::lemma_write_pdpt_entry(mw, mem@, self@, vaddr@, e);
            assert forall|vp: u64| !same_huge_slot(vaddr@, vp) implies #[trigger] translate_page(
                mem@,
                self@,
                vp,
            ) == translate_page(m0, self@, vp) by {
                assert(translate_page(mw, self@, vp) == translate_page(m0, self@, vp));
            }
        }
        Ok(())
    }

    /// Unmaps the standard page covering `vaddr`, returning the physical
    /// frame base that had been mapped there. Unmapping where no standard
    /// mapping exists is an error, and nothing is allocated or changed on
    /// any failing path.
    pub fn unmap_page(&self, mem: &mut PhysicalMemory, vaddr: VirtualAddress) -> (r: Result<
        PhysicalAddress,
        Error,
    >)
        requires
            mem_wf(old(mem)@),
        ensures
            mem_wf(final(mem)@),
            same_geometry(old(mem)@, final(mem)@),
            ({
                let m0 = old(mem)@;
                let m1 = final(mem)@;
                let cr3 = self@;
                let va = vaddr@;
                &&& (!has_root(m0, cr3) ==> r == Err::<PhysicalAddress, Error>(
                    Error::InvalidAddress,
                ) && m1 == m0)
                &&& (has_root(m0, cr3) && blocked_for_standard(m0, cr3, va) ==> r == Err::<
                    PhysicalAddress,
                    Error,
                >(Error::InvalidAddress) && m1 == m0)
                &&& (has_root(m0, cr3) && !blocked_for_standard(m0, cr3, va) && translate_page(
                    m0,
                    cr3,
                    va,
                ) is None ==> r == Err::<PhysicalAddress, Error>(Error::NotMapped) && m1 == m0)
                &&& (has_root(m0, cr3) && !blocked_for_standard(m0, cr3, va) && translate_page(
                    m0,
                    cr3,
                    va,
                ) is Some ==> {
                    let mp = translate_page(m0, cr3, va)->Some_0;
                    &&& mp.size == PageSize::Standard
                    &&& (r matches Ok(p) && p@ + (va & 0xFFFu64) == mp.paddr)
                    &&& standard_unmap_applied(m0, m1, cr3, va)
                })
            }),
    {
        let ghost m0 = mem@;
        let root = self.cr3 & 0xFFFF_FFFF_FFFF_F000u64;
        if !mem.is_frame_at_level(root, 4) {
            return Err(Error::InvalidAddress);
        }
        let e4 = mem.read_entry(root, vaddr.pml4_index());
        if e4 & PTE_PRESENT != PTE_PRESENT || e4 & PTE_PAGE_SIZE == PTE_PAGE_SIZE {
            return Err(Error::NotMapped);
        }
        proof {
            let ri = frame_index(m0, root);
            let i4 = pml4_index_of(vaddr@) as int;
            assert(crate::phys_mem::entry_target_ok(m0, ri, i4));
            assert(crate::phys_mem::entry_is_intermediate(m0, ri, i4));
        }
        let t3 = e4 & PTE_ADDR_MASK;
        let e3 = mem.read_entry(t3, vaddr.pdpt_index());
        if e3 & PTE_PRESENT == PTE_PRESENT && e3 & PTE_PAGE_SIZE == PTE_PAGE_SIZE {
            return Err(Error::InvalidAddress);
        }
        if e3 & PTE_PRESENT != PTE_PRESENT {
            return Err(Error::NotMapped);
        }
        proof {
            let fi = frame_index(m0, t3);
            let i3 = pdpt_index_of(vaddr@) as int;
            assert(crate::phys_mem::entry_target_ok(m0, fi, i3));
            assert(crate::phys_mem::entry_is_intermediate(m0, fi, i3));
        }
        let t2 = e3 & PTE_ADDR_MASK;
        let e2 = mem.read_entry(t2, vaddr.pd_index());
        if e2 & PTE_PRESENT == PTE_PRESENT && e2 & PTE_PAGE_SIZE == PTE_PAGE_SIZE {
            return Err(Error::InvalidAddress);
        }
        if e2 & PTE_PRESENT != PTE_PRESENT {
            return Err(Error::NotMapped);
        }
        proof {
            let fi = frame_index(m0, t2);
            let i2 = pd_index_of(vaddr@) as int;
            assert(crate::phys_mem::entry_target_ok(m0, fi, i2));
            assert(crate::phys_mem::entry_is_intermediate(m0, fi, i2));
        }
        let t1 = e2 & PTE_ADDR_MASK;
        let e1 = mem.read_entry(t1, vaddr.pt_index());
        if e1 & PTE_PRESENT != PTE_PRESENT {
            return Err(Error::NotMapped);
        }
        mem.write_entry(t1, vaddr.pt_index(), 0);
        proof {
            crate::pte::lemma_clear_entry_decodes();
            crate::pte::lemma_pte_paddr_bounds(e1);
            crate::pte::lemma_offset_bounds(vaddr@);
            crate::phys_mem::lemma_write_pt_entry(m0, mem@, self@, vaddr@, 0);
        }
        Ok(PhysicalAddress::from_in_range(e1 & PTE_ADDR_MASK))
    }

    /// Unmaps the large page covering `vaddr`, returning the physical
    /// frame base that had been mapped there. A slot holding no large
    /// leaf — empty, or occupied by a lower-level table — is an error,
    /// and nothing is changed on any failing path.
    pub fn unmap_large_page(&self, mem: &mut PhysicalMemory, vaddr: VirtualAddress) -> (r: Result<
        PhysicalAddress,
        Error,
    >)
        requires
            mem_wf(old(mem)@),
        ensures
            mem_wf(final(mem)@),
            same_geometry(old(mem)@, final(mem)@),
            ({
                let m0 = old(mem)@;
                let m1 = final(mem)@;
                let cr3 = self@;
                let va = vaddr@;
                &&& (!has_root(m0, cr3) ==> r == Err::<PhysicalAddress, Error>(
                    Error::InvalidAddress,
                ) && m1 == m0)
                &&& (has_root(m0, cr3) && blocked_for_large(m0, cr3, va) ==> r == Err::<
                    PhysicalAddress,
                    Error,
                >(Error::InvalidAddress) && m1 == m0)
                &&& (has_root(m0, cr3) && !blocked_for_large(m0, cr3, va) && !(translate_page(
                    m0,
                    cr3,
                    va,
                ) matches Some(mp) && mp.size == PageSize::Large) ==> r == Err::<
                    PhysicalAddress,
                    Error,
                >(Error::NotMapped) && m1 == m0)
                &&& ((translate_page(m0, cr3, va) matches Some(mp) && mp.size == PageSize::Large)
                    ==> {
                    &&& (r matches Ok(p) && p@ + (va & 0x1F_FFFFu64) == translate_page(m0, cr3, va)->Some_0.paddr)
                    &&& large_unmap_applied(m0, m1, cr3, va)
                })
            }),
    {
        let ghost m0 = mem@;
        let root = self.cr3 & 0xFFFF_FFFF_FFFF_F000u64;
        if !mem.is_frame_at_level(root, 4) {
            return Err(Error::InvalidAddress);
        }
        let e4 = mem.read_entry(root, vaddr.pml4_index());
        if e4 & PTE_PRESENT != PTE_PRESENT || e4 & PTE_PAGE_SIZE == PTE_PAGE_SIZE {
            return Err(Error::NotMapped);
        }
        proof {
            let ri = frame_index(m0, root);
            let i4 = pml4_index_of(vaddr@) as int;
            assert(crate::phys_mem::entry_target_ok(m0, ri, i4));
            assert(crate::phys_mem::entry_is_intermediate(m0, ri, i4));
        }
        let t3 = e4 & PTE_ADDR_MASK;
        let e3 = mem.read_entry(t3, vaddr.pdpt_index());
        if e3 & PTE_PRESENT == PTE_PRESENT && e3 & PTE_PAGE_SIZE == PTE_PAGE_SIZE {
            return Err(Error::InvalidAddress);
        }
        if e3 & PTE_PRESENT != PTE_PRESENT {
            return Err(Error::NotMapped);
        }
        proof {
            let fi = frame_index(m0, t3);
            let i3 = pdpt_index_of(vaddr@) as int;
            assert(crate::phys_mem::entry_target_ok(m0, fi, i3));
            assert(crate::phys_mem::entry_is_intermediate(m0, fi, i3));
        }
        let t2 = e3 & PTE_ADDR_MASK;
        let e2 = mem.read_entry(t2, vaddr.pd_index());
        if e2 & PTE_PRESENT != PTE_PRESENT || e2 & PTE_PAGE_SIZE != PTE_PAGE_SIZE {
            return Err(Error::NotMapped);
        }
        mem.write_entry(t2, vaddr.pd_index(), 0);
        proof {
            crate::pte::lemma_clear_entry_decodes();
            crate::pte::lemma_pte_paddr_bounds(e2);
            crate::pte::lemma_offset_bounds(vaddr@);
            crate::phys_mem::lemma_write_pd_entry(m0, mem@, self@, vaddr@, 0);
        }
        Ok(PhysicalAddress::from_in_range(e2 & PTE_ADDR_MASK))
    }

    /// Unmaps the huge page covering `vaddr`, returning the physical
    /// frame base that had been mapped there. Fails outright on a
    /// platform without huge-page support, touching nothing; a slot
    /// holding no huge leaf is an error, and nothing is changed on any
    /// failing path.
    pub fn unmap_huge_page(
        &self,
        mem: &mut PhysicalMemory,
        ctx: &CpuContext,
        vaddr: VirtualAddress,
    ) -> (r: Result<PhysicalAddress, Error>)
        requires
            mem_wf(old(mem)@),
        ensures
            mem_wf(final(mem)@),
            same_geometry(old(mem)@, final(mem)@),
            !ctx@.huge_pages_supported ==> r == Err::<PhysicalAddress, Error>(
                Error::UnsupportedOperation,
            ) && final(mem)@ == old(mem)@,
            ({
                let m0 = old(mem)@;
                let m1 = final(mem)@;
                let cr3 = self@;
                let va = vaddr@;
                ctx@.huge_pages_supported ==> {
                    &&& (!has_root(m0, cr3) ==> r == Err::<PhysicalAddress, Error>(
                        Error::InvalidAddress,
                    ) && m1 == m0)
                    &&& (has_root(m0, cr3) && !(translate_page(m0, cr3, va) matches Some(mp)
                        && mp.size == PageSize::Huge) ==> r == Err::<PhysicalAddress, Error>(
                        Error::NotMapped,
                    ) && m1 == m0)
                    &&& ((translate_page(m0, cr3, va) matches Some(mp) && mp.size
                        == PageSize::Huge) ==> {
                        &&& (r matches Ok(p) && p@ + (va & 0x3FFF_FFFFu64) == translate_page(m0, cr3, va)->Some_0.paddr)
                        &&& huge_unmap_applied(m0, m1, cr3, va)
                    })
                }
            }),
    {
        if !ctx.huge_pages_supported() {
            return Err(Error::UnsupportedOperation);
        }
        let ghost m0 = mem@;
        let root = self.cr3 & 0xFFFF_FFFF_FFFF_F000u64;
        if !mem.is_frame_at_level(root, 4) {
            return Err(Error::InvalidAddress);
        }
        let e4 = mem.read_entry(root, vaddr.pml4_index());
        if e4 & PTE_PRESENT != PTE_PRESENT || e4 & PTE_PAGE_SIZE == PTE_PAGE_SIZE {
            return Err(Error::NotMapped);
        }
        proof {
            let ri = frame_index(m0, root);
            let i4 = pml4_index_of(vaddr@) as int;
            assert(crate::phys_mem::entry_target_ok(m0, ri, i4));
            assert(crate::phys_mem::entry_is_intermediate(m0, ri, i4));
        }
        let t3 = e4 & PTE_ADDR_MASK;
        let e3 = mem.read_entry(t3, vaddr.pdpt_index());
        if e3 & PTE_PRESENT != PTE_PRESENT || e3 & PTE_PAGE_SIZE != PTE_PAGE_SIZE {
            return Err(Error::NotMapped);
        }
        mem.write_entry(t3, vaddr.pdpt_index(), 0);
        proof {
            crate::pte::lemma_clear_entry_decodes();
            crate::pte::lemma_pte_paddr_bounds(e3);
            crate::pte::lemma_offset_bounds(vaddr@);
            crate::phys_mem::lemma_write_pdpt_entry(m0, mem@, self@, vaddr@, 0);
        }
        Ok(PhysicalAddress::from_in_range(e3 & PTE_ADDR_MASK))
    }

    /// Whether any leaf of any granularity covers the standard page at
    /// `vp` (given as a raw page base rather than a canonical address, so
    /// the scan can probe the whole index space).
    fn is_page_mapped(&self, mem: &PhysicalMemory, vp: u64) -> (r: bool)
        requires
            mem_wf(mem@),
        ensures
            r == (translate_page(mem@, self@, vp) is Some),
    {
        proof {
            crate::phys_mem::lemma_indices_in_range(vp);
        }
        let m = mem;
        let root = self.cr3 & 0xFFFF_FFFF_FFFF_F000u64;
        if !m.is_frame_at_level(root, 4) {
            return false;
        }
        let e4 = m.read_entry(root, ((vp >> 39) & 0x1FF) as usize);
        if e4 & PTE_PRESENT != PTE_PRESENT || e4 & PTE_PAGE_SIZE == PTE_PAGE_SIZE {
            return false;
        }
        proof {
            assert(crate::phys_mem::entry_target_ok(
                mem@,
                frame_index(mem@, root),
                pml4_index_of(vp) as int,
            ));
            assert(crate::phys_mem::entry_is_intermediate(
                mem@,
                frame_index(mem@, root),
                pml4_index_of(vp) as int,
            ));
        }
        let t3 = e4 & PTE_ADDR_MASK;
        let e3 = m.read_entry(t3, ((vp >> 30) & 0x1FF) as usize);
        if e3 & PTE_PRESENT != PTE_PRESENT {
            return false;
        }
        if e3 & PTE_PAGE_SIZE == PTE_PAGE_SIZE {
            return true;
        }
        proof {
            assert(crate::phys_mem::entry_target_ok(
                mem@,
                frame_index(mem@, t3),
                pdpt_index_of(vp) as int,
            ));
            assert(crate::phys_mem::entry_is_intermediate(
                mem@,
                frame_index(mem@, t3),
                pdpt_index_of(vp) as int,
            ));
        }
        let t2 = e3 & PTE_ADDR_MASK;
        let e2 = m.read_entry(t2, ((vp >> 21) & 0x1FF) as usize);
        if e2 & PTE_PRESENT != PTE_PRESENT {
            return false;
        }
        if e2 & PTE_PAGE_SIZE == PTE_PAGE_SIZE {
            return true;
        }
        proof {
            assert(crate::phys_mem::entry_target_ok(
                mem@,
                frame_index(mem@, t2),
                pd_index_of(vp) as int,
            ));
            assert(crate::phys_mem::entry_is_intermediate(
                mem@,
                frame_index(mem@, t2),
                pd_index_of(vp) as int,
            ));
        }
        let t1 = e2 & PTE_ADDR_MASK;
        let e1 = m.read_entry(t1, ((vp >> 12) & 0x1FF) as usize);
        e1 & PTE_PRESENT == PTE_PRESENT
    }

    /// Whether every standard page the byte range `[start, start + size)`
    /// touches is currently unmapped across all levels.
    pub fn is_range_available(&self, mem: &PhysicalMemory, start: VirtualAddress, size: u64) -> (r:
        bool)
        requires
            mem_wf(mem@),
        ensures
            r == range_free(mem@, self@, start@, size),
    {
        let s = start.bits();
        let base = s & 0xFFFF_FFFF_FFFF_F000u64;
        let off = s & 0xFFFu64;
        proof {
            assert(base % 4096 == 0 && base + off == s && off < 4096 && base
                == crate::addr::page_base_of(s)) by (bit_vector)
                requires
                    base == s & 0xFFFF_FFFF_FFFF_F000u64,
                    off == s & 0xFFFu64,
            ;
        }
        let cnt_full: u128 = ((off as u128) + (size as u128) + 4095) / 4096;
        let max_cnt: u128 = (((u64::MAX - base) as u128) + 1) / 4096;
        let cnt: u64 = if cnt_full > max_cnt {
            max_cnt as u64
        } else {
            cnt_full as u64
        };
        proof {
            vstd::arithmetic::div_mod::lemma_fundamental_div_mod(off + size + 4095, 4096);
            vstd::arithmetic::div_mod::lemma_mod_bound(off + size + 4095, 4096);
            vstd::arithmetic::div_mod::lemma_fundamental_div_mod(
                0x1_0000_0000_0000_0000 - base,
                4096,
            );
            vstd::arithmetic::div_mod::lemma_mod_bound(0x1_0000_0000_0000_0000 - base, 4096);
            assert((0x1_0000_0000_0000_0000 - base) % 4096 == 0) by (nonlinear_arith)
                requires
                    base % 4096 == 0,
                    base < 0x1_0000_0000_0000_0000,
            ;
        }
        let ghost cntf = cnt_full as int;
        let ghost cm = max_cnt as int;
        let mut i: u64 = 0;
        while i < cnt
            invariant
                mem_wf(mem@),
                i <= cnt,
                base % 4096 == 0,
                base + off == start@,
                off < 4096,
                base == crate::addr::page_base_of(start@),
                cntf == (off + size + 4095) / 4096,
                cntf * 4096 >= off + size,
                cm * 4096 == 0x1_0000_0000_0000_0000 - base,
                cnt == (if cntf > cm {
                    cm
                } else {
                    cntf
                }),
                forall|vp: u64|
                    vp % 4096 == 0 && base <= vp && vp < base + i * 4096
                        ==> #[trigger] translate_page(mem@, self@, vp) is None,
            decreases cnt - i,
        {
            proof {
                assert(i * 4096 < cnt * 4096 && (i + 1) * 4096 <= cnt * 4096 && i * 4096 >= 0)
                    by (nonlinear_arith)
                    requires
                        0 <= i < cnt,
                ;
                assert(cnt * 4096 <= cm * 4096) by (nonlinear_arith)
                    requires
                        cnt <= cm,
                ;
            }
            let vp = base + i * 4096;
            if self.is_page_mapped(mem, vp) {
                proof {
                    assert(vp % 4096 == 0) by (nonlinear_arith)
                        requires
                            base % 4096 == 0,
                            vp == base + i * 4096,
                    ;
                    assert(i * 4096 <= (cntf - 1) * 4096) by (nonlinear_arith)
                        requires
                            i < cntf,
                    ;
                    assert((cntf - 1) * 4096 < off + size) by (nonlinear_arith)
                        requires
                            cntf == (off + size + 4095) / 4096,
                            cntf * 4096 >= off + size,
                            off + size >= 0,
                            (off + size + 4095) == 4096 * cntf + (off + size + 4095) % 4096,
                            0 <= (off + size + 4095) % 4096 < 4096,
                    ;
                    assert(vp < start@ + size);
                }
                return false;
            }
            i = i + 1;
        }
        proof {
            assert forall|vp: u64|
                vp % 4096 == 0 && crate::addr::page_base_of(start@) <= vp && vp < start@
                    + size implies #[trigger] translate_page(mem@, self@, vp) is None by {
                if cnt == cm {
                    assert(vp < base + cnt * 4096);
                } else {
                    assert(vp < base + cnt * 4096);
                }
            }
        }
        true
    }

    /// Finds the lowest suitably aligned base in `[start, end)` at which
    /// a fresh region of `size` bytes would overlap no existing mapping:
    /// a first-fit scan at `alignment` stride. The size and alignment
    /// must each be at least one page, and `start` must be aligned.
    pub fn find_available_region(
        &self,
        mem: &PhysicalMemory,
        size: u64,
        alignment: u64,
        start: VirtualAddress,
        end: VirtualAddress,
    ) -> (r: Result<VirtualAddress, Error>)
        requires
            mem_wf(mem@),
        ensures
            ({
                let m = mem@;
                let cr3 = self@;
                let s = start@;
                let e = end@;
                &&& (size < 4096 ==> r == Err::<VirtualAddress, Error>(
                    Error::SubPageSizeNotAllowed,
                ))
                &&& (size >= 4096 && alignment < 4096 ==> r == Err::<VirtualAddress, Error>(
                    Error::InvalidArgument,
                ))
                &&& (size >= 4096 && alignment >= 4096 && s % alignment != 0 ==> r == Err::<
                    VirtualAddress,
                    Error,
                >(Error::InvalidVAddrAlignment))
                &&& (size >= 4096 && alignment >= 4096 && s % alignment == 0 ==> first_fit_result(
                    m,
                    cr3,
                    size,
                    alignment,
                    s,
                    e,
                    match r {
                        Ok(c) => Ok::<u64, Error>(c@),
                        Err(err) => Err::<u64, Error>(err),
                    },
                ))
            }),
    {
        if size < 4096 {
            return Err(Error::SubPageSizeNotAllowed);
        }
        if alignment < 4096 {
            return Err(Error::InvalidArgument);
        }
        if !start.is_aligned_to(alignment) {
            return Err(Error::InvalidVAddrAlignment);
        }
        let mut addr = start.aligned_after(alignment);
        let endb = end.bits();
        let ghost mut k: int = 0;
        while addr < endb
            invariant
                mem_wf(mem@),
                size >= 4096,
                alignment >= 4096,
                start@ % alignment == 0,
                k >= 0,
                addr == start@ + k * alignment,
                forall|j: int|
                    0 <= j < k ==> !good_candidate(
                        mem@,
                        self@,
                        size,
                        (start@ + #[trigger] (j * alignment)) as u64,
                    ),
                endb == end@,
            decreases endb + alignment - addr,
        {
            let canonical_here = addr >> 47 == 0 || addr >> 47 == 0x1_FFFF;
            let available = if canonical_here {
                let va = VirtualAddress::from_canonical(addr);
                self.is_range_available(mem, va, size)
            } else {
                false
            };
            if available {
                proof {
                    assert forall|j: int| 0 <= j && start@ + #[trigger] (j * alignment) < addr implies j < k by {
                        assert(j * alignment < k * alignment ==> j < k) by (nonlinear_arith)
                            requires
                                alignment > 0,
                        ;
                    }
                    assert(exists|kk: int|
                        0 <= kk && addr == start@ + #[trigger] (kk * alignment));
                    assert(crate::addr::canonical(addr));
                }
                return Ok(VirtualAddress::from_canonical(addr));
            }
            proof {
                assert((start@ + k * alignment) as u64 == addr);
                assert(!good_candidate(mem@, self@, size, addr));
                k = k + 1;
                assert((k - 1) * alignment + alignment == k * alignment) by (nonlinear_arith);
                assert forall|j: int| 0 <= j < k implies !good_candidate(
                    mem@,
                    self@,
                    size,
                    (start@ + #[trigger] (j * alignment)) as u64,
                ) by {
                    if j == k - 1 {
                        assert((start@ + j * alignment) as u64 == addr);
                    }
                }
            }
            match addr.checked_add(alignment) {
                Some(next) => {
                    addr = next;
                },
                None => {
                    proof {
                        assert forall|j: int| 0 <= j && start@ + #[trigger] (j * alignment) < end@ implies j
                            < k by {
                            assert(j * alignment < k * alignment ==> j < k) by (nonlinear_arith)
                                requires
                                    alignment > 0,
                            ;
                            assert((k - 1) * alignment + alignment == k * alignment)
                                by (nonlinear_arith);
                        }
                    }
                    return Err(Error::RangeUnavailable);
                },
            }
        }
        proof {
            assert forall|j: int| 0 <= j && start@ + #[trigger] (j * alignment) < end@ implies j < k by {
                assert(j * alignment < k * alignment ==> j < k) by (nonlinear_arith)
                    requires
                        alignment > 0,
                ;
            }
        }
        Err(Error::RangeUnavailable)
    }
}

} // verus!
