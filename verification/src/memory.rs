use vstd::prelude::*;

use crate::addr::{PhysicalAddress, VirtualAddress};
use crate::cpu::{CpuContext, CpuModel};
use crate::error::Error;
use crate::page_map::{
    first_fit_result, huge_map_applied, huge_unmap_applied, large_map_applied,
    large_unmap_applied, spec_get_flags, standard_map_applied, standard_unmap_applied, MemType,
    PageMap,
};
use crate::phys_mem::{
    blocked_for_large, blocked_for_standard, has_root, mem_wf, missing_for_huge,
    missing_for_large, missing_for_standard, same_geometry, translate_page,
    translations_preserved, PhysicalMemory,
};
use crate::pte::PageSize;

verus! {

/// The interface a memory map exposes to higher-level memory managers:
/// the flag policy, activation, mapping and unmapping at the three page
/// granularities, and the free-region search. Every operation works on
/// an explicit table arena and processor context, and each method's
/// contract is the one its implementation on `PageMap` proves.
pub trait MemoryMap {
    /// The root-register value this map stands for.
    spec fn root_value(&self) -> u64;

    /// Loads the map into the processor, making it the translated
    /// address space; fails unless a tag has been assigned.
    fn load(&self, ctx: &mut CpuContext) -> (r: Result<(), Error>)
        ensures
            self.root_value() & 0xFFF != 0 ==> (r matches Ok(()) && final(ctx)@ == (CpuModel {
                cr3: self.root_value(),
                ..old(ctx)@
            })),
            self.root_value() & 0xFFF == 0 ==> r == Err::<(), Error>(Error::InvalidTag) && final(ctx)@ == old(
                ctx,
            )@,
    ;

    /// Translates a named memory-usage intent into flag bits.
    fn get_flags(mem_type: MemType) -> (r: u64)
        ensures
            r == spec_get_flags(mem_type),
    ;

    /// Maps a standard page at `vaddr` to the frame at `paddr`.
    fn map_page(
        &self,
        mem: &mut PhysicalMemory,
        vaddr: VirtualAddress,
        paddr: PhysicalAddress,
        flags: u64,
    ) -> (r: Result<(), Error>)
        requires
            mem_wf(old(mem)@),
        ensures
            mem_wf(final(mem)@),
            same_geometry(old(mem)@, final(mem)@),
            r is Err ==> translations_preserved(old(mem)@, final(mem)@),
            ({
                let m0 = old(mem)@;
                let m1 = final(mem)@;
                let cr3 = self.root_value();
                let va = vaddr@;
                &&& (va % 4096 != 0 ==> r == Err::<(), Error>(Error::InvalidVAddrAlignment) && m1
                    == m0)
                &&& (va % 4096 == 0 && va == 0 ==> r == Err::<(), Error>(Error::InvalidAddress)
                    && m1 == m0)
                &&& (va % 4096 == 0 && va != 0 ==> {
                    &&& (!has_root(m0, cr3) ==> r == Err::<(), Error>(Error::InvalidAddress) && m1
                        == m0)
                    &&& (has_root(m0, cr3) && blocked_for_standard(m0, cr3, va) ==> r == Err::<
                        (),
                        Error,
                    >(Error::InvalidAddress) && m1 == m0)
                    &&& (has_root(m0, cr3) && !blocked_for_standard(m0, cr3, va)
                        && m0.tables.len() + missing_for_standard(m0, cr3, va) > m0.capacity ==> r
                        == Err::<(), Error>(Error::OutOfMemory))
                    &&& (has_root(m0, cr3) && !blocked_for_standard(m0, cr3, va)
                        && m0.tables.len() + missing_for_standard(m0, cr3, va) <= m0.capacity ==> r
                        is Ok)
                })
                &&& (r is Ok ==> standard_map_applied(m0, m1, cr3, va, paddr@, flags))
            }),
    ;

    /// Unmaps the standard page covering `vaddr`, returning the frame
    /// that had been mapped there.
    fn unmap_page(&self, mem: &mut PhysicalMemory, vaddr: VirtualAddress) -> (r: Result<
        PhysicalAddress,
        Error,
    >)
        requires
            mem_wf(old(mem)@),
        ensures
            mem_wf(final(mem)@),
            same_geometry(old(mem)@, final(mem)@),
            ({
                let m0 = old(mem)@;
                let m1 = final(mem)@;
                let cr3 = self.root_value();
                let va = vaddr@;
                &&& (!has_root(m0, cr3) ==> r == Err::<PhysicalAddress, Error>(
                    Error::InvalidAddress,
                ) && m1 == m0)
                &&& (has_root(m0, cr3) && blocked_for_standard(m0, cr3, va) ==> r == Err::<
                    PhysicalAddress,
                    Error,
                >(Error::InvalidAddress) && m1 == m0)
                &&& (has_root(m0, cr3) && !blocked_for_standard(m0, cr3, va) && translate_page(
                    m0,
                    cr3,
                    va,
                ) is None ==> r == Err::<PhysicalAddress, Error>(Error::NotMapped) && m1 == m0)
                &&& (has_root(m0, cr3) && !blocked_for_standard(m0, cr3, va) && translate_page(
                    m0,
                    cr3,
                    va,
                ) is Some ==> {
                    let mp = translate_page(m0, cr3, va)->Some_0;
                    &&& mp.size == PageSize::Standard
                    &&& (r matches Ok(p) && p@ + (va & 0xFFFu64) == mp.paddr)
                    &&& standard_unmap_applied(m0, m1, cr3, va)
                })
            }),
    ;

    /// Maps a large page at `vaddr` to the frame at `paddr`.
    fn map_large_page(
        &self,
        mem: &mut PhysicalMemory,
        vaddr: VirtualAddress,
        paddr: PhysicalAddress,
        flags: u64,
    ) -> (r: Result<(), Error>)
        requires
            mem_wf(old(mem)@),
        ensures
            mem_wf(final(mem)@),
            same_geometry(old(mem)@, final(mem)@),
            r is Err ==> translations_preserved(old(mem)@, final(mem)@),
            ({
                let m0 = old(mem)@;
                let m1 = final(mem)@;
                let cr3 = self.root_value();
                let va = vaddr@;
                &&& (va % 0x20_0000 != 0 ==> r == Err::<(), Error>(Error::InvalidVAddrAlignment)
                    && m1 == m0)
                &&& (va % 0x20_0000 == 0 && va == 0 ==> r == Err::<(), Error>(
                    Error::InvalidAddress,
                ) && m1 == m0)
                &&& (va % 0x20_0000 == 0 && va != 0 ==> {
                    &&& (!has_root(m0, cr3) ==> r == Err::<(), Error>(Error::InvalidAddress) && m1
                        == m0)
                    &&& (has_root(m0, cr3) && blocked_for_large(m0, cr3, va) ==> r == Err::<
                        (),
                        Error,
                    >(Error::InvalidAddress) && m1 == m0)
                    &&& (has_root(m0, cr3) && !blocked_for_large(m0, cr3, va) && m0.tables.len()
                        + missing_for_large(m0, cr3, va) > m0.capacity ==> r == Err::<(), Error>(
                        Error::OutOfMemory,
                    ))
                    &&& (has_root(m0, cr3) && !blocked_for_large(m0, cr3, va) && m0.tables.len()
                        + missing_for_large(m0, cr3, va) <= m0.capacity ==> r is Ok)
                })
                &&& (r is Ok ==> large_map_applied(m0, m1, cr3, va, paddr@, flags))
            }),
    ;

    /// Unmaps the large page covering `vaddr`.
    fn unmap_large_page(&self, mem: &mut PhysicalMemory, vaddr: VirtualAddress) -> (r: Result<
        PhysicalAddress,
        Error,
    >)
        requires
            mem_wf(old(mem)@),
        ensures
            mem_wf(final(mem)@),
            same_geometry(old(mem)@, final(mem)@),
            ({
                let m0 = old(mem)@;
                let m1 = final(mem)@;
                let cr3 = self.root_value();
                let va = vaddr@;
                &&& (!has_root(m0, cr3) ==> r == Err::<PhysicalAddress, Error>(
                    Error::InvalidAddress,
                ) && m1 == m0)
                &&& (has_root(m0, cr3) && blocked_for_large(m0, cr3, va) ==> r == Err::<
                    PhysicalAddress,
                    Error,
                >(Error::InvalidAddress) && m1 == m0)
                &&& (has_root(m0, cr3) && !blocked_for_large(m0, cr3, va) && !(translate_page(
                    m0,
                    cr3,
                    va,
                ) matches Some(mp) && mp.size == PageSize::Large) ==> r == Err::<
                    PhysicalAddress,
                    Error,
                >(Error::NotMapped) && m1 == m0)
                &&& ((translate_page(m0, cr3, va) matches Some(mp) && mp.size == PageSize::Large)
                    ==> {
                    &&& (r matches Ok(p) && p@ + (va & 0x1F_FFFFu64) == translate_page(m0, cr3, va)->Some_0.paddr)
                    &&& large_unmap_applied(m0, m1, cr3, va)
                })
            }),
    ;

    /// Maps a huge page at `vaddr`; fails without huge-page support.
    fn map_huge_page(
        &self,
        mem: &mut PhysicalMemory,
        ctx: &CpuContext,
        vaddr: VirtualAddress,
        paddr: PhysicalAddress,
        flags: u64,
    ) -> (r: Result<(), Error>)
        requires
            mem_wf(old(mem)@),
        ensures
            mem_wf(final(mem)@),
            same_geometry(old(mem)@, final(mem)@),
            r is Err ==> translations_preserved(old(mem)@, final(mem)@),
            !ctx@.huge_pages_supported ==> r == Err::<(), Error>(Error::UnsupportedOperation)
                && final(mem)@ == old(mem)@,
            ({
                let m0 = old(mem)@;
                let m1 = final(mem)@;
                let cr3 = self.root_value();
                let va = vaddr@;
                ctx@.huge_pages_supported ==> {
                    &&& (va % 0x4000_0000 != 0 ==> r == Err::<(), Error>(
                        Error::InvalidVAddrAlignment,
                    ) && m1 == m0)
                    &&& (va % 0x4000_0000 == 0 && va == 0 ==> r == Err::<(), Error>(
                        Error::InvalidAddress,
                    ) && m1 == m0)
                    &&& (va % 0x4000_0000 == 0 && va != 0 ==> {
                        &&& (!has_root(m0, cr3) ==> r == Err::<(), Error>(Error::InvalidAddress)
                            && m1 == m0)
                        &&& (has_root(m0, cr3) && m0.tables.len() + missing_for_huge(m0, cr3, va)
                            > m0.capacity ==> r == Err::<(), Error>(Error::OutOfMemory))
                        &&& (has_root(m0, cr3) && m0.tables.len() + missing_for_huge(m0, cr3, va)
                            <= m0.capacity ==> r is Ok)
                    })
                    &&& (r is Ok ==> huge_map_applied(m0, m1, cr3, va, paddr@, flags))
                }
            }),
    ;

    /// Unmaps the huge page covering `vaddr`; fails without huge-page
    /// support.
    fn unmap_huge_page(
        &self,
        mem: &mut PhysicalMemory,
        ctx: &CpuContext,
        vaddr: VirtualAddress,
    ) -> (r: Result<PhysicalAddress, Error>)
        requires
            mem_wf(old(mem)@),
        ensures
            mem_wf(final(mem)@),
            same_geometry(old(mem)@, final(mem)@),
            !ctx@.huge_pages_supported ==> r == Err::<PhysicalAddress, Error>(
                Error::UnsupportedOperation,
            ) && final(mem)@ == old(mem)@,
            ({
                let m0 = old(mem)@;
                let m1 = final(mem)@;
                let cr3 = self.root_value();
                let va = vaddr@;
                ctx@.huge_pages_supported ==> {
                    &&& (!has_root(m0, cr3) ==> r == Err::<PhysicalAddress, Error>(
                        Error::InvalidAddress,
                    ) && m1 == m0)
                    &&& (has_root(m0, cr3) && !(translate_page(m0, cr3, va) matches Some(mp)
                        && mp.size == PageSize::Huge) ==> r == Err::<PhysicalAddress, Error>(
                        Error::NotMapped,
                    ) && m1 == m0)
                    &&& ((translate_page(m0, cr3, va) matches Some(mp) && mp.size
                        == PageSize::Huge) ==> {
                        &&& (r matches Ok(p) && p@ + (va & 0x3FFF_FFFFu64) == translate_page(m0, cr3, va)->Some_0.paddr)
                        &&& huge_unmap_applied(m0, m1, cr3, va)
                    })
                }
            }),
    ;

    /// First-fit search for an unmapped region of `size` bytes.
    fn find_available_region(
        &self,
        mem: &PhysicalMemory,
        size: u64,
        alignment: u64,
        start: VirtualAddress,
        end: VirtualAddress,
    ) -> (r: Result<VirtualAddress, Error>)
        requires
            mem_wf(mem@),
        ensures
            ({
                let m = mem@;
                let cr3 = self.root_value();
                let s = start@;
                let e = end@;
                &&& (size < 4096 ==> r == Err::<VirtualAddress, Error>(
                    Error::SubPageSizeNotAllowed,
                ))
                &&& (size >= 4096 && alignment < 4096 ==> r == Err::<VirtualAddress, Error>(
                    Error::InvalidArgument,
                ))
                &&& (size >= 4096 && alignment >= 4096 && s % alignment != 0 ==> r == Err::<
                    VirtualAddress,
                    Error,
                >(Error::InvalidVAddrAlignment))
                &&& (size >= 4096 && alignment >= 4096 && s % alignment == 0 ==> first_fit_result(
                    m,
                    cr3,
                    size,
                    alignment,
                    s,
                    e,
                    match r {
                        Ok(c) => Ok::<u64, Error>(c@),
                        Err(err) => Err::<u64, Error>(err),
                    },
                ))
            }),
    ;
}

impl MemoryMap for PageMap {
    open spec fn root_value(&self) -> u64 {
        self@
    }

    fn load(&self, ctx: &mut CpuContext) -> (r: Result<(), Error>) {
        PageMap::load(self, ctx)
    }

    fn get_flags(mem_type: MemType) -> (r: u64) {
        PageMap::get_flags(mem_type)
    }

    fn map_page(
        &self,
        mem: &mut PhysicalMemory,
        vaddr: VirtualAddress,
        paddr: PhysicalAddress,
        flags: u64,
    ) -> (r: Result<(), Error>) {
        PageMap::map_page(self, mem, vaddr, paddr, flags)
    }

    fn unmap_page(&self, mem: &mut PhysicalMemory, vaddr: VirtualAddress) -> (r: Result<
        PhysicalAddress,
        Error,
    >) {
        PageMap::unmap_page(self, mem, vaddr)
    }

    fn map_large_page(
        &self,
        mem: &mut PhysicalMemory,
        vaddr: VirtualAddress,
        paddr: PhysicalAddress,
        flags: u64,
    ) -> (r: Result<(), Error>) {
        PageMap::map_large_page(self, mem, vaddr, paddr, flags)
    }

    fn unmap_large_page(&self, mem: &mut PhysicalMemory, vaddr: VirtualAddress) -> (r: Result<
        PhysicalAddress,
        Error,
    >) {
        PageMap::unmap_large_page(self, mem, vaddr)
    }

    fn map_huge_page(
        &self,
        mem: &mut PhysicalMemory,
        ctx: &CpuContext,
        vaddr: VirtualAddress,
        paddr: PhysicalAddress,
        flags: u64,
    ) -> (r: Result<(), Error>) {
        PageMap::map_huge_page(self, mem, ctx, vaddr, paddr, flags)
    }

    fn unmap_huge_page(
        &self,
        mem: &mut PhysicalMemory,
        ctx: &CpuContext,
        vaddr: VirtualAddress,
    ) -> (r: Result<PhysicalAddress, Error>) {
        PageMap::unmap_huge_page(self, mem, ctx, vaddr)
    }

    fn find_available_region(
        &self,
        mem: &PhysicalMemory,
        size: u64,
        alignment: u64,
        start: VirtualAddress,
        end: VirtualAddress,
    ) -> (r: Result<VirtualAddress, Error>) {
        PageMap::find_available_region(self, mem, size, alignment, start, end)
    }
}

} // verus!
