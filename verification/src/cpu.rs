use vstd::prelude::*;

use crate::addr::{page_base_of, VirtualAddress};

verus! {

/// The two halves of a machine-specific register value.
pub struct MSRResponse {
    pub eax: u32,
    pub edx: u32,
}

/// One cached translation in the simulated translation cache: the tag of
/// the address space it belongs to and the base of the page it covers.
#[derive(Clone, Copy, Debug, PartialEq, Eq, Structural)]
pub struct TlbEntry {
    pub pcid: u16,
    pub vpage: u64,
}

/// Mathematical model of one processor's context.
pub ghost struct CpuModel {
    pub huge_pages_supported: bool,
    pub cr3: u64,
    pub tlb: Seq<TlbEntry>,
}

/// The cache entries that survive dropping every entry of one tag.
pub open spec fn kept_without_tag(s: Seq<TlbEntry>, pcid: u16) -> Seq<TlbEntry>
    decreases s.len(),
{
    if s.len() == 0 {
        Seq::empty()
    } else {
        let prefix = kept_without_tag(s.drop_last(), pcid);
        if s.last().pcid == pcid {
            prefix
        } else {
            prefix.push(s.last())
        }
    }
}

/// The cache entries that survive dropping one page of one tag.
pub open spec fn kept_without_page(s: Seq<TlbEntry>, pcid: u16, vpage: u64) -> Seq<TlbEntry>
    decreases s.len(),
{
    if s.len() == 0 {
        Seq::empty()
    } else {
        let prefix = kept_without_page(s.drop_last(), pcid, vpage);
        if s.last().pcid == pcid && s.last().vpage == vpage {
            prefix
        } else {
            prefix.push(s.last())
        }
    }
}

/// One logical processor's context, passed explicitly into every
/// activation and invalidation call: whether the processor supports huge
/// pages, the root-register value it currently translates through, and a
/// model of its translation cache.
pub struct CpuContext {
    huge_pages_supported: bool,
    cr3: u64,
    tlb: Vec<TlbEntry>,
}

impl View for CpuContext {
    type V = CpuModel;

    closed spec fn view(&self) -> CpuModel {
        CpuModel { huge_pages_supported: self.huge_pages_supported, cr3: self.cr3, tlb: self.tlb@ }
    }
}

impl CpuContext {
    /// A processor that has translated nothing yet, with the given
    /// huge-page capability.
    pub fn new(huge_pages_supported: bool) -> (r: CpuContext)
        ensures
            r@.huge_pages_supported == huge_pages_supported,
            r@.cr3 == 0,
            r@.tlb == Seq::<TlbEntry>::empty(),
    {
        CpuContext { huge_pages_supported, cr3: 0, tlb: Vec::new() }
    }

    /// Whether this processor supports huge pages.
    pub fn huge_pages_supported(&self) -> (r: bool)
        ensures
            r == self@.huge_pages_supported,
    {
        self.huge_pages_supported
    }

    /// Simulates the processor caching a translation for the page
    /// containing `vaddr` under the given tag.
    pub fn record_translation(&mut self, pcid: u16, vaddr: VirtualAddress)
        ensures
            final(self)@.tlb == old(self)@.tlb.push(
                TlbEntry { pcid, vpage: page_base_of(vaddr@) },
            ),
            final(self)@.cr3 == old(self)@.cr3,
            final(self)@.huge_pages_supported == old(self)@.huge_pages_supported,
    {
        let vpage = vaddr.bits() & 0xFFFF_FFFF_FFFF_F000u64;
        self.tlb.push(TlbEntry { pcid, vpage });
    }

    /// Whether the cache holds an entry for this tag and the page
    /// containing `vaddr`.
    pub fn tlb_contains(&self, pcid: u16, vaddr: VirtualAddress) -> (r: bool)
        ensures
            r == self@.tlb.contains(TlbEntry { pcid, vpage: page_base_of(vaddr@) }),
    {
        let target = TlbEntry { pcid, vpage: vaddr.bits() & 0xFFFF_FFFF_FFFF_F000u64 };
        let mut i: usize = 0;
        while i < self.tlb.len()
            invariant
                i <= self.tlb.len(),
                target == (TlbEntry { pcid, vpage: page_base_of(vaddr@) }),
                forall|j: int| 0 <= j < i ==> self@.tlb[j] != target,
            decreases self.tlb.len() - i,
        {
            if self.tlb[i] == target {
                proof {
                    assert(self@.tlb[i as int] == target);
                    assert(self@.tlb.contains(TlbEntry { pcid, vpage: page_base_of(vaddr@) }));
                }
                return true;
            }
            i = i + 1;
        }
        false
    }

    /// How many translations the cache currently holds.
    pub fn tlb_len(&self) -> (r: usize)
        ensures
            r == self@.tlb.len(),
    {
        self.tlb.len()
    }

    /// Loads a root-register value, switching the translated address
    /// space; tagged cache entries survive the switch.
    pub(crate) fn set_cr3(&mut self, cr3: u64)
        ensures
            final(self)@ == (CpuModel { cr3, ..old(self)@ }),
    {
        self.cr3 = cr3;
    }

    /// Drops every cached translation of one tag.
    pub(crate) fn retain_without_tag(&mut self, pcid: u16)
        ensures
            final(self)@ == (CpuModel {
                tlb: kept_without_tag(old(self)@.tlb, pcid),
                ..old(self)@
            }),
    {
        let ghost s = self.tlb@;
        let mut kept: Vec<TlbEntry> = Vec::new();
        let mut i: usize = 0;
        while i < self.tlb.len()
            invariant
                i <= self.tlb.len(),
                self.tlb@ == s,
                kept@ == kept_without_tag(s.take(i as int), pcid),
            decreases self.tlb.len() - i,
        {
            let e = self.tlb[i];
            proof {
                assert(s.take(i + 1).drop_last() =~= s.take(i as int));
                assert(s.take(i + 1).last() == s[i as int]);
            }
            if e.pcid != pcid {
                kept.push(e);
            }
            i = i + 1;
        }
        proof {
            assert(s.take(s.len() as int) =~= s);
        }
        self.tlb = kept;
    }

    /// Drops the cached translation of one page of one tag.
    pub(crate) fn retain_without_page(&mut self, pcid: u16, vpage: u64)
        ensures
            final(self)@ == (CpuModel {
                tlb: kept_without_page(old(self)@.tlb, pcid, vpage),
                ..old(self)@
            }),
    {
        let ghost s = self.tlb@;
        let mut kept: Vec<TlbEntry> = Vec::new();
        let mut i: usize = 0;
        while i < self.tlb.len()
            invariant
                i <= self.tlb.len(),
                self.tlb@ == s,
                kept@ == kept_without_page(s.take(i as int), pcid, vpage),
            decreases self.tlb.len() - i,
        {
            let e = self.tlb[i];
            proof {
                assert(s.take(i + 1).drop_last() =~= s.take(i as int));
                assert(s.take(i + 1).last() == s[i as int]);
            }
            if !(e.pcid == pcid && e.vpage == vpage) {
                kept.push(e);
            }
            i = i + 1;
        }
        proof {
            assert(s.take(s.len() as int) =~= s);
        }
        self.tlb = kept;
    }
}

/// The root-register value the processor currently translates through.
pub fn get_cr3(ctx: &CpuContext) -> (r: u64)
    ensures
        r == ctx@.cr3,
{
    ctx.cr3
}

/// Flushes the cached translation for the page containing `vaddr` in the
/// currently active address space, as an edit to a live mapping requires.
pub fn invalidate_tlb_entry(ctx: &mut CpuContext, vaddr: VirtualAddress)
    ensures
        final(ctx)@ == (CpuModel {
            tlb: kept_without_page(
                old(ctx)@.tlb,
                (old(ctx)@.cr3 & 0xFFF) as u16,
                page_base_of(vaddr@),
            ),
            ..old(ctx)@
        }),
{
    let pcid = (get_cr3(ctx) & 0xFFF) as u16;
    let vpage = vaddr.bits() & 0xFFFF_FFFF_FFFF_F000u64;
    ctx.retain_without_page(pcid, vpage);
}

} // verus!
