use page_map::addr::{PhysicalAddress, VirtualAddress};
use page_map::cpu::{get_cr3, CpuContext};
use page_map::error::Error;
use page_map::memory::MemoryMap;
use page_map::page_map::{MemType, PageMap};
use page_map::phys_mem::PhysicalMemory;
use page_map::pte::{Mapping, PageSize, PTE_GLOBAL, PTE_NO_EXECUTE, PTE_PRESENT, PTE_WRITE};

const ARENA_BASE: u64 = 0x10_0000;

fn arena(capacity: usize) -> PhysicalMemory {
    PhysicalMemory::new(ARENA_BASE, capacity).unwrap()
}

fn va(bits: u64) -> VirtualAddress {
    VirtualAddress::new(bits).unwrap()
}

fn pa(bits: u64) -> PhysicalAddress {
    PhysicalAddress::new(bits).unwrap()
}

#[test]
fn end_to_end_scenario() {
    let mut mem = arena(64);
    let mut pm = PageMap::try_new(&mut mem).unwrap();
    assert_eq!(pm.get_pcid(), 0);
    pm.set_pcid(1).unwrap();
    assert_eq!(pm.get_pcid(), 1);

    let mut ctx = CpuContext::new(true);
    pm.load(&mut ctx).unwrap();
    assert_eq!(get_cr3(&ctx) & 0xFFF, 1);

    let flags = PageMap::get_flags(MemType::KernelReadWrite);
    pm.map_page(&mut mem, va(0x1000), pa(0x2000), flags).unwrap();

    let mapping = pm.translate(&mem, va(0x1000)).unwrap();
    assert_eq!(mapping.paddr, 0x2000);
    assert_ne!(mapping.flags & PTE_WRITE, 0);
    assert_eq!(mapping.size, PageSize::Standard);

    let freed = pm.unmap_page(&mut mem, va(0x1000)).unwrap();
    assert_eq!(freed.bits(), 0x2000);
    assert_eq!(pm.unmap_page(&mut mem, va(0x1000)), Err(Error::NotMapped));
}

#[test]
fn standard_round_trip_high_half() {
    let mut mem = arena(64);
    let pm = PageMap::try_new(&mut mem).unwrap();
    let addr = va(0xFFFF_8000_1234_5000);
    let frame = pa(0xABCD_E000);
    pm.map_page(&mut mem, addr, frame, PTE_WRITE).unwrap();
    let mapping = pm.translate(&mem, addr).unwrap();
    assert_eq!(mapping.paddr, 0xABCD_E000);
    let freed = pm.unmap_page(&mut mem, addr).unwrap();
    assert_eq!(freed.bits(), 0xABCD_E000);
    assert_eq!(pm.translate(&mem, addr), None);
}

#[test]
fn mapping_overwrites_last_write_wins() {
    let mut mem = arena(64);
    let pm = PageMap::try_new(&mut mem).unwrap();
    pm.map_page(&mut mem, va(0x7000), pa(0x1_0000), PTE_WRITE).unwrap();
    pm.map_page(&mut mem, va(0x7000), pa(0x2_0000), 0).unwrap();
    let mapping = pm.translate(&mem, va(0x7000)).unwrap();
    assert_eq!(mapping.paddr, 0x2_0000);
    assert_eq!(mapping.flags & PTE_WRITE, 0);
}

#[test]
fn mapping_leaves_neighbours_alone() {
    let mut mem = arena(64);
    let pm = PageMap::try_new(&mut mem).unwrap();
    pm.map_page(&mut mem, va(0x4000), pa(0x9000), 0).unwrap();
    pm.map_page(&mut mem, va(0x5000), pa(0xA000), 0).unwrap();
    assert_eq!(pm.translate(&mem, va(0x4000)).unwrap().paddr, 0x9000);
    assert_eq!(pm.translate(&mem, va(0x3000)), None);
    let freed = pm.unmap_page(&mut mem, va(0x4000)).unwrap();
    assert_eq!(freed.bits(), 0x9000);
    assert_eq!(pm.translate(&mem, va(0x5000)).unwrap().paddr, 0xA000);
}

#[test]
fn map_page_rejects_misaligned_and_null() {
    let mut mem = arena(64);
    let pm = PageMap::try_new(&mut mem).unwrap();
    assert_eq!(
        pm.map_page(&mut mem, va(0x1001), pa(0x2000), 0),
        Err(Error::InvalidVAddrAlignment)
    );
    assert_eq!(pm.map_page(&mut mem, va(0), pa(0x2000), 0), Err(Error::InvalidAddress));
}

#[test]
fn large_alignment_enforced_for_all_offsets() {
    let mut mem = arena(64);
    let pm = PageMap::try_new(&mut mem).unwrap();
    for off in [1u64, 0xFFF, 0x1000, 0x12345, 0x10_0000, 0x1F_FFFF] {
        let r = pm.map_large_page(&mut mem, va(0x20_0000 + off), pa(0x40_0000), 0);
        assert_eq!(r, Err(Error::InvalidVAddrAlignment));
    }
    assert!(pm.map_large_page(&mut mem, va(0x20_0000), pa(0x40_0000), 0).is_ok());
}

#[test]
fn large_mapping_covers_every_subpage() {
    let mut mem = arena(64);
    let pm = PageMap::try_new(&mut mem).unwrap();
    pm.map_large_page(&mut mem, va(0x20_0000), pa(0x40_0000), PTE_WRITE)
        .unwrap();
    for off in [0u64, 0x1000, 0x3000, 0x10_0000, 0x1F_F000] {
        let mapping = pm.translate(&mem, va(0x20_0000 + off)).unwrap();
        assert_eq!(mapping.size, PageSize::Large);
        assert_eq!(mapping.paddr, 0x40_0000 + off);
        assert_ne!(mapping.flags & PTE_WRITE, 0);
    }
}

#[test]
fn standard_map_under_large_leaf_fails() {
    let mut mem = arena(64);
    let pm = PageMap::try_new(&mut mem).unwrap();
    pm.map_large_page(&mut mem, va(0x20_0000), pa(0x40_0000), 0).unwrap();
    let r = pm.map_page(&mut mem, va(0x20_1000), pa(0x9000), 0);
    assert_eq!(r, Err(Error::InvalidAddress));
    let r = pm.unmap_page(&mut mem, va(0x20_1000));
    assert_eq!(r, Err(Error::InvalidAddress));
}

#[test]
fn large_unmap_round_trip() {
    let mut mem = arena(64);
    let pm = PageMap::try_new(&mut mem).unwrap();
    pm.map_large_page(&mut mem, va(0x40_0000), pa(0x80_0000), 0).unwrap();
    let freed = pm.unmap_large_page(&mut mem, va(0x40_0000)).unwrap();
    assert_eq!(freed.bits(), 0x80_0000);
    assert_eq!(pm.unmap_large_page(&mut mem, va(0x40_0000)), Err(Error::NotMapped));
}

#[test]
fn large_unmap_refuses_finer_table() {
    let mut mem = arena(64);
    let pm = PageMap::try_new(&mut mem).unwrap();
    pm.map_page(&mut mem, va(0x20_0000), pa(0x9000), 0).unwrap();
    // the large slot holds a lowest-level table, not a large leaf
    assert_eq!(pm.unmap_large_page(&mut mem, va(0x20_0000)), Err(Error::NotMapped));
}

#[test]
fn huge_pages_gated_without_support() {
    let mut mem = arena(64);
    let pm = PageMap::try_new(&mut mem).unwrap();
    let ctx = CpuContext::new(false);
    let sum_before = mem.checksum();
    let frames_before = mem.frame_count();
    assert_eq!(
        pm.map_huge_page(&mut mem, &ctx, va(0x4000_0000), pa(0x8000_0000), 0),
        Err(Error::UnsupportedOperation)
    );
    assert_eq!(
        pm.unmap_huge_page(&mut mem, &ctx, va(0x4000_0000)),
        Err(Error::UnsupportedOperation)
    );
    assert_eq!(mem.checksum(), sum_before);
    assert_eq!(mem.frame_count(), frames_before);
}

#[test]
fn huge_mapping_round_trip_with_support() {
    let mut mem = arena(64);
    let pm = PageMap::try_new(&mut mem).unwrap();
    let ctx = CpuContext::new(true);
    pm.map_huge_page(&mut mem, &ctx, va(0x4000_0000), pa(0x8000_0000), 0)
        .unwrap();
    let mapping = pm.translate(&mem, va(0x4012_3000)).unwrap();
    assert_eq!(mapping.size, PageSize::Huge);
    assert_eq!(mapping.paddr, 0x8012_3000);
    let freed = pm.unmap_huge_page(&mut mem, &ctx, va(0x4000_0000)).unwrap();
    assert_eq!(freed.bits(), 0x8000_0000);
    assert_eq!(pm.translate(&mem, va(0x4012_3000)), None);
}

#[test]
fn huge_alignment_enforced() {
    let mut mem = arena(64);
    let pm = PageMap::try_new(&mut mem).unwrap();
    let ctx = CpuContext::new(true);
    let r = pm.map_huge_page(&mut mem, &ctx, va(0x4020_0000), pa(0x8000_0000), 0);
    assert_eq!(r, Err(Error::InvalidVAddrAlignment));
}

#[test]
fn tag_is_one_shot() {
    let mut mem = arena(8);
    let mut pm = PageMap::try_new(&mut mem).unwrap();
    pm.set_pcid(7).unwrap();
    assert_eq!(pm.set_pcid(9), Err(Error::AlreadyTagged));
    assert_eq!(pm.set_pcid(7), Err(Error::AlreadyTagged));
    assert_eq!(pm.get_pcid(), 7);
}

#[test]
fn reserved_and_oversized_tags_rejected() {
    let mut mem = arena(8);
    let mut pm = PageMap::try_new(&mut mem).unwrap();
    assert_eq!(pm.set_pcid(0), Err(Error::InvalidTag));
    assert_eq!(pm.set_pcid(4096), Err(Error::InvalidTag));
    pm.set_pcid(4095).unwrap();
}

#[test]
fn activation_requires_a_tag() {
    let mut mem = arena(8);
    let pm = PageMap::try_new(&mut mem).unwrap();
    let mut ctx = CpuContext::new(true);
    assert_eq!(pm.load(&mut ctx), Err(Error::InvalidTag));
    assert_eq!(get_cr3(&ctx), 0);
}

#[test]
fn root_allocation_exhaustion() {
    let mut mem = arena(0);
    assert!(matches!(PageMap::try_new(&mut mem), Err(Error::OutOfMemory)));
}

#[test]
fn walk_allocation_exhaustion() {
    // one frame: the root fits, the three lower levels do not
    let mut mem = arena(1);
    let pm = PageMap::try_new(&mut mem).unwrap();
    assert_eq!(pm.map_page(&mut mem, va(0x1000), pa(0x2000), 0), Err(Error::OutOfMemory));
    // four frames suffice for a full standard path
    let mut mem4 = arena(4);
    let pm4 = PageMap::try_new(&mut mem4).unwrap();
    assert!(pm4.map_page(&mut mem4, va(0x1000), pa(0x2000), 0).is_ok());
}

#[test]
fn intermediate_tables_are_shared_and_kept() {
    // exactly enough frames for the root and one full standard path
    let mut mem = arena(4);
    let pm = PageMap::try_new(&mut mem).unwrap();
    pm.map_page(&mut mem, va(0x1000), pa(0x2000), 0).unwrap();
    assert_eq!(mem.frame_count(), 4);
    // a neighbouring page reuses the same path: no further frame needed
    pm.map_page(&mut mem, va(0x2000), pa(0x3000), 0).unwrap();
    assert_eq!(mem.frame_count(), 4);
    // unmapping keeps the tables in place for later mappings
    pm.unmap_page(&mut mem, va(0x1000)).unwrap();
    assert_eq!(mem.frame_count(), 4);
    pm.map_page(&mut mem, va(0x1000), pa(0x4000), 0).unwrap();
}

#[test]
fn from_cr3_validates_and_reconstructs() {
    assert!(matches!(PageMap::from_cr3(1 << 52), Err(Error::InvalidAddress)));

    let mut mem = arena(16);
    let mut pm = PageMap::try_new(&mut mem).unwrap();
    pm.set_pcid(3).unwrap();
    pm.map_page(&mut mem, va(0x6000), pa(0x3000), 0).unwrap();
    let mut ctx = CpuContext::new(true);
    pm.load(&mut ctx).unwrap();

    let pm2 = PageMap::from_cr3(get_cr3(&ctx)).unwrap();
    assert_eq!(pm2.get_pcid(), 3);
    assert_eq!(pm2.get_pml4_paddr().bits(), pm.get_pml4_paddr().bits());
    assert_eq!(pm2.translate(&mem, va(0x6000)).unwrap().paddr, 0x3000);
}

#[test]
fn unknown_root_is_an_invalid_address() {
    let mut mem = arena(8);
    let stranger = PageMap::from_cr3(0xDEAD_B000).unwrap();
    assert_eq!(
        stranger.map_page(&mut mem, va(0x1000), pa(0x2000), 0),
        Err(Error::InvalidAddress)
    );
    assert_eq!(stranger.unmap_page(&mut mem, va(0x1000)), Err(Error::InvalidAddress));
}

#[test]
fn flag_policy_exact_bits() {
    assert_eq!(
        PageMap::get_flags(MemType::KernelReadWrite),
        PTE_PRESENT | PTE_WRITE | PTE_NO_EXECUTE | PTE_GLOBAL | 0x8
    );
    assert_eq!(
        PageMap::get_flags(MemType::KernelReadOnly),
        PTE_PRESENT | PTE_NO_EXECUTE | PTE_GLOBAL | 0x8
    );
    assert_eq!(PageMap::get_flags(MemType::KernelReadExecute), PTE_PRESENT | PTE_GLOBAL | 0x8);
}

#[test]
fn page_map_serves_the_memory_map_interface() {
    let mut mem = arena(64);
    let pm = PageMap::try_new(&mut mem).unwrap();
    let flags = <PageMap as MemoryMap>::get_flags(MemType::KernelReadOnly);
    MemoryMap::map_page(&pm, &mut mem, va(0xC000), pa(0xD000), flags).unwrap();
    assert_eq!(pm.translate(&mem, va(0xC000)).unwrap().paddr, 0xD000);
    let freed = MemoryMap::unmap_page(&pm, &mut mem, va(0xC000)).unwrap();
    assert_eq!(freed.bits(), 0xD000);
    let hit = MemoryMap::find_available_region(&pm, &mem, 0x2000, 0x1000, va(0x1000), va(0x9000))
        .unwrap();
    assert_eq!(hit.bits(), 0x1000);
}

#[test]
fn translate_reports_exact_mapping_record() {
    let mut mem = arena(64);
    let pm = PageMap::try_new(&mut mem).unwrap();
    pm.map_page(&mut mem, va(0x8000), pa(0x5000), PTE_WRITE).unwrap();
    let mapping = pm.translate(&mem, va(0x8123)).unwrap();
    assert_eq!(
        mapping,
        Mapping { paddr: 0x5123, flags: PTE_WRITE | PTE_PRESENT, size: PageSize::Standard }
    );
}
