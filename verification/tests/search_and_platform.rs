use page_map::addr::{PhysicalAddress, VirtualAddress};
use page_map::cpu::{get_cr3, invalidate_tlb_entry, CpuContext, MSRResponse};
use page_map::error::Error;
use page_map::page_map::PageMap;
use page_map::phys_mem::PhysicalMemory;
use page_map::pte::PageSize;

const ARENA_BASE: u64 = 0x10_0000;

fn arena(capacity: usize) -> PhysicalMemory {
    PhysicalMemory::new(ARENA_BASE, capacity).unwrap()
}

fn va(bits: u64) -> VirtualAddress {
    VirtualAddress::new(bits).unwrap()
}

fn pa(bits: u64) -> PhysicalAddress {
    PhysicalAddress::new(bits).unwrap()
}

#[test]
fn arena_geometry_validated() {
    assert!(PhysicalMemory::new(0x10_0001, 4).is_err());
    assert!(PhysicalMemory::new(0, 4).is_err());
    assert!(PhysicalMemory::new(1 << 52, 4).is_err());
    let mem = PhysicalMemory::new(0x10_0000, 4).unwrap();
    assert_eq!(mem.base(), 0x10_0000);
    assert_eq!(mem.frame_count(), 0);
}

#[test]
fn search_argument_validation() {
    let mut mem = arena(8);
    let pm = PageMap::try_new(&mut mem).unwrap();
    assert_eq!(
        pm.find_available_region(&mem, 100, 0x1000, va(0x1000), va(0x10_0000)),
        Err(Error::SubPageSizeNotAllowed)
    );
    assert_eq!(
        pm.find_available_region(&mem, 0x1000, 8, va(0x1000), va(0x10_0000)),
        Err(Error::InvalidArgument)
    );
    assert_eq!(
        pm.find_available_region(&mem, 0x1000, 0x2000, va(0x1000), va(0x10_0000)),
        Err(Error::InvalidVAddrAlignment)
    );
}

#[test]
fn search_finds_first_fit_past_mapped_pages() {
    let mut mem = arena(64);
    let pm = PageMap::try_new(&mut mem).unwrap();
    // an empty space: the first candidate wins
    let hit = pm
        .find_available_region(&mem, 0x4000, 0x1000, va(0x1000), va(0x10_0000))
        .unwrap();
    assert_eq!(hit.bits(), 0x1000);

    // occupy a page inside the first two candidate ranges
    pm.map_page(&mut mem, va(0x2000), pa(0x9000), 0).unwrap();
    let hit = pm
        .find_available_region(&mem, 0x4000, 0x1000, va(0x1000), va(0x10_0000))
        .unwrap();
    assert_eq!(hit.bits(), 0x3000);
}

#[test]
fn search_is_idempotent() {
    let mut mem = arena(64);
    let pm = PageMap::try_new(&mut mem).unwrap();
    pm.map_page(&mut mem, va(0x5000), pa(0x9000), 0).unwrap();
    let first = pm.find_available_region(&mem, 0x3000, 0x1000, va(0x4000), va(0x40_0000));
    let second = pm.find_available_region(&mem, 0x3000, 0x1000, va(0x4000), va(0x40_0000));
    assert_eq!(first, second);
    assert_eq!(first.unwrap().bits(), 0x6000);
}

#[test]
fn search_exhaustion_reports_range_unavailable() {
    let mut mem = arena(64);
    let pm = PageMap::try_new(&mut mem).unwrap();
    pm.map_page(&mut mem, va(0x1000), pa(0x9000), 0).unwrap();
    pm.map_page(&mut mem, va(0x2000), pa(0xA000), 0).unwrap();
    assert_eq!(
        pm.find_available_region(&mem, 0x1000, 0x1000, va(0x1000), va(0x3000)),
        Err(Error::RangeUnavailable)
    );
    // an empty scan window has no candidates at all
    assert_eq!(
        pm.find_available_region(&mem, 0x1000, 0x1000, va(0x8000), va(0x8000)),
        Err(Error::RangeUnavailable)
    );
}

#[test]
fn range_availability_tracks_mappings() {
    let mut mem = arena(64);
    let pm = PageMap::try_new(&mut mem).unwrap();
    assert!(pm.is_range_available(&mem, va(0x1000), 0x10_0000));
    pm.map_page(&mut mem, va(0x8000), pa(0x9000), 0).unwrap();
    assert!(!pm.is_range_available(&mem, va(0x1000), 0x10_0000));
    assert!(pm.is_range_available(&mem, va(0x1000), 0x7000));
    assert!(pm.is_range_available(&mem, va(0x9000), 0x7000));
    // the last byte before the mapped page keeps the range free
    assert!(pm.is_range_available(&mem, va(0x1000), 0x6001));
    assert!(!pm.is_range_available(&mem, va(0x1000), 0x7001));
}

#[test]
fn range_availability_sees_coarse_leaves() {
    let mut mem = arena(64);
    let pm = PageMap::try_new(&mut mem).unwrap();
    pm.map_large_page(&mut mem, va(0x20_0000), pa(0x40_0000), 0).unwrap();
    assert!(!pm.is_range_available(&mem, va(0x3F_F000), 0x2000));
    assert!(pm.is_range_available(&mem, va(0x40_0000), 0x2000));
    assert!(!pm.is_range_available(&mem, va(0x2A_0000), 0x1000));
}

#[test]
fn range_check_survives_the_top_of_the_address_space() {
    let mut mem = arena(16);
    let pm = PageMap::try_new(&mut mem).unwrap();
    let top = va(0xFFFF_FFFF_FFFF_F000);
    assert!(pm.is_range_available(&mem, top, 0x1000));
    pm.map_page(&mut mem, top, pa(0x9000), 0).unwrap();
    assert!(!pm.is_range_available(&mem, top, 1));
    assert!(!pm.is_range_available(&mem, va(0xFFFF_FFFF_FFFF_8000), 0x8000));
}

#[test]
fn tlb_invalidation_by_tag() {
    let mut mem = arena(8);
    let mut pm = PageMap::try_new(&mut mem).unwrap();
    pm.set_pcid(5).unwrap();
    let mut ctx = CpuContext::new(true);
    ctx.record_translation(5, va(0x1000));
    ctx.record_translation(5, va(0x2000));
    ctx.record_translation(7, va(0x1000));
    assert_eq!(ctx.tlb_len(), 3);
    pm.invalidate_pcid(&mut ctx);
    assert!(!ctx.tlb_contains(5, va(0x1000)));
    assert!(!ctx.tlb_contains(5, va(0x2000)));
    assert!(ctx.tlb_contains(7, va(0x1000)));
    assert_eq!(ctx.tlb_len(), 1);
}

#[test]
fn tlb_invalidation_by_address() {
    let mut mem = arena(8);
    let mut pm = PageMap::try_new(&mut mem).unwrap();
    pm.set_pcid(5).unwrap();
    let mut ctx = CpuContext::new(true);
    pm.load(&mut ctx).unwrap();
    ctx.record_translation(5, va(0x1000));
    ctx.record_translation(5, va(0x1234));
    ctx.record_translation(5, va(0x3000));
    ctx.record_translation(7, va(0x1000));
    invalidate_tlb_entry(&mut ctx, va(0x1FFF));
    // both entries of the active tag for that page are gone
    assert!(!ctx.tlb_contains(5, va(0x1000)));
    assert!(ctx.tlb_contains(5, va(0x3000)));
    // another tag's entry for the same page survives a plain invalidation
    assert!(ctx.tlb_contains(7, va(0x1000)));
}

#[test]
fn activation_switches_the_root_register() {
    let mut mem = arena(16);
    let mut a = PageMap::try_new(&mut mem).unwrap();
    let mut b = PageMap::try_new(&mut mem).unwrap();
    a.set_pcid(1).unwrap();
    b.set_pcid(2).unwrap();
    let mut ctx = CpuContext::new(true);
    a.load(&mut ctx).unwrap();
    let cr3_a = get_cr3(&ctx);
    b.load(&mut ctx).unwrap();
    let cr3_b = get_cr3(&ctx);
    assert_ne!(cr3_a, cr3_b);
    assert_eq!(cr3_a & 0xFFF, 1);
    assert_eq!(cr3_b & 0xFFF, 2);
    assert_ne!(cr3_a & !0xFFF, cr3_b & !0xFFF);
}

#[test]
fn virtual_addresses_must_be_canonical() {
    assert!(VirtualAddress::new(0x0000_7FFF_FFFF_FFFF).is_ok());
    assert!(VirtualAddress::new(0xFFFF_8000_0000_0000).is_ok());
    assert!(matches!(
        VirtualAddress::new(0x0000_8000_0000_0000),
        Err(Error::InvalidAddress)
    ));
    assert!(matches!(
        VirtualAddress::new(0x1234_5678_9ABC_DEF0),
        Err(Error::InvalidAddress)
    ));
}

#[test]
fn address_helpers() {
    let v = va(0x1234);
    assert_eq!(v.bits(), 0x1234);
    assert!(!v.is_null());
    assert!(va(0).is_null());
    assert!(v.is_aligned_to(4));
    assert!(!v.is_aligned_to(0x1000));
    assert_eq!(v.aligned_after(0x1000), 0x2000);
    assert_eq!(va(0x2000).aligned_after(0x1000), 0x2000);
    assert_eq!(va(0x4000_1000).pdpt_index(), 1);
    assert_eq!(va(0x20_3000).pd_index(), 1);
    assert_eq!(va(0x20_3000).pt_index(), 3);
    assert_eq!(va(0xFFFF_8000_0000_0000).pml4_index(), 256);

    assert!(PhysicalAddress::new(1 << 52).is_err());
    assert_eq!(pa(0x2000).bits(), 0x2000);
}

#[test]
fn page_sizes_and_msr_halves() {
    assert_eq!(PageSize::Standard.bytes(), 4096);
    assert_eq!(PageSize::Large.bytes(), 0x20_0000);
    assert_eq!(PageSize::Huge.bytes(), 0x4000_0000);
    let msr = MSRResponse { eax: 0x1234, edx: 0x5678 };
    assert_eq!(msr.eax, 0x1234);
    assert_eq!(msr.edx, 0x5678);
}
