//! Address arithmetic and paging: alignment, conversions, the guard page.

use je4os::addr::{align_down, align_up, is_aligned};
use je4os::idt::{decode_page_fault_error, double_fault_report, is_stack_overflow};
use je4os::paging::{
    phys_to_virt, virt_to_phys, KernelPageTables, PageTableEntry, PageTableFlags, PagingError,
    KERNEL_VIRTUAL_BASE, MAX_SUPPORTED_MEMORY, PAGE_SIZE,
};

#[test]
fn test_is_aligned() {
    assert!(is_aligned(0x1000, 0x1000));
    assert!(is_aligned(0x2000, 0x1000));
    assert!(!is_aligned(0x1001, 0x1000));
    assert!(is_aligned(0, 0x1000));
}

#[test]
fn test_align_up() {
    assert_eq!(align_up(0x1000, 0x1000), 0x1000);
    assert_eq!(align_up(0x1001, 0x1000), 0x2000);
    assert_eq!(align_up(0x1FFF, 0x1000), 0x2000);
    assert_eq!(align_up(0, 0x1000), 0);
}

#[test]
fn test_align_down() {
    assert_eq!(align_down(0x1000, 0x1000), 0x1000);
    assert_eq!(align_down(0x1001, 0x1000), 0x1000);
    assert_eq!(align_down(0x1FFF, 0x1000), 0x1000);
    assert_eq!(align_down(0, 0x1000), 0);
}

#[test]
fn phys_to_virt_round_trip() {
    // Every mapped physical address converts there and back unchanged.
    for p in [0x1000u64, 0x100000, 0xC000_0000, MAX_SUPPORTED_MEMORY - 1] {
        let v = phys_to_virt(p).unwrap();
        assert_eq!(v, KERNEL_VIRTUAL_BASE + p);
        assert_eq!(virt_to_phys(v).unwrap(), p);
    }
}

#[test]
fn phys_to_virt_null_fails() {
    assert_eq!(phys_to_virt(0), Err(PagingError::InvalidAddress));
    assert_eq!(
        phys_to_virt(MAX_SUPPORTED_MEMORY),
        Err(PagingError::AddressConversionFailed)
    );
    assert_eq!(virt_to_phys(0x1000), Err(PagingError::InvalidAddress));
}

#[test]
fn guard_page_not_present_in_walk() {
    // Map 4 MiB; the guard page sits at 1 MiB below the higher half alias.
    let guard_virt = KERNEL_VIRTUAL_BASE + 0x100000;
    let kpt = KernelPageTables::build(0x40_0000, guard_virt).unwrap();
    let guard_entry = kpt.walk(guard_virt).unwrap();
    assert!(!guard_entry.is_present());
    assert_eq!(guard_entry.get_address(), 0x100000);
    // A neighbouring page is mapped, present and writable.
    let mapped = kpt.walk(KERNEL_VIRTUAL_BASE + 0x101000).unwrap();
    assert!(mapped.is_present());
    assert_eq!(mapped.get_address(), 0x101000);
    // Below the higher half and beyond the mapped range both fail.
    assert_eq!(kpt.walk(0x1000), Err(PagingError::InvalidAddress));
    assert_eq!(
        kpt.walk(KERNEL_VIRTUAL_BASE + 0x40_0000),
        Err(PagingError::AddressConversionFailed)
    );
}

#[test]
fn build_succeeds_exactly_when_the_guard_fits() {
    let guard = KERNEL_VIRTUAL_BASE + 0x100000;
    // Something to map and a fitting guard page: success is owed.
    assert!(KernelPageTables::build(0x40_0000, guard).is_ok());
    // Nothing to map.
    assert_eq!(
        KernelPageTables::build(0, guard).err(),
        Some(PagingError::PageTableInitFailed)
    );
    // A guard below the higher half, unaligned, or past the mapped range.
    assert_eq!(
        KernelPageTables::build(0x40_0000, 0x100000).err(),
        Some(PagingError::GuardPageSetupFailed)
    );
    assert_eq!(
        KernelPageTables::build(0x40_0000, guard + 1).err(),
        Some(PagingError::GuardPageSetupFailed)
    );
    assert_eq!(
        KernelPageTables::build(0x40_0000, KERNEL_VIRTUAL_BASE + 0x40_0000).err(),
        Some(PagingError::GuardPageSetupFailed)
    );
    // The range rounds up to whole page tables: a guard just past the raw
    // limit but inside the rounded range still fits.
    assert!(KernelPageTables::build(0x30_0000, KERNEL_VIRTUAL_BASE + 0x3F_F000).is_ok());
}

#[test]
fn boot_page_directories_map_huge_pages() {
    let pd = je4os::paging::build_boot_pd(1);
    // Gigabyte 1, entry 3: 2 MiB frame at (512 + 3) * 2 MiB, Present,
    // Writable, Huge.
    let e = pd.entry(3);
    assert_eq!(e.get_raw(), 515 * 0x20_0000 + 0x83);
    assert!(e.is_present());
    assert_eq!(pd.entry(0).get_raw(), 512 * 0x20_0000 + 0x83);
}

#[test]
fn page_table_entry_bits() {
    let mut e = PageTableEntry::new();
    assert_eq!(e.get_raw(), 0);
    assert!(!e.is_present());
    e.set(0x2000, PageTableFlags::Present.bits() | PageTableFlags::Writable.bits());
    assert!(e.is_present());
    assert_eq!(e.get_address(), 0x2000);
    assert_eq!(e.get_raw(), 0x2003);
    e.set_address(0x5000);
    assert_eq!(e.get_address(), 0x5000);
    assert_eq!(e.get_raw(), 0x5003);
    e.set_flags(PageTableFlags::Global.bits());
    assert_eq!(e.get_raw(), 0x5103);
}

#[test]
fn stack_overflow_recognised_by_guard_page() {
    let guard = 0xFFFF_8000_0010_0000u64;
    assert!(is_stack_overflow(guard, guard));
    assert!(is_stack_overflow(guard + 0xFFF, guard));
    assert!(!is_stack_overflow(guard + PAGE_SIZE, guard));
    assert!(!is_stack_overflow(guard - 1, guard));
    assert_eq!(double_fault_report(guard + 0x10, guard), "kernel stack overflow");
    assert_eq!(double_fault_report(guard - 0x10, guard), "double fault");
}

#[test]
fn page_fault_error_code_decodes() {
    let e = decode_page_fault_error(0b10110);
    assert!(!e.present);
    assert!(e.write);
    assert!(e.user);
    assert!(!e.reserved);
    assert!(e.instruction);
}
