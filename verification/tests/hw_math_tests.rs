//! Time-source arithmetic, APIC calibration, PCI encodings and the
//! descriptor tables.

use je4os::apic::{ApicError, ApicTimer};
use je4os::gdt::{Gdt, GdtEntry, TaskStateSegment, TssDescriptor};
use je4os::hpet::Hpet;
use je4os::idt::{Idt, IdtEntry};
use je4os::pci::{mmconfig_offset, pci_config_address, PciDevice};
use je4os::sched::context::Context;

#[test]
fn hpet_elapsed_time_is_exact() {
    // A ten-nanosecond period is a 100 MHz counter.
    let h = Hpet::init(10_000_000, 0);
    assert!(h.is_available());
    assert_eq!(h.frequency(), 100_000_000);
    // 12345 counts of 10^7 fs each are 123450 ns.
    assert_eq!(h.elapsed_ns(12345), 123_450);
    assert_eq!(h.elapsed_us(12345), 123);
    assert_eq!(h.elapsed_ms(200_000), 2);
    assert_eq!(h.elapsed_secs(150_000_000), 1);
    // The counter may wrap once; elapsed time stays monotonic.
    let late = Hpet::init(10_000_000, u64::MAX - 9);
    assert_eq!(late.elapsed_ns(10), 200);
    // Delays turn time into counter ticks.
    assert_eq!(h.delay_ns(1000), 100);
    assert_eq!(h.delay_us(5), 500);
    assert_eq!(h.delay_ms(1), 100_000);
    // Without an HPET everything reads zero.
    let none = Hpet::none();
    assert!(!none.is_available());
    assert_eq!(none.frequency(), 0);
    assert_eq!(none.elapsed_ns(55), 0);
    assert_eq!(none.delay_ms(4), 0);
}

#[test]
fn apic_calibration_and_initial_count() {
    let mut apic = ApicTimer::new();
    // Before calibration the timer cannot be programmed.
    assert_eq!(apic.init_timer(100), Err(ApicError::NotCalibrated));
    // 50000 ticks over 10 ms scale to 5 MHz.
    assert_eq!(apic.calibrate_timer(50_000, 10), Ok(()));
    assert_eq!(apic.calibrated_hz, 5_000_000);
    assert_eq!(apic.init_timer(100), Ok(50_000));
    assert_eq!(apic.init_timer(0), Err(ApicError::InvalidFrequency));
    // Measuring nothing fails.
    let mut dead = ApicTimer::new();
    assert_eq!(dead.calibrate_timer(0, 10), Err(ApicError::CalibrationFailed));
}

#[test]
fn median_of_five_samples() {
    let samples = vec![5u32, 3, 9, 1, 7];
    let m = ApicTimer::median_of_samples(&samples);
    assert_eq!(m, 5);
    // The median has at least three samples on each side of it.
    assert!(samples.iter().filter(|&&x| x <= m).count() >= 3);
    assert!(samples.iter().filter(|&&x| x >= m).count() >= 3);
    let m = ApicTimer::median_of_samples(&vec![2, 2, 2, 100, 1]);
    assert_eq!(m, 2);
}

#[test]
fn pci_encodings_and_class_names() {
    assert_eq!(pci_config_address(1, 2, 3, 0x13), 0x8001_1310);
    assert_eq!(pci_config_address(0, 0, 0, 0), 0x8000_0000);
    assert_eq!(mmconfig_offset(1, 2, 3), (1 << 20) | (2 << 15) | (3 << 12));
    let d = PciDevice::read(0, 1, 0, 0x8086, 0x100E, 0x02, 0, 0, 3, 0).unwrap();
    assert_eq!(d.class_name(), "Network Controller");
    assert_eq!(d.vendor_id, 0x8086);
    assert!(PciDevice::read(0, 1, 0, 0xFFFF, 0, 0, 0, 0, 0, 0).is_none());
}

#[test]
fn descriptor_encodings() {
    let tss = TaskStateSegment::new();
    assert_eq!(tss.iomap_base, 0x68);
    assert_eq!(tss.ist1, 0);

    let d = TssDescriptor::new(0x1122_3344_5566_7788);
    assert_eq!(d.low.base_low, 0x7788);
    assert_eq!(d.low.base_middle, 0x66);
    assert_eq!(d.low.base_high, 0x55);
    assert_eq!(d.low.access, 0x89);
    assert_eq!(d.low.limit_low, 0x67);
    assert_eq!(d.high.limit_low, 0x3344);
    assert_eq!(d.high.base_low, 0x1122);

    let mut gdt = Gdt::new();
    assert_eq!(gdt.kernel_code.access, 0x9A);
    assert_eq!(gdt.kernel_data.access, 0x92);
    assert_eq!(gdt.user_code.access, 0x9A | (3 << 5));
    gdt.set_tss(0xFFFF_8000_0020_0000);
    assert_eq!(gdt.tss.high.limit_low, 0x8000);
    assert_eq!(gdt.null, GdtEntry::null());

    let mut idt = Idt::new();
    idt.set_idt_entry(32, 0xFFFF_8000_DEAD_BEEF, 0x08);
    let e = &idt.entries[32];
    assert_eq!(e.offset_low, 0xBEEF);
    assert_eq!(e.offset_middle, 0xDEAD);
    assert_eq!(e.offset_high, 0xFFFF_8000);
    assert_eq!(e.selector, 0x08);
    assert_eq!(e.ist, 0);
    idt.set_idt_entry_with_ist(8, 0x1000, 0x08, 1);
    assert_eq!(idt.entries[8].ist, 1);
    assert_eq!(idt.entries[0], IdtEntry::null());
}

#[test]
fn context_layout_is_validated() {
    // The initial stack frame: return address and six registers and RFLAGS
    // (64 bytes), then a 512-byte FXSAVE image, rounded down to 16 bytes.
    let c = Context::new(0x40_0000, 0x8_0000).unwrap();
    assert_eq!(c.rsp, 0x8_0000 - 64 - 512);
    assert_eq!(c.rsp % 16, 0);
    let c = Context::new(0x40_0000, 0x8_0008).unwrap();
    assert_eq!(c.rsp, 0x8_0000 - 64 - 512);
    assert!(Context::new(0, 0x8_0000).is_err());
    assert!(Context::new(0x40_0000, 0).is_err());
    assert!(Context::new(0x40_0000, 100).is_err());
    assert_eq!(Context::empty().rsp, 0);
}
