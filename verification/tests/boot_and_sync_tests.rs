//! Boot handoff, the quiet-boot scenario, and the blocking mutex.

use je4os::boot_info::{BootInfo, FramebufferInfo, MemoryRegion, CONVENTIONAL_MEMORY};
use je4os::graphics::compositor::{init_compositor, CompositorConfig};
use je4os::graphics::font::{Font, FONT_GLYPH_COUNT};
use je4os::graphics::shadow_buffer::ShadowBuffer;
use je4os::idt::{check_resched_on_interrupt_exit, timer_interrupt};
use je4os::sched::scheduler::init;
use je4os::sched::task::Task;
use je4os::sync::BlockingMutex;
use je4os::timer::TimerSystem;

#[test]
fn quiet_boot_runs_idle_and_draws_black() {
    // Boot with one conventional region at 1 MiB of 512 MiB, an 800x600
    // framebuffer and no ACPI pointer: the idle task runs, the compositor
    // paints a black screen, and five simulated seconds pass without a hitch.
    let mut bi = BootInfo::new();
    bi.framebuffer = FramebufferInfo {
        base: 0xC000_0000,
        size: 800 * 600 * 4,
        width: 800,
        height: 600,
        stride: 800,
    };
    bi.push_region(MemoryRegion {
        start: 0x10_0000,
        size: 512 * 1024 * 1024,
        region_type: CONVENTIONAL_MEMORY,
    });
    bi.rsdp_address = 0;
    let (start, size) = bi.largest_conventional_region().unwrap();
    assert_eq!(start, 0x10_0000);
    assert_eq!(size, 512 * 1024 * 1024);

    let mut heap = je4os::allocator::SlabAllocator::new();
    heap.init(start, size);

    let mut sched = init();
    let mut timers = TimerSystem::init(100);
    let idle_id = sched.allocate_task_id();
    sched.add_task(Task::new_idle("idle", 0x40_0000, 0x8_0000, idle_id).unwrap());
    sched.schedule();
    assert_eq!(sched.current.as_ref().unwrap().id(), idle_id);

    let config = CompositorConfig {
        fb_base: bi.framebuffer.base,
        fb_width: 8,
        fb_height: 8,
        refresh_interval_ticks: 2,
    };
    let mut comp = init_compositor(config);
    let font = Font::new(vec![0u64; FONT_GLYPH_COUNT]).unwrap();
    let mut shadow = ShadowBuffer::new(8, 8);

    // Five seconds at 100 Hz.
    for _ in 0..500 {
        timer_interrupt(&mut sched, &mut timers);
        let events = check_resched_on_interrupt_exit(&mut sched, &mut timers);
        assert_eq!(events.len(), 0);
        assert_eq!(sched.current.as_ref().unwrap().id(), idle_id);
    }
    comp.composite_pass(&mut shadow, &font);
    for y in 0..8 {
        for x in 0..8 {
            assert_eq!(shadow.pixel(x, y), 0);
        }
    }
    assert_eq!(timers.current_tick(), 500);
}

#[test]
fn largest_region_skips_non_conventional() {
    let mut bi = BootInfo::new();
    bi.push_region(MemoryRegion { start: 0x1000, size: 0x9000_0000, region_type: 2 });
    bi.push_region(MemoryRegion { start: 0x10_0000, size: 0x1000, region_type: CONVENTIONAL_MEMORY });
    bi.push_region(MemoryRegion { start: 0x20_0000, size: 0x8000, region_type: CONVENTIONAL_MEMORY });
    assert_eq!(bi.largest_conventional_region(), Some((0x20_0000, 0x8000)));

    let empty = BootInfo::new();
    assert_eq!(empty.largest_conventional_region(), None);
}

#[test]
fn producer_and_consumer_lose_nothing() {
    // A producer pushes a million payloads through a blocking mutex; a
    // consumer pops them. Everything pushed is popped, nothing twice, and a
    // contended lock queues the loser instead of spinning.
    let mut queue: BlockingMutex<Vec<u32>> = BlockingMutex::new(Vec::new());
    let producer = 1u64;
    let consumer = 2u64;
    let total = 1_000_000u32;
    let mut pushed = 0u32;
    let mut popped = 0u64;
    let mut sum_pushed = 0u64;
    let mut sum_popped = 0u64;
    while popped < total as u64 {
        if pushed < total {
            assert!(queue.lock_or_wait(producer));
            let mut v = std::mem::take(&mut queue.data);
            v.push(pushed);
            sum_pushed += pushed as u64;
            queue.set(v);
            pushed += 1;
            // The consumer arrives while the producer holds the lock: it
            // must wait its turn rather than spin.
            if pushed == 1 {
                assert!(!queue.lock_or_wait(consumer));
                assert_eq!(queue.unlock(), Some(consumer));
            } else {
                assert_eq!(queue.unlock(), None);
            }
        }
        assert!(queue.lock_or_wait(consumer));
        let mut v = std::mem::take(&mut queue.data);
        while let Some(x) = v.pop() {
            sum_popped += x as u64;
            popped += 1;
        }
        queue.set(v);
        assert_eq!(queue.unlock(), None);
    }
    assert_eq!(popped, total as u64);
    assert_eq!(sum_pushed, sum_popped);
}

#[test]
fn madt_parsing_collects_controllers() {
    // A hand-assembled interrupt-controller table: fixed part, one enabled
    // processor, one disabled processor, one I/O controller, one entry of an
    // unknown kind.
    let mut bytes = vec![0u8; 44];
    // Local controller address 0xFEE00000 at offset 36, little endian.
    bytes[36] = 0x00;
    bytes[37] = 0x00;
    bytes[38] = 0xE0;
    bytes[39] = 0xFE;
    // Enabled processor, controller id 5.
    bytes.extend_from_slice(&[0, 8, 1, 5, 1, 0, 0, 0]);
    // Disabled processor, controller id 6.
    bytes.extend_from_slice(&[0, 8, 2, 6, 0, 0, 0, 0]);
    // I/O controller at 0xFEC00000.
    bytes.extend_from_slice(&[1, 12, 9, 0, 0x00, 0x00, 0xC0, 0xFE, 0, 0, 0, 0]);
    // An unknown entry kind is skipped.
    bytes.extend_from_slice(&[9, 4, 0, 0]);
    let info = je4os::acpi::parse_madt(&bytes).unwrap();
    assert_eq!(info.local_apic_address, 0xFEE0_0000);
    assert_eq!(info.processor_apic_ids, vec![5u8]);
    assert_eq!(info.io_apic_addresses, vec![0xFEC0_0000u32]);

    // A truncated table and a malformed entry both fail.
    assert!(je4os::acpi::parse_madt(&vec![0u8; 20]).is_err());
    let mut bad = vec![0u8; 44];
    bad.extend_from_slice(&[0, 1]);
    assert!(je4os::acpi::parse_madt(&bad).is_err());
}

#[test]
fn checksums_and_signatures() {
    // A table whose bytes sum to a multiple of 256 passes; off by one fails.
    assert!(je4os::acpi::verify_checksum(&vec![1u8, 2, 253]));
    assert!(!je4os::acpi::verify_checksum(&vec![1u8, 2, 254]));
    assert!(je4os::acpi::verify_checksum(&vec![]));
    let rsdp = je4os::acpi::Rsdp {
        signature: [82, 83, 68, 32, 80, 84, 82, 32],
        checksum: 0,
        revision: 2,
        rsdt_address: 0x7FE0000,
    };
    assert!(rsdp.is_valid_signature());
    let bad = je4os::acpi::Rsdp { signature: [82, 83, 68, 32, 80, 84, 82, 33], ..rsdp };
    assert!(!bad.is_valid_signature());
}
