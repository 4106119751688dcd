//! Core of a small x86_64 hobby kernel, modelled as verified data structures
//! and algorithms: address arithmetic, four-level page tables with a guard
//! page, a slab heap, time sources, a timer wheel with softirq draining, a
//! multi-class scheduler with lost-wakeup protection, blocking synchronisation
//! primitives, and a command-buffer display compositor.
//!
//! Everything that touches hardware (port I/O, MMIO, context-switch assembly)
//! lives outside this crate; the functions here hold the decisions and the
//! arithmetic, stated and proved over plain values.

pub mod acpi;
pub mod addr;
pub mod allocator;
pub mod apic;
pub mod boot_info;
pub mod bytes;
pub mod elf;
pub mod gdt;
pub mod graphics;
pub mod hpet;
pub mod idt;
pub mod paging;
pub mod pci;
pub mod sched;
pub mod sync;
pub mod timer;
