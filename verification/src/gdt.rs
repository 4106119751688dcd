//! The global descriptor table: segment and TSS descriptor encodings, and
//! the task-state segment that carries the interrupt stacks. Loading the
//! table into the CPU belongs to the unverifiable layer.

use vstd::prelude::*;

verus! {

/// Errors raised when building or loading the descriptor table.
#[derive(Debug, Clone, Copy, PartialEq, Eq, Structural)]
pub enum GdtError {
    /// The table could not be installed.
    InitFailed,
    /// A descriptor address is unusable.
    InvalidAddress,
}

/// Selector of the kernel code segment.
pub const KERNEL_CODE_SELECTOR: u16 = 0x08;

/// Selector of the kernel data segment.
pub const KERNEL_DATA_SELECTOR: u16 = 0x10;

/// Selector of the task-state segment.
pub const TSS_SELECTOR: u16 = 0x28;

/// Interrupt-stack-table slot of the double-fault stack.
pub const DOUBLE_FAULT_IST_INDEX: u8 = 1;

/// The 64-bit task-state segment: privileged stack pointers and the
/// interrupt stack table.
#[derive(Debug, Clone, Copy, PartialEq, Eq, Structural)]
pub struct TaskStateSegment {
    pub rsp0: u64,
    pub rsp1: u64,
    pub rsp2: u64,
    pub ist1: u64,
    pub ist2: u64,
    pub ist3: u64,
    pub ist4: u64,
    pub ist5: u64,
    pub ist6: u64,
    pub ist7: u64,
    pub iomap_base: u16,
}

impl TaskStateSegment {
    /// A zeroed TSS whose I/O-map base points past the segment (no I/O
    /// bitmap).
    pub fn new() -> (r: Self)
        ensures
            r == (TaskStateSegment {
                rsp0: 0,
                rsp1: 0,
                rsp2: 0,
                ist1: 0,
                ist2: 0,
                ist3: 0,
                ist4: 0,
                ist5: 0,
                ist6: 0,
                ist7: 0,
                iomap_base: 0x68,
            }),
    {
        Self {
            rsp0: 0,
            rsp1: 0,
            rsp2: 0,
            ist1: 0,
            ist2: 0,
            ist3: 0,
            ist4: 0,
            ist5: 0,
            ist6: 0,
            ist7: 0,
            iomap_base: 0x68,
        }
    }
}

/// One eight-byte descriptor.
#[derive(Debug, Clone, Copy, PartialEq, Eq, Structural)]
pub struct GdtEntry {
    pub limit_low: u16,
    pub base_low: u16,
    pub base_middle: u8,
    pub access: u8,
    pub granularity: u8,
    pub base_high: u8,
}

impl GdtEntry {
    /// The null descriptor.
    pub fn null() -> (r: Self)
        ensures
            r == (GdtEntry {
                limit_low: 0,
                base_low: 0,
                base_middle: 0,
                access: 0,
                granularity: 0,
                base_high: 0,
            }),
    {
        Self { limit_low: 0, base_low: 0, base_middle: 0, access: 0, granularity: 0, base_high: 0 }
    }

    /// A long-mode code segment at the given privilege level: present,
    /// executable, readable, with the long-mode granularity bit.
    pub fn code_segment(dpl: u8) -> (r: Self)
        ensures
            r.access == 0x9Au8 | ((dpl & 3) << 5),
            r.granularity == 0x20,
            r.limit_low == 0 && r.base_low == 0 && r.base_middle == 0 && r.base_high == 0,
    {
        Self {
            limit_low: 0,
            base_low: 0,
            base_middle: 0,
            access: 0x9A | ((dpl & 0b11) << 5),
            granularity: 0x20,
            base_high: 0,
        }
    }

    /// A data segment at the given privilege level: present, writable.
    pub fn data_segment(dpl: u8) -> (r: Self)
        ensures
            r.access == 0x92u8 | ((dpl & 3) << 5),
            r.granularity == 0,
            r.limit_low == 0 && r.base_low == 0 && r.base_middle == 0 && r.base_high == 0,
    {
        Self {
            limit_low: 0,
            base_low: 0,
            base_middle: 0,
            access: 0x92 | ((dpl & 0b11) << 5),
            granularity: 0,
            base_high: 0,
        }
    }
}

/// The 16-byte TSS descriptor: the TSS address split over both halves.
#[derive(Debug, Clone, Copy, PartialEq, Eq, Structural)]
pub struct TssDescriptor {
    pub low: GdtEntry,
    pub high: GdtEntry,
}

/// Byte size of the task-state segment as encoded in its descriptor limit.
pub const TSS_LIMIT: u32 = 0x67;

impl TssDescriptor {
    /// Encode a TSS descriptor for a TSS at `tss_addr`: the 64-bit address
    /// split over the descriptor's base fields, an available-TSS type, and
    /// the fixed limit.
    pub fn new(tss_addr: u64) -> (r: Self)
        ensures
            r.low.limit_low == TSS_LIMIT & 0xFFFF,
            r.low.base_low == tss_addr & 0xFFFF,
            r.low.base_middle == (tss_addr >> 16) & 0xFF,
            r.low.access == 0x89,
            r.low.granularity == (TSS_LIMIT >> 16) & 0x0F,
            r.low.base_high == (tss_addr >> 24) & 0xFF,
            r.high.limit_low == (tss_addr >> 32) & 0xFFFF,
            r.high.base_low == (tss_addr >> 48) & 0xFFFF,
            r.high.base_middle == 0 && r.high.access == 0 && r.high.granularity == 0
                && r.high.base_high == 0,
    {
        proof {
            assert(tss_addr & 0xFFFF <= 0xFFFF && (tss_addr >> 16) & 0xFF <= 0xFF && (tss_addr
                >> 24) & 0xFF <= 0xFF && (tss_addr >> 32) & 0xFFFF <= 0xFFFF && (tss_addr >> 48)
                & 0xFFFF <= 0xFFFF) by (bit_vector);
            assert(TSS_LIMIT & 0xFFFF <= 0xFFFFu32 && (TSS_LIMIT >> 16) & 0x0F <= 0xFFu32)
                by (bit_vector);
        }
        let low = GdtEntry {
            limit_low: (TSS_LIMIT & 0xFFFF) as u16,
            base_low: (tss_addr & 0xFFFF) as u16,
            base_middle: ((tss_addr >> 16) & 0xFF) as u8,
            access: 0x89,
            granularity: ((TSS_LIMIT >> 16) & 0x0F) as u8,
            base_high: ((tss_addr >> 24) & 0xFF) as u8,
        };
        let high = GdtEntry {
            limit_low: ((tss_addr >> 32) & 0xFFFF) as u16,
            base_low: ((tss_addr >> 48) & 0xFFFF) as u16,
            base_middle: 0,
            access: 0,
            granularity: 0,
            base_high: 0,
        };
        Self { low, high }
    }
}

/// The whole descriptor table: null, kernel and user code/data, and the TSS.
#[derive(Debug, Clone, Copy, PartialEq, Eq, Structural)]
pub struct Gdt {
    pub null: GdtEntry,
    pub kernel_code: GdtEntry,
    pub kernel_data: GdtEntry,
    pub user_code: GdtEntry,
    pub user_data: GdtEntry,
    pub tss: TssDescriptor,
}

impl Gdt {
    /// The boot table: ring-0 and ring-3 code and data segments and a
    /// placeholder TSS descriptor, to be set before loading.
    pub fn new() -> (r: Self)
        ensures
            r.null == GdtEntry::spec_null(),
            r.kernel_code.access == 0x9Au8,
            r.kernel_data.access == 0x92u8,
            r.user_code.access == 0x9Au8 | (3u8 << 5),
            r.user_data.access == 0x92u8 | (3u8 << 5),
    {
        proof {
            assert(0u8 & 3 == 0 && 3u8 & 3 == 3 && 0x9Au8 | ((0u8 & 3) << 5) == 0x9Au8 && 0x92u8
                | ((0u8 & 3) << 5) == 0x92u8) by (bit_vector);
        }
        Self {
            null: GdtEntry::null(),
            kernel_code: GdtEntry::code_segment(0),
            kernel_data: GdtEntry::data_segment(0),
            user_code: GdtEntry::code_segment(3),
            user_data: GdtEntry::data_segment(3),
            tss: TssDescriptor::new(0),
        }
    }

    /// Point the TSS descriptor at a TSS at `tss_addr`.
    pub fn set_tss(&mut self, tss_addr: u64)
        ensures
            *final (self) == (Gdt { tss: final (self).tss, ..*old(self) }),
            final (self).tss.low.base_low == tss_addr & 0xFFFF,
            final (self).tss.high.limit_low == (tss_addr >> 32) & 0xFFFF,
    {
        self.tss = TssDescriptor::new(tss_addr);
    }
}

impl GdtEntry {
    /// The null descriptor's value.
    pub open spec fn spec_null() -> GdtEntry {
        GdtEntry { limit_low: 0, base_low: 0, base_middle: 0, access: 0, granularity: 0, base_high: 0 }
    }
}

} // verus!
