//! The handoff structure the bootloader leaves for the kernel: framebuffer
//! geometry, the firmware memory map, the RSDP address, and the highest
//! physical address observed.

use vstd::prelude::*;

verus! {

/// Framebuffer descriptor captured from the firmware graphics protocol.
#[derive(Debug, Clone, Copy, PartialEq, Eq, Structural)]
pub struct FramebufferInfo {
    pub base: u64,
    pub size: u64,
    pub width: u32,
    pub height: u32,
    pub stride: u32,
}

/// One region of the firmware memory map.
#[derive(Debug, Clone, Copy, PartialEq, Eq, Structural)]
pub struct MemoryRegion {
    pub start: u64,
    pub size: u64,
    pub region_type: u32,
}

/// Most memory-map entries the handoff structure can carry.
pub const MAX_MEMORY_REGIONS: usize = 256;

/// Firmware code for conventional (freely usable) memory.
pub const CONVENTIONAL_MEMORY: u32 = 7;

/// Everything the bootloader hands the kernel. Written once before boot
/// services exit; read-only to the kernel afterwards.
pub struct BootInfo {
    pub framebuffer: FramebufferInfo,
    pub memory_map: Vec<MemoryRegion>,
    pub memory_map_count: usize,
    pub rsdp_address: u64,
    /// Highest physical address that must be mapped.
    pub max_physical_address: u64,
}

impl BootInfo {
    /// The recorded regions, as a sequence.
    pub open spec fn regions(self) -> Seq<MemoryRegion> {
        self.memory_map@
    }

    /// A handoff structure is well formed when its count matches the map and
    /// stays within the fixed capacity.
    pub open spec fn wf(self) -> bool {
        self.memory_map_count == self.memory_map@.len() <= MAX_MEMORY_REGIONS
    }

    /// An empty handoff structure: zeroed framebuffer, no regions.
    pub fn new() -> (r: Self)
        ensures
            r.wf(),
            r.regions().len() == 0,
            r.framebuffer == (FramebufferInfo { base: 0, size: 0, width: 0, height: 0, stride: 0 }),
            r.rsdp_address == 0,
            r.max_physical_address == 0,
    {
        Self {
            framebuffer: FramebufferInfo { base: 0, size: 0, width: 0, height: 0, stride: 0 },
            memory_map: Vec::new(),
            memory_map_count: 0,
            rsdp_address: 0,
            max_physical_address: 0,
        }
    }

    /// Record one more memory-map region. Regions beyond the fixed capacity
    /// are dropped, as the bootloader copies at most that many.
    pub fn push_region(&mut self, region: MemoryRegion)
        requires
            old(self).wf(),
        ensures
            final (self).wf(),
            old(self).regions().len() < MAX_MEMORY_REGIONS ==> final (self).regions() == old(
                self,
            ).regions().push(region),
            old(self).regions().len() >= MAX_MEMORY_REGIONS ==> final (self).regions() == old(
                self,
            ).regions(),
            final (self).framebuffer == old(self).framebuffer,
            final (self).rsdp_address == old(self).rsdp_address,
            final (self).max_physical_address == old(self).max_physical_address,
    {
        if self.memory_map.len() < MAX_MEMORY_REGIONS {
            self.memory_map.push(region);
            self.memory_map_count = self.memory_map_count + 1;
        }
    }

    /// The start and size of the largest conventional region, or `None` when
    /// the map holds no usable memory. This is the block the kernel heap is
    /// seeded from.
    pub fn largest_conventional_region(&self) -> (r: Option<(u64, u64)>)
        requires
            self.wf(),
        ensures
            match r {
                Some((start, size)) => {
                    &&& size > 0
                    &&& exists|i: int|
                        0 <= i < self.regions().len() && #[trigger] self.regions()[i]
                            == (MemoryRegion {
                            start,
                            size,
                            region_type: CONVENTIONAL_MEMORY,
                        })
                    &&& forall|i: int|
                        0 <= i < self.regions().len() && (#[trigger] self.regions()[i]).region_type
                            == CONVENTIONAL_MEMORY ==> self.regions()[i].size <= size
                },
                None => forall|i: int|
                    0 <= i < self.regions().len() && (#[trigger] self.regions()[i]).region_type
                        == CONVENTIONAL_MEMORY ==> self.regions()[i].size == 0,
            },
    {
        let mut best_start: u64 = 0;
        let mut best_size: u64 = 0;
        let ghost mut best_idx: int = -1;
        let mut i: usize = 0;
        while i < self.memory_map.len()
            invariant
                self.wf(),
                i <= self.memory_map@.len(),
                best_size > 0 ==> 0 <= best_idx < i && self.regions()[best_idx] == (MemoryRegion {
                    start: best_start,
                    size: best_size,
                    region_type: CONVENTIONAL_MEMORY,
                }),
                forall|j: int|
                    0 <= j < i && (#[trigger] self.regions()[j]).region_type
                        == CONVENTIONAL_MEMORY ==> self.regions()[j].size <= best_size,
            decreases self.memory_map@.len() - i,
        {
            let region = self.memory_map[i];
            if region.region_type == CONVENTIONAL_MEMORY && region.size > best_size {
                best_start = region.start;
                best_size = region.size;
                proof {
                    best_idx = i as int;
                }
            }
            i = i + 1;
        }
        if best_size > 0 {
            Some((best_start, best_size))
        } else {
            None
        }
    }
}

/// The name of a firmware memory-map region type.
pub fn memory_type_str(mem_type: u32) -> (r: &'static str)
    ensures
        mem_type == 0 ==> r@ == "Reserved"@,
        mem_type == 1 ==> r@ == "LoaderCode"@,
        mem_type == 2 ==> r@ == "LoaderData"@,
        mem_type == 3 ==> r@ == "BSCode"@,
        mem_type == 4 ==> r@ == "BSData"@,
        mem_type == 5 ==> r@ == "RTCode"@,
        mem_type == 6 ==> r@ == "RTData"@,
        mem_type == CONVENTIONAL_MEMORY ==> r@ == "Available"@,
        mem_type == 8 ==> r@ == "Unusable"@,
        mem_type == 9 ==> r@ == "ACPIReclaim"@,
        mem_type == 10 ==> r@ == "ACPINVS"@,
        mem_type == 11 ==> r@ == "MMIO"@,
        mem_type == 12 ==> r@ == "MMIOPort"@,
        mem_type == 13 ==> r@ == "PALCode"@,
        mem_type > 13 ==> r@ == "Unknown"@,
{
    match mem_type {
        0 => "Reserved",
        1 => "LoaderCode",
        2 => "LoaderData",
        3 => "BSCode",
        4 => "BSData",
        5 => "RTCode",
        6 => "RTData",
        7 => "Available",
        8 => "Unusable",
        9 => "ACPIReclaim",
        10 => "ACPINVS",
        11 => "MMIO",
        12 => "MMIOPort",
        13 => "PALCode",
        _ => "Unknown",
    }
}

impl Default for BootInfo {
    /// Same as [`BootInfo::new`].
    fn default() -> (r: Self)
        ensures
            r.wf(),
            r.regions().len() == 0,
    {
        Self::new()
    }
}

} // verus!
