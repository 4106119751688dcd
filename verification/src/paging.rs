//! Four-level paging model: page-table entries, the direct physical mapping
//! of the higher half, the kernel-stack guard page, and the sanctioned
//! physical/virtual address conversions.
//!
//! The page-table *entries* are the architecturally visible state, so the
//! model stores the full page-table level; the fixed PML4/PDP/PD links are
//! embodied by the index arithmetic of [`KernelPageTables::walk`].

use vstd::prelude::*;

verus! {

/// Base of the higher-half kernel address space.
pub const KERNEL_VIRTUAL_BASE: u64 = 0xFFFF_8000_0000_0000;

/// Size of one page in bytes.
pub const PAGE_SIZE: u64 = 4096;

/// Entries per page table.
pub const PAGE_TABLE_ENTRY_COUNT: usize = 512;

/// Largest physical address the kernel will ever map (design constant, 4 GiB).
pub const MAX_SUPPORTED_MEMORY: u64 = 0x1_0000_0000;

/// Mask of the physical-frame bits inside a page-table entry.
pub const ENTRY_ADDRESS_MASK: u64 = 0x000F_FFFF_FFFF_F000;

/// Errors raised by the paging subsystem.
#[derive(Debug, Clone, Copy, PartialEq, Eq, Structural)]
pub enum PagingError {
    /// An address that may not be converted (zero, or below the higher half).
    InvalidAddress,
    /// The address lies outside the mapped physical range.
    AddressConversionFailed,
    /// The guard page could not be placed inside the mapped range.
    GuardPageSetupFailed,
    /// The page tables could not be built.
    PageTableInitFailed,
}

/// Flag bits of a page-table entry.
#[derive(Debug, Clone, Copy, PartialEq, Eq, Structural)]
pub enum PageTableFlags {
    Present,
    Writable,
    UserAccessible,
    WriteThrough,
    CacheDisable,
    Accessed,
    Dirty,
    HugePage,
    Global,
    NoExecute,
}

impl PageTableFlags {
    /// The bit this flag occupies in an entry.
    pub open spec fn spec_bits(self) -> u64 {
        match self {
            PageTableFlags::Present => 0x1,
            PageTableFlags::Writable => 0x2,
            PageTableFlags::UserAccessible => 0x4,
            PageTableFlags::WriteThrough => 0x8,
            PageTableFlags::CacheDisable => 0x10,
            PageTableFlags::Accessed => 0x20,
            PageTableFlags::Dirty => 0x40,
            PageTableFlags::HugePage => 0x80,
            PageTableFlags::Global => 0x100,
            PageTableFlags::NoExecute => 0x8000_0000_0000_0000,
        }
    }

    /// The bit this flag occupies in an entry.
    #[verifier::when_used_as_spec(spec_bits)]
    pub fn bits(self) -> (r: u64)
        ensures
            r == self.spec_bits(),
    {
        match self {
            PageTableFlags::Present => 0x1,
            PageTableFlags::Writable => 0x2,
            PageTableFlags::UserAccessible => 0x4,
            PageTableFlags::WriteThrough => 0x8,
            PageTableFlags::CacheDisable => 0x10,
            PageTableFlags::Accessed => 0x20,
            PageTableFlags::Dirty => 0x40,
            PageTableFlags::HugePage => 0x80,
            PageTableFlags::Global => 0x100,
            PageTableFlags::NoExecute => 0x8000_0000_0000_0000,
        }
    }
}

/// One 64-bit page-table entry: a 4 KiB-aligned frame address plus flag bits.
/// An entry whose Present bit is clear maps nothing; touching its range
/// faults.
#[derive(Debug, Clone, Copy, PartialEq, Eq, Structural)]
pub struct PageTableEntry {
    pub entry: u64,
}

impl PageTableEntry {
    /// The raw bits of the entry.
    pub open spec fn raw(self) -> u64 {
        self.entry
    }

    /// Whether the Present bit is set.
    pub open spec fn spec_is_present(self) -> bool {
        self.entry & 0x1 != 0
    }

    /// The frame address stored in the entry.
    pub open spec fn spec_address(self) -> u64 {
        self.entry & ENTRY_ADDRESS_MASK
    }

    /// A cleared entry: maps nothing.
    pub fn new() -> (r: Self)
        ensures
            r.raw() == 0,
    {
        Self { entry: 0 }
    }

    /// Whether the entry is marked Present.
    pub fn is_present(&self) -> (r: bool)
        ensures
            r == self.spec_is_present(),
    {
        (self.entry & PageTableFlags::Present.bits()) != 0
    }

    /// Set the given flag bits, leaving the rest of the entry unchanged.
    pub fn set_flags(&mut self, flags: u64)
        ensures
            final (self).entry == old(self).entry | flags,
    {
        self.entry = self.entry | flags;
    }

    /// Replace the frame address, keeping the low flag bits.
    pub fn set_address(&mut self, addr: u64)
        ensures
            final (self).entry == (old(self).entry & 0xFFF) | (addr & ENTRY_ADDRESS_MASK),
    {
        let addr_masked = addr & ENTRY_ADDRESS_MASK;
        self.entry = (self.entry & 0xFFF) | addr_masked;
    }

    /// Overwrite the whole entry with the given frame address and flags.
    pub fn set(&mut self, addr: u64, flags: u64)
        ensures
            final (self).entry == (addr & ENTRY_ADDRESS_MASK) | flags,
    {
        let addr_masked = addr & ENTRY_ADDRESS_MASK;
        self.entry = addr_masked | flags;
    }

    /// The frame address stored in the entry.
    pub fn get_address(&self) -> (r: u64)
        ensures
            r == self.spec_address(),
    {
        self.entry & ENTRY_ADDRESS_MASK
    }

    /// The raw 64-bit value of the entry.
    pub fn get_raw(&self) -> (r: u64)
        ensures
            r == self.raw(),
    {
        self.entry
    }
}

/// One page table: 512 entries.
pub struct PageTable {
    pub entries: Vec<PageTableEntry>,
}

impl PageTable {
    /// A table is well formed when it holds exactly 512 entries.
    pub open spec fn wf(self) -> bool {
        self.entries.len() == PAGE_TABLE_ENTRY_COUNT
    }

    /// The entry at `index`.
    pub open spec fn spec_entry(self, index: int) -> PageTableEntry {
        self.entries[index]
    }

    /// A fresh table with all 512 entries cleared.
    pub fn new() -> (r: Self)
        ensures
            r.wf(),
            forall|i: int| 0 <= i < 512 ==> r.spec_entry(i).raw() == 0,
    {
        let mut entries: Vec<PageTableEntry> = Vec::new();
        let mut i: usize = 0;
        while i < PAGE_TABLE_ENTRY_COUNT
            invariant
                i == entries.len() <= PAGE_TABLE_ENTRY_COUNT,
                forall|j: int| 0 <= j < i ==> entries[j].raw() == 0,
            decreases PAGE_TABLE_ENTRY_COUNT - i,
        {
            entries.push(PageTableEntry::new());
            i = i + 1;
        }
        Self { entries }
    }

    /// Read the entry at `index`.
    pub fn entry(&self, index: usize) -> (r: PageTableEntry)
        requires
            self.wf(),
            index < PAGE_TABLE_ENTRY_COUNT,
        ensures
            r == self.spec_entry(index as int),
    {
        self.entries[index]
    }

    /// Overwrite the entry at `index`.
    pub fn set_entry(&mut self, index: usize, e: PageTableEntry)
        requires
            old(self).wf(),
            index < PAGE_TABLE_ENTRY_COUNT,
        ensures
            final (self).wf(),
            final (self).spec_entry(index as int) == e,
            forall|j: int|
                0 <= j < 512 && j != index ==> final (self).spec_entry(j) == old(
                    self,
                ).spec_entry(j),
    {
        self.entries.set(index, e);
    }

    /// Clear every entry.
    pub fn clear(&mut self)
        requires
            old(self).wf(),
        ensures
            final (self).wf(),
            forall|i: int| 0 <= i < 512 ==> final (self).spec_entry(i).raw() == 0,
    {
        *self = PageTable::new();
    }
}

/// Bytes covered by one page table (512 entries of 4 KiB).
pub const PT_SPAN: u64 = 0x20_0000;

/// Present and Writable: the flags of every mapped kernel page.
pub const KERNEL_PAGE_FLAGS: u64 = 0x3;

/// The kernel's own page tables: a direct mapping of physical memory into the
/// higher half, with one not-present guard page below the kernel stack.
///
/// Only the page-table level is stored; the PML4/PDP/PD links are fixed by
/// the direct-mapping layout and are embodied by the index arithmetic of
/// [`Self::walk`].
pub struct KernelPageTables {
    /// The page tables, in order of the physical range they cover.
    pub pts: Vec<PageTable>,
    /// Bytes of physical memory mapped; a multiple of `PT_SPAN`.
    pub mapped_bytes: u64,
    /// Virtual address of the guard page.
    pub guard_virt: u64,
}

impl KernelPageTables {
    /// Physical address recorded (but not mapped) at the guard page.
    pub open spec fn guard_phys(self) -> u64 {
        (self.guard_virt - KERNEL_VIRTUAL_BASE) as u64
    }

    /// Number of 4 KiB pages mapped.
    pub open spec fn n_pages(self) -> int {
        self.mapped_bytes as int / PAGE_SIZE as int
    }

    /// The page-table entry that governs the `page`-th physical page.
    pub open spec fn page_entry(self, page: int) -> PageTableEntry {
        self.pts[page / 512].spec_entry(page % 512)
    }

    /// Structural well-formedness.
    pub open spec fn wf(self) -> bool {
        &&& 0 < self.mapped_bytes <= MAX_SUPPORTED_MEMORY
        &&& self.mapped_bytes % PT_SPAN == 0
        &&& self.pts.len() == self.mapped_bytes as int / PT_SPAN as int
        &&& forall|t: int| 0 <= t < self.pts.len() ==> (#[trigger] self.pts[t]).wf()
        &&& KERNEL_VIRTUAL_BASE <= self.guard_virt
        &&& self.guard_phys() % PAGE_SIZE == 0
        &&& self.guard_phys() < self.mapped_bytes
    }

    /// The mapping policy of §page tables: every physical page below the
    /// limit is mapped at its higher-half alias, Present and Writable, except
    /// the guard page, which keeps its frame address but is not Present.
    pub open spec fn maps_direct(self) -> bool {
        forall|page: int|
            0 <= page < self.n_pages() ==> {
                let e = #[trigger] self.page_entry(page);
                if page * PAGE_SIZE == self.guard_phys() {
                    e.raw() == self.guard_phys()
                } else {
                    e.raw() == page * PAGE_SIZE + KERNEL_PAGE_FLAGS
                }
            }
    }

    /// Build the page table covering physical range
    /// `[pt_number * PT_SPAN, (pt_number + 1) * PT_SPAN)`, with the guard
    /// page (given as a global page number) left not-present.
    fn build_pt(pt_number: usize, guard_page: u64) -> (r: PageTable)
        requires
            pt_number < 2048,
        ensures
            r.wf(),
            forall|j: int|
                0 <= j < 512 ==> {
                    let page = pt_number * 512 + j;
                    let e = #[trigger] r.spec_entry(j);
                    if page == guard_page {
                        e.raw() == page * PAGE_SIZE
                    } else {
                        e.raw() == page * PAGE_SIZE + KERNEL_PAGE_FLAGS
                    }
                },
    {
        let mut table = PageTable::new();
        let mut j: usize = 0;
        while j < PAGE_TABLE_ENTRY_COUNT
            invariant
                pt_number < 2048,
                table.wf(),
                j <= PAGE_TABLE_ENTRY_COUNT,
                forall|i: int|
                    0 <= i < j ==> {
                        let page = pt_number * 512 + i;
                        let e = #[trigger] table.spec_entry(i);
                        if page == guard_page {
                            e.raw() == page * PAGE_SIZE
                        } else {
                            e.raw() == page * PAGE_SIZE + KERNEL_PAGE_FLAGS
                        }
                    },
            decreases PAGE_TABLE_ENTRY_COUNT - j,
        {
            let page: u64 = (pt_number as u64) * 512 + (j as u64);
            let phys: u64 = page * PAGE_SIZE;
            let mut e = PageTableEntry::new();
            if page == guard_page {
                e.set(phys, 0);
            } else {
                e.set(phys, KERNEL_PAGE_FLAGS);
            }
            proof {
                assert(phys & ENTRY_ADDRESS_MASK == phys) by (bit_vector)
                    requires
                        phys < 0x1_0000_0000u64 && phys % 4096 == 0,
                ;
                assert(phys | 0u64 == phys) by (bit_vector);
                assert(phys | 3u64 == phys + 3) by (bit_vector)
                    requires
                        phys % 4096 == 0,
                ;
            }
            table.set_entry(j, e);
            j = j + 1;
        }
        table
    }

    /// The bytes the tables will map for a physical limit: capped at the
    /// design maximum, rounded up to a whole page table.
    pub open spec fn spec_mapped_bytes(max_physical: u64) -> int {
        crate::addr::spec_align_up(
            if max_physical >= MAX_SUPPORTED_MEMORY {
                MAX_SUPPORTED_MEMORY
            } else {
                max_physical
            },
            PT_SPAN,
        )
    }

    /// Whether a guard-page address is usable for a physical limit: in the
    /// higher half, page-aligned, and inside the mapped range.
    pub open spec fn guard_placement_ok(max_physical: u64, guard_virt: u64) -> bool {
        &&& guard_virt >= KERNEL_VIRTUAL_BASE
        &&& (guard_virt - KERNEL_VIRTUAL_BASE) % (PAGE_SIZE as int) == 0
        &&& guard_virt - KERNEL_VIRTUAL_BASE < Self::spec_mapped_bytes(max_physical)
    }

    /// Build the kernel page tables: map `[0, max_physical)` (capped at
    /// `MAX_SUPPORTED_MEMORY`, rounded up to a whole page table) into the
    /// higher half, and leave the page at `guard_virt` not Present.
    ///
    /// Succeeds exactly when there is something to map and the guard page
    /// fits; fails with `PageTableInitFailed` when there is nothing to map,
    /// and with `GuardPageSetupFailed` when `guard_virt` is below the higher
    /// half, not page-aligned, or outside the mapped range.
    pub fn build(max_physical: u64, guard_virt: u64) -> (r: Result<KernelPageTables, PagingError>)
        ensures
            r is Ok <==> max_physical > 0 && Self::guard_placement_ok(max_physical, guard_virt),
            r == Err::<KernelPageTables, PagingError>(PagingError::PageTableInitFailed)
                <==> max_physical == 0,
            r == Err::<KernelPageTables, PagingError>(PagingError::GuardPageSetupFailed)
                <==> max_physical > 0 && !Self::guard_placement_ok(max_physical, guard_virt),
            match r {
                Ok(kpt) => {
                    &&& kpt.wf()
                    &&& kpt.maps_direct()
                    &&& kpt.guard_virt == guard_virt
                    &&& kpt.mapped_bytes == Self::spec_mapped_bytes(max_physical)
                },
                Err(e) => true,
            },
    {
        if max_physical == 0 {
            return Err(PagingError::PageTableInitFailed);
        }
        let capped = if max_physical >= MAX_SUPPORTED_MEMORY {
            MAX_SUPPORTED_MEMORY
        } else {
            max_physical
        };
        proof {
            assert(PT_SPAN == 1u64 << 21) by (bit_vector);
        }
        let mapped = crate::addr::align_up(capped, PT_SPAN);
        if guard_virt < KERNEL_VIRTUAL_BASE {
            return Err(PagingError::GuardPageSetupFailed);
        }
        let guard_off = guard_virt - KERNEL_VIRTUAL_BASE;
        if guard_off % PAGE_SIZE != 0 || guard_off >= mapped {
            return Err(PagingError::GuardPageSetupFailed);
        }
        let guard_page = guard_off / PAGE_SIZE;
        let n_pts: usize = (mapped / PT_SPAN) as usize;
        let mut pts: Vec<PageTable> = Vec::new();
        let mut t: usize = 0;
        while t < n_pts
            invariant
                n_pts <= 2048,
                t == pts.len() <= n_pts,
                forall|u: int| 0 <= u < t ==> (#[trigger] pts[u]).wf(),
                forall|u: int, j: int|
                    0 <= u < t && 0 <= j < 512 ==> {
                        let page = u * 512 + j;
                        let e = #[trigger] pts[u].spec_entry(j);
                        if page == guard_page {
                            e.raw() == page * PAGE_SIZE
                        } else {
                            e.raw() == page * PAGE_SIZE + KERNEL_PAGE_FLAGS
                        }
                    },
            decreases n_pts - t,
        {
            pts.push(Self::build_pt(t, guard_page));
            t = t + 1;
        }
        let kpt = KernelPageTables { pts, mapped_bytes: mapped, guard_virt };
        proof {
            assert forall|page: int| 0 <= page < kpt.n_pages() implies {
                let e = #[trigger] kpt.page_entry(page);
                if page * PAGE_SIZE == kpt.guard_phys() {
                    e.raw() == kpt.guard_phys()
                } else {
                    e.raw() == page * PAGE_SIZE + KERNEL_PAGE_FLAGS
                }
            } by {
                let t = page / 512;
                let j = page % 512;
                vstd::arithmetic::div_mod::lemma_fundamental_div_mod(page, 512);
                vstd::arithmetic::div_mod::lemma_mod_bound(page, 512);
                vstd::arithmetic::div_mod::lemma_multiply_divide_lt(
                    page,
                    kpt.pts.len() as int,
                    512,
                );
                vstd::arithmetic::div_mod::lemma_fundamental_div_mod(
                    guard_off as int,
                    PAGE_SIZE as int,
                );
            }
        }
        Ok(kpt)
    }

    /// Walk the tables for a higher-half virtual address and return the
    /// entry that governs it.
    ///
    /// Fails with `InvalidAddress` below the higher half, and with
    /// `AddressConversionFailed` beyond the mapped range.
    pub fn walk(&self, virt: u64) -> (r: Result<PageTableEntry, PagingError>)
        requires
            self.wf(),
        ensures
            virt < KERNEL_VIRTUAL_BASE ==> r == Err::<PageTableEntry, PagingError>(
                PagingError::InvalidAddress,
            ),
            virt >= KERNEL_VIRTUAL_BASE && virt - KERNEL_VIRTUAL_BASE >= self.mapped_bytes ==> r
                == Err::<PageTableEntry, PagingError>(PagingError::AddressConversionFailed),
            virt >= KERNEL_VIRTUAL_BASE && virt - KERNEL_VIRTUAL_BASE < self.mapped_bytes ==> r
                == Ok::<PageTableEntry, PagingError>(
                self.page_entry((virt - KERNEL_VIRTUAL_BASE) as int / PAGE_SIZE as int),
            ),
    {
        if virt < KERNEL_VIRTUAL_BASE {
            return Err(PagingError::InvalidAddress);
        }
        let off = virt - KERNEL_VIRTUAL_BASE;
        if off >= self.mapped_bytes {
            return Err(PagingError::AddressConversionFailed);
        }
        let page = off / PAGE_SIZE;
        let pt_idx = (page / 512) as usize;
        let e_idx = (page % 512) as usize;
        proof {
            vstd::arithmetic::div_mod::lemma_mod_bound(page as int, 512);
            vstd::arithmetic::div_mod::lemma_multiply_divide_lt(
                page as int,
                self.pts.len() as int,
                512,
            );
            vstd::arithmetic::div_mod::lemma_div_is_ordered(
                off as int,
                self.mapped_bytes as int - 1,
                PAGE_SIZE as int,
            );
        }
        Ok(self.pts[pt_idx].entry(e_idx))
    }

    /// Every mapped page other than the guard page is Present and Writable
    /// at its higher-half alias, with its own physical frame recorded.
    pub proof fn lemma_mapped_page_present(self, page: int)
        requires
            self.wf(),
            self.maps_direct(),
            0 <= page < self.n_pages(),
            page * PAGE_SIZE != self.guard_phys(),
        ensures
            self.page_entry(page).spec_is_present(),
            self.page_entry(page).spec_address() == page * PAGE_SIZE,
            self.page_entry(page).raw() & PageTableFlags::Writable.spec_bits() != 0,
    {
        let e = self.page_entry(page);
        let phys = (page * PAGE_SIZE) as u64;
        assert(phys % 4096 == 0 && phys < 0x1_0000_0000) by (nonlinear_arith)
            requires
                phys == page * PAGE_SIZE,
                0 <= page < self.n_pages(),
                self.n_pages() == self.mapped_bytes as int / PAGE_SIZE as int,
                self.mapped_bytes <= MAX_SUPPORTED_MEMORY,
                PAGE_SIZE == 4096,
                self.mapped_bytes % PT_SPAN == 0,
                PT_SPAN == 0x20_0000,
                MAX_SUPPORTED_MEMORY == 0x1_0000_0000,
        ;
        assert(e.raw() == phys + 3);
        assert(phys % 4096 == 0 && phys < 0x1_0000_0000 ==> ((phys + 3) as u64) & 0x1u64 != 0 && ((
        phys + 3) as u64) & 0x2u64 != 0 && ((phys + 3) as u64) & ENTRY_ADDRESS_MASK == phys)
            by (bit_vector);
    }

    /// The guard page's entry is not Present: touching the guard page
    /// faults, so a kernel-stack overflow is caught rather than silently
    /// corrupting memory.
    pub proof fn lemma_guard_page_not_present(self)
        requires
            self.wf(),
            self.maps_direct(),
        ensures
            !self.page_entry(self.guard_phys() as int / PAGE_SIZE as int).spec_is_present(),
            self.page_entry(self.guard_phys() as int / PAGE_SIZE as int).spec_address()
                == self.guard_phys(),
    {
        let gp = self.guard_phys() as int / PAGE_SIZE as int;
        vstd::arithmetic::div_mod::lemma_fundamental_div_mod(
            self.guard_phys() as int,
            PAGE_SIZE as int,
        );
        vstd::arithmetic::div_mod::lemma_div_is_ordered(
            self.guard_phys() as int,
            self.mapped_bytes as int - 1,
            PAGE_SIZE as int,
        );
        assert(gp * PAGE_SIZE == self.guard_phys());
        assert(gp < self.n_pages()) by {
            vstd::arithmetic::div_mod::lemma_div_is_ordered(
                self.guard_phys() as int,
                self.mapped_bytes as int,
                PAGE_SIZE as int,
            );
            if gp == self.n_pages() {
                assert(self.mapped_bytes % PAGE_SIZE == 0) by (nonlinear_arith)
                    requires
                        self.mapped_bytes % PT_SPAN == 0,
                ;
            }
        }
        let e = self.page_entry(gp);
        let g = self.guard_phys();
        assert(e.raw() == g);
        assert(g % 4096 == 0 && g < 0x1_0000_0000 ==> (g & 0x1u64 == 0) && (g
            & ENTRY_ADDRESS_MASK == g)) by (bit_vector);
    }
}

/// Present, Writable and Huge: the flags of the bootloader's transient
/// 2 MiB mappings.
pub const BOOT_HUGE_PAGE_FLAGS: u64 = 0x83;

/// Build one page directory of the bootloader's transient mapping: 512 huge
/// 2 MiB entries covering gigabyte `pd_index`, identity and higher half
/// alike. Eight of these cover the 8 GiB the loader maps before the kernel
/// builds its own tables.
pub fn build_boot_pd(pd_index: u64) -> (r: PageTable)
    requires
        pd_index < 8,
    ensures
        r.wf(),
        forall|j: int|
            0 <= j < 512 ==> (#[trigger] r.spec_entry(j)).raw() == (pd_index * 512 + j) * PT_SPAN
                + BOOT_HUGE_PAGE_FLAGS,
{
    let mut table = PageTable::new();
    let mut j: usize = 0;
    while j < PAGE_TABLE_ENTRY_COUNT
        invariant
            pd_index < 8,
            table.wf(),
            j <= PAGE_TABLE_ENTRY_COUNT,
            forall|i: int|
                0 <= i < j ==> (#[trigger] table.spec_entry(i)).raw() == (pd_index * 512 + i)
                    * PT_SPAN + BOOT_HUGE_PAGE_FLAGS,
        decreases PAGE_TABLE_ENTRY_COUNT - j,
    {
        let phys: u64 = (pd_index * 512 + (j as u64)) * PT_SPAN;
        let mut e = PageTableEntry::new();
        e.set(phys, BOOT_HUGE_PAGE_FLAGS);
        proof {
            assert(phys % 0x20_0000 == 0) by (nonlinear_arith)
                requires
                    phys == (pd_index * 512 + j) * 0x20_0000,
            ;
            assert(phys & ENTRY_ADDRESS_MASK == phys && phys | 0x83u64 == phys + 0x83)
                by (bit_vector)
                requires
                    phys < 0x2_0000_0000u64 && phys % 0x20_0000 == 0,
            ;
        }
        table.set_entry(j, e);
        j = j + 1;
    }
    table
}

/// Result of converting a physical address to its higher-half virtual alias.
pub open spec fn spec_phys_to_virt(phys: u64) -> Result<u64, PagingError> {
    if phys == 0 {
        Err(PagingError::InvalidAddress)
    } else if phys >= MAX_SUPPORTED_MEMORY {
        Err(PagingError::AddressConversionFailed)
    } else {
        Ok((phys + KERNEL_VIRTUAL_BASE) as u64)
    }
}

/// Result of converting a higher-half virtual address back to physical.
pub open spec fn spec_virt_to_phys(virt: u64) -> Result<u64, PagingError> {
    if virt < KERNEL_VIRTUAL_BASE {
        Err(PagingError::InvalidAddress)
    } else if virt - KERNEL_VIRTUAL_BASE >= MAX_SUPPORTED_MEMORY {
        Err(PagingError::AddressConversionFailed)
    } else {
        Ok((virt - KERNEL_VIRTUAL_BASE) as u64)
    }
}

/// Convert a physical address to the virtual address it is reachable at.
///
/// Fails on the null address and on anything at or above the mapped limit.
pub fn phys_to_virt(phys: u64) -> (r: Result<u64, PagingError>)
    ensures
        r == spec_phys_to_virt(phys),
{
    if phys == 0 {
        Err(PagingError::InvalidAddress)
    } else if phys >= MAX_SUPPORTED_MEMORY {
        Err(PagingError::AddressConversionFailed)
    } else {
        Ok(phys + KERNEL_VIRTUAL_BASE)
    }
}

/// Convert a higher-half virtual address to the physical address it aliases.
///
/// Defined only for addresses at or above `KERNEL_VIRTUAL_BASE` that fall
/// inside the mapped range.
pub fn virt_to_phys(virt: u64) -> (r: Result<u64, PagingError>)
    ensures
        r == spec_virt_to_phys(virt),
{
    if virt < KERNEL_VIRTUAL_BASE {
        Err(PagingError::InvalidAddress)
    } else if virt - KERNEL_VIRTUAL_BASE >= MAX_SUPPORTED_MEMORY {
        Err(PagingError::AddressConversionFailed)
    } else {
        Ok(virt - KERNEL_VIRTUAL_BASE)
    }
}

/// Converting any mapped, non-null physical address to its virtual alias and
/// back yields the original address.
pub proof fn lemma_phys_virt_round_trip(phys: u64)
    requires
        0 < phys < MAX_SUPPORTED_MEMORY,
    ensures
        spec_phys_to_virt(phys) matches Ok(virt) && spec_virt_to_phys(virt) == Ok::<
            u64,
            PagingError,
        >(phys),
{
}

/// Converting the null physical address fails.
pub proof fn lemma_phys_to_virt_null_fails()
    ensures
        spec_phys_to_virt(0) == Err::<u64, PagingError>(PagingError::InvalidAddress),
{
}

} // verus!
