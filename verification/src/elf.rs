//! The kernel image format: ELF64 header validation and the program-header
//! walk that yields the loadable segments. Copying segment bytes into
//! physical memory is the loader's unverifiable half; the format decisions
//! live here.

use crate::bytes::{le16, le32, le64, read_le16, read_le32, read_le64};
use vstd::prelude::*;

verus! {

/// The program-header type of a loadable segment.
pub const PT_LOAD: u32 = 1;

/// Byte size of one ELF64 program header.
pub const ELF64_PHENT_SIZE: u16 = 56;

/// One loadable segment: where its bytes sit in the file, where they belong
/// in memory, and how much of the memory image the file fills.
#[derive(Debug, Clone, Copy, PartialEq, Eq, Structural)]
pub struct ElfSegment {
    /// File offset of the segment's bytes.
    pub offset: u64,
    /// Physical load address.
    pub paddr: u64,
    /// Linked virtual address.
    pub vaddr: u64,
    /// Bytes present in the file.
    pub filesz: u64,
    /// Bytes of the memory image; the tail past `filesz` is zeroed.
    pub memsz: u64,
}

/// A usable ELF64 kernel image header: the magic, the 64-bit class, and
/// little-endian data.
pub open spec fn valid_elf64_header(bytes: Seq<u8>) -> bool {
    &&& bytes.len() >= 64
    &&& bytes[0] == 0x7F
    &&& bytes[1] == 69
    &&& bytes[2] == 76
    &&& bytes[3] == 70
    &&& bytes[4] == 2
    &&& bytes[5] == 1
}

/// The segment the program header at `off` describes.
pub open spec fn segment_at(bytes: Seq<u8>, off: int) -> ElfSegment {
    ElfSegment {
        offset: le64(bytes, off + 8) as u64,
        vaddr: le64(bytes, off + 16) as u64,
        paddr: le64(bytes, off + 24) as u64,
        filesz: le64(bytes, off + 32) as u64,
        memsz: le64(bytes, off + 40) as u64,
    }
}

/// The loadable segments of program headers `i` to `n`, in table order — or
/// nothing when a header is undersized or reaches past the image.
pub open spec fn segments_from(
    bytes: Seq<u8>,
    phoff: int,
    entsize: int,
    i: int,
    n: int,
) -> Option<Seq<ElfSegment>>
    decreases n - i,
    when i <= n
{
    if i == n {
        Some(Seq::empty())
    } else {
        let off = phoff + i * entsize;
        if entsize < ELF64_PHENT_SIZE || off < 0 || off + ELF64_PHENT_SIZE > bytes.len() {
            None
        } else {
            match segments_from(bytes, phoff, entsize, i + 1, n) {
                None => None,
                Some(rest) => {
                    if le32(bytes, off) == PT_LOAD {
                        Some(seq![segment_at(bytes, off)] + rest)
                    } else {
                        Some(rest)
                    }
                },
            }
        }
    }
}

/// The loadable segments of the whole image, per its own program-header
/// table fields.
pub open spec fn load_segments_of(bytes: Seq<u8>) -> Option<Seq<ElfSegment>> {
    segments_from(bytes, le64(bytes, 32), le16(bytes, 54), 0, le16(bytes, 56))
}

/// Validate an ELF64 image and walk its program headers: the entry point
/// and every loadable segment, in table order. Fails exactly on an image
/// too short for its header, a bad magic, class or byte order, or a
/// program header that is undersized or reaches past the image.
pub fn parse_elf64_load_segments(bytes: &Vec<u8>) -> (r: Result<(u64, Vec<ElfSegment>), ()>)
    requires
        bytes@.len() <= 0x1_0000_0000,
    ensures
        r matches Ok((entry, segs)) ==> valid_elf64_header(bytes@) && entry == le64(bytes@, 24)
            && Some(segs@) == load_segments_of(bytes@),
        (bytes@.len() < 64 || !valid_elf64_header(bytes@) || load_segments_of(bytes@) is None)
            <==> r is Err,
{
    if bytes.len() < 64 {
        return Err(());
    }
    if !(bytes[0] == 0x7F && bytes[1] == 69 && bytes[2] == 76 && bytes[3] == 70 && bytes[4] == 2
        && bytes[5] == 1) {
        return Err(());
    }
    let entry = read_le64(bytes, 24);
    let phoff = read_le64(bytes, 32);
    let entsize = read_le16(bytes, 54);
    let phnum = read_le16(bytes, 56);
    let mut segs: Vec<ElfSegment> = Vec::new();
    let mut i: u16 = 0;
    while i < phnum
        invariant
            bytes@.len() <= 0x1_0000_0000,
            i <= phnum,
            phoff == le64(bytes@, 32),
            entsize == le16(bytes@, 54),
            phnum == le16(bytes@, 56),
            load_segments_of(bytes@) matches Some(all) ==> segments_from(
                bytes@,
                phoff as int,
                entsize as int,
                i as int,
                phnum as int,
            ) matches Some(rest) && all == segs@ + rest,
            (segments_from(bytes@, phoff as int, entsize as int, i as int, phnum as int)
                is None) == (load_segments_of(bytes@) is None),
        decreases phnum - i,
    {
        if entsize < ELF64_PHENT_SIZE {
            return Err(());
        }
        if phoff > bytes.len() as u64 {
            return Err(());
        }
        proof {
            assert((i as int) * (entsize as int) <= 0xFFFF * 0xFFFF) by (nonlinear_arith)
                requires
                    i <= 0xFFFFu16,
                    entsize <= 0xFFFFu16,
            ;
        }
        let off64 = phoff + (i as u64) * (entsize as u64);
        if off64 + (ELF64_PHENT_SIZE as u64) > bytes.len() as u64 {
            return Err(());
        }
        let off = off64 as usize;
        let ghost segs0 = segs@;
        let ptype = read_le32(bytes, off);
        if ptype == PT_LOAD {
            segs.push(
                ElfSegment {
                    offset: read_le64(bytes, off + 8),
                    vaddr: read_le64(bytes, off + 16),
                    paddr: read_le64(bytes, off + 24),
                    filesz: read_le64(bytes, off + 32),
                    memsz: read_le64(bytes, off + 40),
                },
            );
        }
        proof {
            let off_i = phoff as int + (i as int) * (entsize as int);
            assert(off_i == off64) by (nonlinear_arith)
                requires
                    off64 == phoff + (i as u64) * (entsize as u64),
                    off_i == phoff as int + (i as int) * (entsize as int),
                    phoff <= 0x1_0000_0000u64,
                    i <= 0xFFFFu16,
                    entsize <= 0xFFFFu16,
            ;
            let next = segments_from(bytes@, phoff as int, entsize as int, i + 1, phnum as int);
            let here = segments_from(bytes@, phoff as int, entsize as int, i as int, phnum as int);
            if next is Some {
                let rest = next->0;
                let ec = here->0;
                if le32(bytes@, off_i) == PT_LOAD {
                    assert(ec == seq![segment_at(bytes@, off_i)] + rest);
                    assert(segs@ =~= segs0.push(segment_at(bytes@, off_i)));
                    assert(segs0 + ec =~= segs@ + rest);
                } else {
                    assert(ec == rest);
                    assert(segs0 + ec =~= segs@ + rest);
                }
            }
        }
        i = i + 1;
    }
    proof {
        if load_segments_of(bytes@) is Some {
            let all = load_segments_of(bytes@)->0;
            assert(all =~= segs@);
        }
    }
    Ok((entry, segs))
}

/// The virtual-minus-physical delta of the first relocated loadable
/// segment: the entry point minus this delta is the physical address the
/// loader jumps to. Zero when no segment is relocated or the first
/// relocation is downward.
pub open spec fn spec_virt_offset(segs: Seq<ElfSegment>) -> int
    decreases segs.len(),
{
    if segs.len() == 0 {
        0int
    } else if segs[0].vaddr == segs[0].paddr {
        spec_virt_offset(segs.skip(1))
    } else if segs[0].vaddr >= segs[0].paddr {
        segs[0].vaddr - segs[0].paddr
    } else {
        0int
    }
}

/// The virtual-minus-physical delta of the first relocated loadable segment.
pub fn kernel_virt_offset(segs: &Vec<ElfSegment>) -> (r: u64)
    ensures
        r == spec_virt_offset(segs@),
{
    let mut i: usize = 0;
    proof {
        assert(segs@.skip(0) =~= segs@);
    }
    while i < segs.len()
        invariant
            i <= segs@.len(),
            spec_virt_offset(segs@) == spec_virt_offset(segs@.skip(i as int)),
        decreases segs@.len() - i,
    {
        let s = &segs[i];
        proof {
            assert(segs@.skip(i as int)[0] == segs@[i as int]);
            assert(segs@.skip(i as int).skip(1) =~= segs@.skip(i as int + 1));
        }
        if s.vaddr != s.paddr {
            if s.vaddr >= s.paddr {
                return s.vaddr - s.paddr;
            }
            return 0;
        }
        i = i + 1;
    }
    0
}

} // verus!
