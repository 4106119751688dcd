//! ELF64 image validation and the loadable-segment walk.

use je4os::elf::{kernel_virt_offset, parse_elf64_load_segments, ElfSegment};

/// A minimal ELF64 image: a valid header and two program headers, one
/// loadable and one not.
fn sample_image() -> Vec<u8> {
    let mut b = vec![0u8; 64];
    b[0] = 0x7F;
    b[1] = b'E';
    b[2] = b'L';
    b[3] = b'F';
    b[4] = 2; // 64-bit
    b[5] = 1; // little endian
    // Entry point 0xFFFF_8000_0010_1000.
    b[24..32].copy_from_slice(&0xFFFF_8000_0010_1000u64.to_le_bytes());
    // Program headers right after the header: offset 64, 56 bytes each, two
    // of them.
    b[32..40].copy_from_slice(&64u64.to_le_bytes());
    b[54..56].copy_from_slice(&56u16.to_le_bytes());
    b[56..58].copy_from_slice(&2u16.to_le_bytes());
    // First header: PT_LOAD at file offset 0x1000, 0x2000 bytes of file,
    // 0x3000 of memory, physical 0x101000, virtual higher half.
    let mut ph = vec![0u8; 56];
    ph[0..4].copy_from_slice(&1u32.to_le_bytes());
    ph[8..16].copy_from_slice(&0x1000u64.to_le_bytes());
    ph[16..24].copy_from_slice(&0xFFFF_8000_0010_1000u64.to_le_bytes());
    ph[24..32].copy_from_slice(&0x10_1000u64.to_le_bytes());
    ph[32..40].copy_from_slice(&0x2000u64.to_le_bytes());
    ph[40..48].copy_from_slice(&0x3000u64.to_le_bytes());
    b.extend_from_slice(&ph);
    // Second header: a PT_NOTE-style entry the loader skips.
    let mut ph2 = vec![0u8; 56];
    ph2[0..4].copy_from_slice(&4u32.to_le_bytes());
    b.extend_from_slice(&ph2);
    b
}

#[test]
fn parses_load_segments_in_order() {
    let image = sample_image();
    let (entry, segs) = parse_elf64_load_segments(&image).unwrap();
    assert_eq!(entry, 0xFFFF_8000_0010_1000);
    assert_eq!(segs.len(), 1);
    assert_eq!(
        segs[0],
        ElfSegment {
            offset: 0x1000,
            vaddr: 0xFFFF_8000_0010_1000,
            paddr: 0x10_1000,
            filesz: 0x2000,
            memsz: 0x3000,
        }
    );
    // The first relocated segment fixes the virtual-to-physical delta, and
    // the entry translates below 4 GiB with it.
    let delta = kernel_virt_offset(&segs);
    assert_eq!(delta, 0xFFFF_8000_0010_1000 - 0x10_1000);
    assert_eq!(entry - delta, 0x10_1000);
}

#[test]
fn rejects_bad_images() {
    // Too short for a header.
    assert!(parse_elf64_load_segments(&vec![0u8; 32]).is_err());
    // A wrong magic byte.
    let mut bad = sample_image();
    bad[1] = b'F';
    assert!(parse_elf64_load_segments(&bad).is_err());
    // A 32-bit class.
    let mut bad = sample_image();
    bad[4] = 1;
    assert!(parse_elf64_load_segments(&bad).is_err());
    // A program header reaching past the image.
    let mut bad = sample_image();
    bad[56..58].copy_from_slice(&3u16.to_le_bytes());
    assert!(parse_elf64_load_segments(&bad).is_err());
    // An undersized program-header entry.
    let mut bad = sample_image();
    bad[54..56].copy_from_slice(&40u16.to_le_bytes());
    assert!(parse_elf64_load_segments(&bad).is_err());
}

#[test]
fn unrelocated_images_have_no_offset() {
    let segs = vec![ElfSegment { offset: 0, vaddr: 0x1000, paddr: 0x1000, filesz: 1, memsz: 1 }];
    assert_eq!(kernel_virt_offset(&segs), 0);
    assert_eq!(kernel_virt_offset(&Vec::new()), 0);
}
