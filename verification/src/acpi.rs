//! ACPI table validation: the root-pointer signature and the checksum rule
//! every descriptor table must satisfy. Walking the tables in physical
//! memory belongs to the unverifiable layer, which hands the bytes in.

use crate::bytes::{le32, read_le32};
use vstd::prelude::*;

verus! {

/// The sum of a byte sequence, modulo 256 (the ACPI checksum).
pub open spec fn byte_sum(s: Seq<u8>) -> int
    decreases s.len(),
{
    if s.len() == 0 {
        0int
    } else {
        (byte_sum(s.drop_last()) + s.last()) % 256
    }
}

/// A table is checksum-valid when all its bytes sum to zero modulo 256.
pub fn verify_checksum(bytes: &Vec<u8>) -> (r: bool)
    ensures
        r == (byte_sum(bytes@) == 0),
{
    let mut sum: u8 = 0;
    let mut i: usize = 0;
    while i < bytes.len()
        invariant
            i <= bytes@.len(),
            sum == byte_sum(bytes@.take(i as int)),
        decreases bytes@.len() - i,
    {
        proof {
            assert(bytes@.take(i as int + 1).drop_last() =~= bytes@.take(i as int));
            assert(bytes@.take(i as int + 1).last() == bytes@[i as int]);
        }
        sum = ((sum as u16 + bytes[i] as u16) % 256) as u8;
        i = i + 1;
    }
    proof {
        assert(bytes@.take(bytes@.len() as int) =~= bytes@);
    }
    sum == 0
}

/// The bytes of the root-pointer signature, `RSD PTR` followed by a space.
pub open spec fn rsdp_signature() -> Seq<u8> {
    seq![82u8, 83u8, 68u8, 32u8, 80u8, 84u8, 82u8, 32u8]
}

/// The root system description pointer, revision 1: the fields the kernel
/// reads to find the description tables.
#[derive(Debug, Clone, Copy)]
pub struct Rsdp {
    pub signature: [u8; 8],
    pub checksum: u8,
    pub revision: u8,
    pub rsdt_address: u32,
}

impl Rsdp {
    /// Whether the signature spells out the root-pointer magic.
    pub fn is_valid_signature(&self) -> (r: bool)
        ensures
            r == (self.signature@ =~= rsdp_signature()),
    {
        let ok = self.signature[0] == 82 && self.signature[1] == 83 && self.signature[2] == 68
            && self.signature[3] == 32 && self.signature[4] == 80 && self.signature[5] == 84
            && self.signature[6] == 82 && self.signature[7] == 32;
        proof {
            if ok {
                assert(self.signature@ =~= rsdp_signature());
            }
            if self.signature@ =~= rsdp_signature() {
                assert(self.signature@[0] == 82);
            }
        }
        ok
    }
}

/// Byte length of the fixed part of the interrupt-controller table: the
/// common header, the local controller address and the flags word.
pub const MADT_ENTRIES_OFFSET: usize = 44;

/// What walking the interrupt-controller entries from `off` yields: the
/// enabled processors' controller identifiers and the I/O controllers'
/// addresses, in table order — or nothing when an entry is malformed.
pub open spec fn spec_madt_entries(bytes: Seq<u8>, off: int) -> Option<(Seq<u8>, Seq<u32>)>
    decreases bytes.len() - off,
    when 0 <= off <= bytes.len()
{
    if off == bytes.len() {
        Some((Seq::empty(), Seq::empty()))
    } else if off + 2 > bytes.len() {
        None
    } else {
        let kind = bytes[off];
        let len = bytes[off + 1] as int;
        if len < 2 || off + len > bytes.len() {
            None
        } else {
            match spec_madt_entries(bytes, off + len) {
                None => None,
                Some((cpus, ios)) => {
                    if kind == 0 && len >= 8 && le32(bytes, off + 4) % 2 == 1 {
                        Some((seq![bytes[off + 3]] + cpus, ios))
                    } else if kind == 1 && len >= 12 {
                        Some((cpus, seq![le32(bytes, off + 4) as u32] + ios))
                    } else {
                        Some((cpus, ios))
                    }
                },
            }
        }
    }
}

/// What the interrupt-controller table parses to.
pub struct MadtInfo {
    /// Physical address of the local interrupt controller.
    pub local_apic_address: u32,
    /// Controller identifiers of the enabled processors, in table order.
    pub processor_apic_ids: Vec<u8>,
    /// Addresses of the I/O interrupt controllers, in table order.
    pub io_apic_addresses: Vec<u32>,
}

/// Parse the interrupt-controller table from its raw bytes: the local
/// controller address from the fixed part, then every entry in order,
/// collecting enabled processors and I/O controllers. Fails on a table too
/// short for its fixed part or with a malformed entry.
pub fn parse_madt(bytes: &Vec<u8>) -> (r: Result<MadtInfo, ()>)
    ensures
        bytes@.len() < MADT_ENTRIES_OFFSET ==> r is Err,
        bytes@.len() >= MADT_ENTRIES_OFFSET ==> match spec_madt_entries(
            bytes@,
            MADT_ENTRIES_OFFSET as int,
        ) {
            None => r is Err,
            Some((cpus, ios)) => r matches Ok(info) && info.local_apic_address == le32(
                bytes@,
                36,
            ) && info.processor_apic_ids@ == cpus && info.io_apic_addresses@ == ios,
        },
{
    if bytes.len() < MADT_ENTRIES_OFFSET {
        return Err(());
    }
    let local_apic_address = read_le32(bytes, 36);
    let mut cpus: Vec<u8> = Vec::new();
    let mut ios: Vec<u32> = Vec::new();
    let mut off: usize = MADT_ENTRIES_OFFSET;
    while off < bytes.len()
        invariant
            MADT_ENTRIES_OFFSET <= off <= bytes@.len(),
            spec_madt_entries(bytes@, MADT_ENTRIES_OFFSET as int) matches Some((
                all_cpus,
                all_ios,
            )) ==> spec_madt_entries(bytes@, off as int) matches Some((rest_cpus, rest_ios))
                && all_cpus == cpus@ + rest_cpus && all_ios == ios@ + rest_ios,
            (spec_madt_entries(bytes@, off as int) is None) == (spec_madt_entries(
                bytes@,
                MADT_ENTRIES_OFFSET as int,
            ) is None),
        decreases bytes@.len() - off,
    {
        if bytes.len() - off < 2 {
            return Err(());
        }
        let kind = bytes[off];
        let len = bytes[off + 1] as usize;
        if len < 2 || len > bytes.len() - off {
            return Err(());
        }
        let ghost cpus0 = cpus@;
        let ghost ios0 = ios@;
        if kind == 0 && len >= 8 {
            let flags = read_le32(bytes, off + 4);
            if flags % 2 == 1 {
                cpus.push(bytes[off + 3]);
            }
        } else if kind == 1 && len >= 12 {
            ios.push(read_le32(bytes, off + 4));
        }
        proof {
            let off_i = off as int;
            let next = spec_madt_entries(bytes@, off_i + len);
            let here = spec_madt_entries(bytes@, off_i);
            if next is Some {
                let (rc, ri) = next->0;
                let (ec, ei) = here->0;
                if kind == 0 && len >= 8 && le32(bytes@, off_i + 4) % 2 == 1 {
                    assert(ec == seq![bytes@[off_i + 3]] + rc && ei == ri);
                    assert(cpus0 + ec =~= cpus@ + rc);
                    assert(ios0 + ei =~= ios@ + ri);
                } else if kind == 1 && len >= 12 {
                    assert(ec == rc && ei == seq![le32(bytes@, off_i + 4) as u32] + ri);
                    assert(cpus0 + ec =~= cpus@ + rc);
                    assert(ios0 + ei =~= ios@ + ri);
                } else {
                    assert(ec == rc && ei == ri);
                    assert(cpus0 + ec =~= cpus@ + rc);
                    assert(ios0 + ei =~= ios@ + ri);
                }
                if spec_madt_entries(bytes@, MADT_ENTRIES_OFFSET as int) is Some {
                    let (all_cpus, all_ios) = spec_madt_entries(
                        bytes@,
                        MADT_ENTRIES_OFFSET as int,
                    )->0;
                    assert(all_cpus =~= cpus@ + rc);
                    assert(all_ios =~= ios@ + ri);
                }
            }
        }
        off = off + len;
    }
    proof {
        if spec_madt_entries(bytes@, MADT_ENTRIES_OFFSET as int) is Some {
            let (all_cpus, all_ios) = spec_madt_entries(bytes@, MADT_ENTRIES_OFFSET as int)->0;
            assert(all_cpus =~= cpus@);
            assert(all_ios =~= ios@);
        }
    }
    Ok(MadtInfo { local_apic_address, processor_apic_ids: cpus, io_apic_addresses: ios })
}

/// The header every ACPI description table begins with.
#[derive(Debug, Clone, Copy)]
pub struct AcpiTableHeader {
    pub signature: [u8; 4],
    pub length: u32,
    pub revision: u8,
    pub checksum: u8,
    pub oem_revision: u32,
    pub creator_id: u32,
    pub creator_revision: u32,
}

impl AcpiTableHeader {
    /// Whether this header announces the table with the given four-byte
    /// signature.
    pub fn has_signature(&self, a: u8, b: u8, c: u8, d: u8) -> (r: bool)
        ensures
            r == (self.signature@ =~= seq![a, b, c, d]),
    {
        let ok = self.signature[0] == a && self.signature[1] == b && self.signature[2] == c
            && self.signature[3] == d;
        proof {
            if ok {
                assert(self.signature@ =~= seq![a, b, c, d]);
            }
            if self.signature@ =~= seq![a, b, c, d] {
                assert(self.signature@[0] == a);
            }
        }
        ok
    }
}

} // verus!
