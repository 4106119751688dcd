//! PCI configuration-space arithmetic: the legacy I/O-port address encoding,
//! the memory-mapped configuration offset, and device classification. The
//! port and MMIO accesses themselves belong to the unverifiable layer.

use vstd::prelude::*;

verus! {

/// A PCI device's identity and class, as read from its configuration space.
#[derive(Debug, Clone, Copy, PartialEq, Eq, Structural)]
pub struct PciDevice {
    pub bus: u8,
    pub device: u8,
    pub function: u8,
    pub vendor_id: u16,
    pub device_id: u16,
    pub class_code: u8,
    pub subclass: u8,
    pub prog_if: u8,
    pub revision: u8,
    pub header_type: u8,
}

impl PciDevice {
    /// Assemble a device record from the fields the configuration reads
    /// returned; a vendor of 0xFFFF means no device answers there.
    pub fn read(
        bus: u8,
        device: u8,
        function: u8,
        vendor_id: u16,
        device_id: u16,
        class_code: u8,
        subclass: u8,
        prog_if: u8,
        revision: u8,
        header_type: u8,
    ) -> (r: Option<PciDevice>)
        ensures
            vendor_id == 0xFFFF ==> r is None,
            vendor_id != 0xFFFF ==> r == Some(
                PciDevice {
                    bus,
                    device,
                    function,
                    vendor_id,
                    device_id,
                    class_code,
                    subclass,
                    prog_if,
                    revision,
                    header_type,
                },
            ),
    {
        if vendor_id == 0xFFFF {
            return None;
        }
        Some(
            PciDevice {
                bus,
                device,
                function,
                vendor_id,
                device_id,
                class_code,
                subclass,
                prog_if,
                revision,
                header_type,
            },
        )
    }

    /// The name of the device's class code.
    pub fn class_name(&self) -> (r: &'static str)
        ensures
            self.class_code == 0x00 ==> r@ == "Unclassified"@,
            self.class_code == 0x01 ==> r@ == "Mass Storage Controller"@,
            self.class_code == 0x02 ==> r@ == "Network Controller"@,
            self.class_code == 0x03 ==> r@ == "Display Controller"@,
            self.class_code == 0x04 ==> r@ == "Multimedia Controller"@,
            self.class_code == 0x05 ==> r@ == "Memory Controller"@,
            self.class_code == 0x06 ==> r@ == "Bridge Device"@,
            self.class_code == 0x07 ==> r@ == "Simple Communication Controller"@,
            self.class_code == 0x08 ==> r@ == "Base System Peripheral"@,
            self.class_code == 0x09 ==> r@ == "Input Device Controller"@,
            self.class_code == 0x0A ==> r@ == "Docking Station"@,
            self.class_code == 0x0B ==> r@ == "Processor"@,
            self.class_code == 0x0C ==> r@ == "Serial Bus Controller"@,
            self.class_code == 0x0D ==> r@ == "Wireless Controller"@,
            self.class_code == 0x0E ==> r@ == "Intelligent Controller"@,
            self.class_code == 0x0F ==> r@ == "Satellite Communication Controller"@,
            self.class_code == 0x10 ==> r@ == "Encryption Controller"@,
            self.class_code == 0x11 ==> r@ == "Signal Processing Controller"@,
            self.class_code == 0xFF ==> r@ == "Unknown"@,
            0x12 <= self.class_code < 0xFF ==> r@ == "Reserved"@,
    {
        match self.class_code {
            0x00 => "Unclassified",
            0x01 => "Mass Storage Controller",
            0x02 => "Network Controller",
            0x03 => "Display Controller",
            0x04 => "Multimedia Controller",
            0x05 => "Memory Controller",
            0x06 => "Bridge Device",
            0x07 => "Simple Communication Controller",
            0x08 => "Base System Peripheral",
            0x09 => "Input Device Controller",
            0x0A => "Docking Station",
            0x0B => "Processor",
            0x0C => "Serial Bus Controller",
            0x0D => "Wireless Controller",
            0x0E => "Intelligent Controller",
            0x0F => "Satellite Communication Controller",
            0x10 => "Encryption Controller",
            0x11 => "Signal Processing Controller",
            0xFF => "Unknown",
            _ => "Reserved",
        }
    }
}

/// The legacy configuration-address word: enable bit, bus, device, function
/// and the register offset rounded down to a word.
pub fn pci_config_address(bus: u8, device: u8, function: u8, offset: u8) -> (r: u32)
    requires
        device < 32,
        function < 8,
    ensures
        r == (0x8000_0000u32 | ((bus as u32) << 16) | ((device as u32) << 11) | ((
        function as u32) << 8) | ((offset as u32) & 0xFC)),
{
    0x8000_0000u32 | ((bus as u32) << 16) | ((device as u32) << 11) | ((function as u32) << 8) | (
    (offset as u32) & 0xFC)
}

/// The byte offset of a function's configuration space inside the
/// memory-mapped configuration window.
pub fn mmconfig_offset(bus: u8, device: u8, function: u8) -> (r: u64)
    requires
        device < 32,
        function < 8,
    ensures
        r == ((bus as u64) << 20) | ((device as u64) << 15) | ((function as u64) << 12),
{
    ((bus as u64) << 20) | ((device as u64) << 15) | ((function as u64) << 12)
}

} // verus!
