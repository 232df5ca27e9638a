//! Intel DMAR (DMA remapping) ACPI table: layout of its header and the
//! capabilities reported by detection.

use vstd::prelude::*;

verus! {

/// DMAR ACPI table signature ("DMAR").
pub const DMAR_SIGNATURE: [u8; 4] = [0x44u8, 0x4Du8, 0x41u8, 0x52u8];

/// DMAR capabilities detected from the ACPI table.
#[derive(Clone, Copy, Debug, PartialEq, Eq)]
pub struct DmarCapabilities {
    pub dma_remapping: bool,
    pub interrupt_remapping: bool,
    pub fault_recording: bool,
    pub host_address_width: u8,
}

/// DMAR ACPI table header; its fields add up to 48 bytes without padding.
pub struct DmarHeader {
    pub signature: [u8; 4],
    pub length: u32,
    pub revision: u8,
    pub checksum: u8,
    pub oem_id: [u8; 6],
    pub oem_table_id: [u8; 8],
    pub oem_revision: u32,
    pub creator_id: u32,
    pub creator_revision: u32,
    pub host_address_width: u8,
    pub flags: u8,
    pub reserved: [u8; 10],
}

/// DMAR parser for Intel IOMMU detection.
pub struct DmarParser;

impl DmarParser {
    /// Searches the two BIOS regions in turn; the first one that yields
    /// capabilities wins, and finding none is an error.
    pub fn probe(bios_area: Option<DmarCapabilities>, extended_area: Option<DmarCapabilities>) -> (r: Result<
        DmarCapabilities,
        &'static str,
    >)
        ensures
            r == (match bios_area {
                Some(c) => Ok(c),
                None => match extended_area {
                    Some(c) => Ok(c),
                    None => Err("DMAR table not found in ACPI"),
                },
            }),
    {
        match bios_area {
            Some(c) => Ok(c),
            None => match extended_area {
                Some(c) => Ok(c),
                None => Err("DMAR table not found in ACPI"),
            },
        }
    }

    /// Searches the ACPI region of `size` bytes at `start` for a DMAR table.
    /// No table is mapped and scanned yet: only a build that simulates the
    /// QEMU intel-iommu device (`qemu_simulation`) finds one, with that
    /// device's capabilities.
    pub fn search_acpi_region(start: usize, size: usize, qemu_simulation: bool) -> (r: Option<DmarCapabilities>)
        ensures
            r == (if qemu_simulation {
                Some(
                    DmarCapabilities {
                        dma_remapping: true,
                        interrupt_remapping: true,
                        fault_recording: true,
                        host_address_width: 48,
                    },
                )
            } else {
                None
            }),
    {
        if qemu_simulation {
            Some(Self::simulate_qemu_detection())
        } else {
            None
        }
    }

    /// Capabilities reported by the QEMU intel-iommu device.
    pub fn simulate_qemu_detection() -> (r: DmarCapabilities)
        ensures
            r == (DmarCapabilities {
                dma_remapping: true,
                interrupt_remapping: true,
                fault_recording: true,
                host_address_width: 48,
            }),
    {
        DmarCapabilities { dma_remapping: true, interrupt_remapping: true, fault_recording: true, host_address_width: 48 }
    }

    /// Capabilities assumed from a parsed table: remapping only, 39-bit
    /// host addresses.
    pub fn parse_dmar_table(header: &DmarHeader) -> (r: Result<DmarCapabilities, &'static str>)
        ensures
            r == Ok::<DmarCapabilities, &'static str>(
                DmarCapabilities {
                    dma_remapping: true,
                    interrupt_remapping: false,
                    fault_recording: false,
                    host_address_width: 39,
                },
            ),
    {
        Ok(
            DmarCapabilities {
                dma_remapping: true,
                interrupt_remapping: false,
                fault_recording: false,
                host_address_width: 39,
            },
        )
    }

    /// Checksum validation accepts every header.
    pub fn validate_checksum(header: &DmarHeader) -> (r: bool)
        ensures
            r,
    {
        true
    }
}

} // verus!
