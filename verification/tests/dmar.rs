use sis_kernel::arch::x86_64::iommu::dmar::{DmarHeader, DMAR_SIGNATURE};

#[test]
fn test_dmar_structure_sizes() {
    assert_eq!(std::mem::size_of::<DmarHeader>(), 48);
}

#[test]
fn test_dmar_signature() {
    assert_eq!(DMAR_SIGNATURE, *b"DMAR");
}

#[test]
fn acpi_search_and_probe() {
    use_dmar_parser();
}

fn use_dmar_parser() {
    let found = sis_kernel::arch::x86_64::iommu::dmar::DmarParser::search_acpi_region(0xE0000, 0x20000, true).unwrap();
    assert!(found.dma_remapping && found.interrupt_remapping && found.fault_recording);
    assert_eq!(found.host_address_width, 48);
    assert!(sis_kernel::arch::x86_64::iommu::dmar::DmarParser::search_acpi_region(0xE0000, 0x20000, false).is_none());
    let probed = sis_kernel::arch::x86_64::iommu::dmar::DmarParser::probe(None, Some(found));
    assert_eq!(probed.unwrap().host_address_width, 48);
    assert!(sis_kernel::arch::x86_64::iommu::dmar::DmarParser::probe(None, None).is_err());
}
