use sis_kernel::arch::aarch64::smmu::{
    command_opcode, page_table_entry, page_table_index, ste_word0, IOVAAllocator, SMMUCommand, SMMUDevice,
    SMMUManager, StreamPermissions, StreamTableEntry,
};

/// IDR1 with 16-bit stream identifiers and 16-bit ASIDs.
const IDR1: u32 = (15 << 27) | (15 << 21);

fn device() -> SMMUDevice {
    SMMUDevice::init(0x0900_0000, 0x43B7, 0, IDR1, 0x1000_0000, 0x1001_0000, 0x1002_0000).unwrap().0
}

#[test]
fn init_rejects_other_devices() {
    assert!(matches!(SMMUDevice::init(0, 0x1234, 0, IDR1, 0, 0, 0), Err("SMMU v3 not found")));
}

#[test]
fn init_computes_setup_words() {
    let (d, setup) = SMMUDevice::init(0x0900_0000, 0x43B7, 0, IDR1, 0x1000_0000, 0x1001_0000, 0x1002_0000).unwrap();
    assert!(d.available);
    assert_eq!(d.features.stream_id_bits, 16);
    assert_eq!(d.features.max_asid, 1 << 16);
    assert_eq!(d.stream_table.max_stream_id, 0xFFFF);
    assert_eq!(setup.cmdq_base, 0x1000_0000 | 12);
    assert_eq!(setup.evtq_base, 0x1001_0000 | 12);
    assert_eq!(setup.strtab_base, 0x1002_0000);
    assert_eq!(setup.strtab_base_cfg, 15 << 16);
    assert_eq!(setup.cr0, 1);
    assert_eq!(d.stream_table_bytes(), 64 * 65536);
}

#[test]
fn stream_table_entry_words() {
    let d = device();
    let ste = StreamTableEntry {
        stream_id: 3,
        valid: true,
        bypass: false,
        asid: 5,
        ttb: 0x4000_0000,
        tcr: 0x35,
        mair: 0xFF,
        permissions: StreamPermissions::default(),
    };
    assert_eq!(ste_word0(&ste), 1 | (5u64 << 48));
    let (addr, words) = d.write_stream_table_entry(&ste).unwrap();
    assert_eq!(addr, 0x1002_0000 + 3 * 64);
    assert_eq!(words, [1 | (5u64 << 48), 0x4000_0000, 0x35, 0xFF, 0, 0, 0, 0]);
}

#[test]
fn commands_and_page_words() {
    assert_eq!(command_opcode(SMMUCommand::CfgiSte), 0x03);
    assert_eq!(command_opcode(SMMUCommand::Sync), 0x46);
    assert_eq!(page_table_index(0x0040_3000), 0x3);
    assert_eq!(page_table_index(0x0020_0000), 0);
    let rw = StreamPermissions::default();
    assert_eq!(page_table_entry(0x5000, rw), 0x5000 | 3 | 64 | 128);
    let ro = StreamPermissions { write: false, ..rw };
    assert_eq!(page_table_entry(0x5000, ro), 0x5000 | 3 | 64);
}

#[test]
fn command_queue_counts_commands() {
    let mut d = device();
    assert_eq!(d.send_command(SMMUCommand::Sync), Ok(()));
    assert_eq!(d.command_queue.producer, 1);
    assert_eq!(d.invalidate_ste_cache(1), Ok(()));
    assert_eq!(d.command_queue.producer, 2);
    assert_eq!(d.stats.commands_processed, 2);
    // A ring whose next slot is the consumer is full.
    d.command_queue.consumer = 3;
    assert_eq!(d.send_command(SMMUCommand::Sync), Err("Command queue full"));
    assert_eq!(d.command_queue.producer, 2);
}

#[test]
fn streams_and_page_mappings() {
    let mut d = device();
    assert_eq!(d.map_pages(1, 0x8000_0000, 0x4000_0000, 0x1000, StreamPermissions::default()), Err("Stream not found"));
    assert_eq!(d.create_stream(1, 7, 0x4000_0000), Ok(()));
    assert_eq!(
        d.map_pages(1, 0x8000_0001, 0x4000_0000, 0x1000, StreamPermissions::default()),
        Err("Address or size not page aligned")
    );
    // Mappings are counted page by page.
    assert_eq!(d.map_pages(1, 0x8000_0000, 0x4000_0000, 0x2000, StreamPermissions::default()), Ok(()));
    assert_eq!(d.stats.mappings_created, 2);
    assert_eq!(d.unmap_pages(1, 0x8000_0000, 0x2000), Ok(()));
    assert_eq!(d.stats.mappings_removed, 2);
    assert_eq!(d.unmap_pages(2, 0x8000_0000, 0x1000), Err("Stream not found"));
}

#[test]
fn iova_first_fit_allocation() {
    let mut a = IOVAAllocator::new(0x10_0000, 0x4000);
    // Requests are rounded up to whole pages.
    assert_eq!(a.allocate(1, 1), Ok(0x10_0000));
    assert_eq!(a.allocate(0x1000, 2), Ok(0x10_1000));
    assert_eq!(a.allocate(0x3000, 3), Err("No suitable IOVA range available"));
    assert_eq!(a.allocate(0x2000, 3), Ok(0x10_2000));
    assert_eq!(a.allocate(1, 4), Err("No suitable IOVA range available"));
    // Only the owner frees a region.
    assert_eq!(a.free(0x10_1000, 1), Err("IOVA region not found"));
    assert_eq!(a.free(0x10_1000, 2), Ok(()));
    assert_eq!(a.allocate(0x1000, 5), Ok(0x10_1000));
}

#[test]
fn manager_without_device_tracks_mappings() {
    let mut m = SMMUManager::new();
    assert_eq!(m.map_dma(1, 0x4000_0000, 0x1000, StreamPermissions::default()), Err("No suitable IOVA range available"));
    assert_eq!(m.init(Err("no SMMU")), Ok(()));
    assert_eq!(m.map_dma(1, 0x4000_0000, 0x1000, StreamPermissions::default()), Err("No suitable IOVA range available"));
}

#[test]
fn manager_map_and_unmap() {
    let mut m = SMMUManager::new();
    assert_eq!(m.init(Ok(device())), Ok(()));
    assert_eq!(m.create_stream(4, 0x4000_0000), Ok(4));
    // With a device the size must be whole pages.
    assert_eq!(
        m.map_dma(4, 0x4000_0000, 0x1800, StreamPermissions::default()),
        Err("Address or size not page aligned")
    );
    let mut m = SMMUManager::new();
    assert_eq!(m.init(Ok(device())), Ok(()));
    assert_eq!(m.create_stream(4, 0x4000_0000), Ok(4));
    let iova = m.map_dma(4, 0x4000_0000, 0x2000, StreamPermissions::default()).unwrap();
    assert_eq!(iova, 0x8000_0000);
    let second = m.map_dma(4, 0x4100_0000, 0x1000, StreamPermissions::default()).unwrap();
    assert_eq!(second, 0x8000_2000);
    assert_eq!(m.unmap_dma(4, iova), Ok(()));
    assert_eq!(m.unmap_dma(4, iova), Err("Mapping not found"));
    // The freed range is served again.
    assert_eq!(m.map_dma(4, 0x4200_0000, 0x1000, StreamPermissions::default()), Ok(0x8000_0000));
}
