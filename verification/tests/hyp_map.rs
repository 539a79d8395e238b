use salus::hyp_map::{
    Error, HypMap, HypPageTable, PrivateRegion, SharedRegion, SlotState, UMODE_MAPPINGS_START,
    UMODE_MAPPING_SLOT_SIZE,
};
use salus::mem_map::{HwMemMap, HwMemMapBuilder, HwMemRegion, HwMemRegionType, HwReservedMemType};
use salus::page_table::{PteFieldBits, PteLeafPerms};
use salus::page_tracking::HypPageAlloc;
use salus::pages::{PageAddr, PageOwnerId};
use salus::riscv_elf::ElfMap;
use salus::umode_mem::UMODE_VA_START;

fn page(bits: u64) -> PageAddr {
    PageAddr::new(bits).unwrap()
}

fn fields(perms: PteLeafPerms) -> PteFieldBits {
    PteFieldBits::leaf_with_perms(perms)
}

fn mem_map() -> HwMemMap {
    HwMemMapBuilder::new()
        .add_region(
            0x8000_0000,
            0x20_0000,
            HwMemRegionType::Reserved(HwReservedMemType::HypervisorImage),
        )
        .unwrap()
        .add_region(0x8020_0000, 0x400_0000, HwMemRegionType::Available)
        .unwrap()
        .build()
}

// An image with a read-only segment of 0x2000 bytes that starts with 0x1234
// bytes of 0xaa, and a writable segment of 0x1000 bytes that starts with
// `rw_data`.
fn umode_elf(rw_data: &[u8]) -> ElfMap<'static> {
    let mut b = vec![0u8; 0x2000 + rw_data.len()];
    b[0..4].copy_from_slice(&[0x7f, b'E', b'L', b'F']);
    b[4] = 2;
    b[5] = 1;
    b[6] = 1;
    b[18..20].copy_from_slice(&0xf3u16.to_le_bytes());
    b[20..24].copy_from_slice(&1u32.to_le_bytes());
    b[24..32].copy_from_slice(&(UMODE_VA_START + 0x100).to_le_bytes());
    b[32..40].copy_from_slice(&64u64.to_le_bytes());
    b[54..56].copy_from_slice(&56u16.to_le_bytes());
    b[56..58].copy_from_slice(&2u16.to_le_bytes());
    let segs: [(u32, u64, u64, u64, u64); 2] = [
        (4, 0x200, UMODE_VA_START, 0x1234, 0x2000),
        (6, 0x2000, UMODE_VA_START + 0x10000, rw_data.len() as u64, 0x1000),
    ];
    for (i, s) in segs.iter().enumerate() {
        let o = 64 + i * 56;
        b[o..o + 4].copy_from_slice(&1u32.to_le_bytes());
        b[o + 4..o + 8].copy_from_slice(&s.0.to_le_bytes());
        b[o + 8..o + 16].copy_from_slice(&s.1.to_le_bytes());
        b[o + 16..o + 24].copy_from_slice(&s.2.to_le_bytes());
        b[o + 32..o + 40].copy_from_slice(&s.3.to_le_bytes());
        b[o + 40..o + 48].copy_from_slice(&s.4.to_le_bytes());
    }
    for x in b[0x200..0x200 + 0x1234].iter_mut() {
        *x = 0xaa;
    }
    b[0x2000..].copy_from_slice(rw_data);
    let bytes: &'static [u8] = Box::leak(b.into_boxed_slice());
    ElfMap::new(bytes).unwrap()
}

fn build(rw_data: &[u8]) -> (HypMap, HypPageTable, HypPageAlloc) {
    let elf = umode_elf(rw_data);
    let map = HypMap::init(&mem_map(), &elf).unwrap();
    let mut hyp_mem = HypPageAlloc::new(mem_map());
    let table = map.new_page_table(&mut hyp_mem);
    (map, table, hyp_mem)
}

#[test]
fn hyp_map_builds_a_valid_page_table() {
    let (map, table, hyp_mem) = build(&[]);
    assert_eq!(map.num_shared_regions(), 2);
    assert_eq!(map.num_private_regions(), 2);
    let t = table.page_table();
    // The image of the hypervisor, at its physical address.
    for va in [0x8000_0000u64, 0x8000_1008, 0x801f_ffff] {
        assert_eq!(t.translate(va), Some((va, fields(PteLeafPerms::RWX))));
    }
    // Available memory.
    for va in [0x8020_0000u64, 0x8300_0abc, 0x841f_ffff] {
        assert_eq!(t.translate(va), Some((va, fields(PteLeafPerms::RW))));
    }
    assert_eq!(t.translate(0x7fff_ffff), None);
    assert_eq!(t.translate(0x8420_0000), None);
    // The root table lives in the first free page; the tables of the shared
    // regions follow.
    assert_eq!(t.root().bits(), 0x8020_0000);
    assert_eq!(table.satp(), (9 << 60) | 0x8_0200);
    // The segments of the task, each backed by fresh pages.
    let ro = table.private_backing(0).unwrap();
    let rw = table.private_backing(1).unwrap();
    assert!(table.private_backing(2).is_none());
    assert_eq!(ro.len(), 2);
    assert_eq!(rw.len(), 1);
    assert_eq!(
        t.translate(UMODE_VA_START),
        Some((ro.base().bits(), fields(PteLeafPerms::UR)))
    );
    assert_eq!(
        t.translate(UMODE_VA_START + 0x1fff),
        Some((ro.base().bits() + 0x1fff, fields(PteLeafPerms::UR)))
    );
    assert_eq!(t.translate(UMODE_VA_START + 0x2000), None);
    assert_eq!(
        t.translate(UMODE_VA_START + 0x10000),
        Some((rw.base().bits(), fields(PteLeafPerms::URW)))
    );
    assert_eq!(t.translate(UMODE_VA_START + 0x11000), None);
    // The backing pages belong to the hypervisor and lie in available memory.
    for p in ro.pages().iter().chain(rw.pages().iter()) {
        assert!(p.addr().bits() >= 0x8020_1000 && p.addr().bits() < 0x8420_0000);
        assert_eq!(
            hyp_mem.page_info(p.addr()).unwrap().owners,
            vec![PageOwnerId::hypervisor()]
        );
    }
    assert_ne!(ro.base(), rw.base());
    // What the segments hold in their initial state.
    let ro_region = map.private_region(0).unwrap();
    let mut window = vec![0x55u8; 0x2000];
    ro_region.restore(&mut window);
    assert!(window[..0x1234].iter().all(|&b| b == 0xaa));
    assert!(window[0x1234..].iter().all(|&b| b == 0));
    assert_eq!(window[0x1234..].len(), 0xdcc);
    let rw_region = map.private_region(1).unwrap();
    let mut window = vec![0x55u8; 0x1000];
    rw_region.restore(&mut window);
    assert!(window.iter().all(|&b| b == 0));
    assert!(rw_region.is_user_writable());
    assert!(!ro_region.is_user_writable());
    // Nothing is mapped in the slots, and the pool for their tables is full.
    assert_eq!(table.slot(0), Some(SlotState::Free));
    assert_eq!(table.slot(1), Some(SlotState::Free));
    assert_eq!(table.slot(2), None);
    assert_eq!(t.translate(UMODE_MAPPINGS_START), None);
}

#[test]
fn page_tables_of_two_cpus_share_no_private_page() {
    let elf = umode_elf(&[1, 2]);
    let map = HypMap::init(&mem_map(), &elf).unwrap();
    let mut hyp_mem = HypPageAlloc::new(mem_map());
    let t0 = map.new_page_table(&mut hyp_mem);
    let t1 = map.new_page_table(&mut hyp_mem);
    assert_ne!(t0.page_table().root(), t1.page_table().root());
    assert_ne!(t0.private_backing(0), t1.private_backing(0));
    assert_ne!(t0.private_backing(1), t1.private_backing(1));
    assert_eq!(
        t0.page_table().translate(0x8100_0000),
        t1.page_table().translate(0x8100_0000)
    );
}

#[test]
fn reset_restores_the_writable_regions() {
    let (map, table, _) = build(&[0x01, 0x02]);
    // The task has written to both of its regions.
    let mut windows = vec![vec![0xaau8; 0x2000], vec![0u8; 0x1000]];
    windows[0][0] = 0xaa;
    windows[1][0] = 0x55;
    windows[1][0x800] = 0x77;
    table.restore_umode(&map, &mut windows);
    // The read-only region is not touched.
    assert_eq!(windows[0][0], 0xaa);
    assert!(windows[0].iter().all(|&b| b == 0xaa));
    // The writable region starts with its data and is zero from there on.
    assert_eq!(&windows[1][..2], &[0x01, 0x02]);
    assert!(windows[1][2..].iter().all(|&b| b == 0));
    assert_eq!(windows[1].len(), 0x1000);
}

#[test]
fn data_larger_than_the_region_is_cut() {
    let region = PrivateRegion {
        vaddr: page(UMODE_VA_START),
        size: 3,
        pte_fields: fields(PteLeafPerms::URW),
        data: Some(&[9, 8, 7, 6, 5]),
    };
    assert_eq!(region.page_count(), 1);
    let mut window = vec![0xffu8; 0x1000];
    region.restore(&mut window);
    assert_eq!(&window[..4], &[9, 8, 7, 0]);
    assert!(window[3..].iter().all(|&b| b == 0));
}

#[test]
fn slot_mapping_life_cycle() {
    let (_, mut table, _) = build(&[]);
    let va0 = UMODE_MAPPINGS_START;
    assert_eq!(table.umode_slot_va(0).unwrap().bits(), 0xffff_ffff_0840_0000);
    assert_eq!(table.umode_slot_va(1).unwrap().bits(), va0 + UMODE_MAPPING_SLOT_SIZE);
    assert_eq!(table.umode_slot_va(2), Err(Error::InvalidSlot));

    let mapper = table.umode_slot_mapper(0, 2, true).unwrap();
    assert_eq!(mapper.vaddr().bits(), va0);
    assert_eq!(table.slot(0), Some(SlotState::Mapped { num_pages: 2 }));
    let guest0 = page(0x8300_0000);
    let guest1 = page(0x8310_5000);
    assert_eq!(mapper.map_addr(&mut table, page(va0), guest0), Ok(()));
    assert_eq!(mapper.map_addr(&mut table, page(va0 + 0x1000), guest1), Ok(()));
    assert_eq!(
        mapper.map_addr(&mut table, page(va0 + 0x2000), guest1),
        Err(Error::MapFailed)
    );
    assert_eq!(
        table.page_table().translate(va0 + 0x1004),
        Some((0x8310_5004, fields(PteLeafPerms::URW)))
    );
    // A slot that is taken cannot be taken again.
    assert_eq!(table.umode_slot_mapper(0, 1, true).err(), Some(Error::MapperCreationFailed));
    // The other slot is independent, and read-only on request.
    let other = table.umode_slot_mapper(1, 1, false).unwrap();
    other.map_addr(&mut table, page(va0 + UMODE_MAPPING_SLOT_SIZE), guest0).unwrap();
    assert_eq!(
        table.page_table().translate(va0 + UMODE_MAPPING_SLOT_SIZE),
        Some((0x8300_0000, fields(PteLeafPerms::UR)))
    );

    assert_eq!(table.unmap_umode_slot(2, 2), Err(Error::InvalidSlot));
    assert_eq!(table.unmap_umode_slot(0, 1025), Err(Error::OutOfMap));
    assert_eq!(table.unmap_umode_slot(0, 1), Err(Error::UnmapFailed));
    assert_eq!(table.unmap_umode_slot(0, 2), Ok(vec![guest0, guest1]));
    assert_eq!(table.slot(0), Some(SlotState::Free));
    assert_eq!(table.page_table().translate(va0), None);
    assert_eq!(table.unmap_umode_slot(0, 2), Err(Error::UnmapFailed));
    // The mapper of the unmapped slot is void.
    assert_eq!(mapper.map_addr(&mut table, page(va0), guest0), Err(Error::MapFailed));

    // The whole slot can be taken, and not a page more.
    assert!(table.umode_slot_mapper(0, 1024, false).is_ok());
    assert_eq!(table.unmap_umode_slot(0, 1024), Ok(vec![]));
    assert_eq!(table.umode_slot_mapper(0, 1025, true).err(), Some(Error::OutOfMap));
    assert_eq!(table.umode_slot_mapper(2, 1, true).err(), Some(Error::InvalidSlot));
    assert!(table.umode_slot_mapper(0, 0, true).is_ok());
}

#[test]
fn slots_can_be_mapped_again_and_again() {
    let (_, mut table, _) = build(&[]);
    for round in 0..20u64 {
        for slot in 0..2u64 {
            let n = 1 + (round * 97 + slot * 511) % 1024;
            let mapper = table.umode_slot_mapper(slot, n, round % 2 == 0).unwrap();
            let last = mapper.vaddr().bits() + (n - 1) * 0x1000;
            mapper.map_addr(&mut table, page(last), page(0x8300_0000)).unwrap();
        }
        for slot in 0..2u64 {
            let n = 1 + (round * 97 + slot * 511) % 1024;
            assert_eq!(table.unmap_umode_slot(slot, n), Ok(vec![page(0x8300_0000)]));
        }
    }
}

#[test]
fn region_permissions() {
    let region = |t| HwMemRegion { base: page(0x8000_0000), size: 0x3000, region_type: t };
    let perms = |t| SharedRegion::from_hw_mem_region(&region(t)).map(|s| s.pte_fields);
    let reserved = HwMemRegionType::Reserved;
    assert_eq!(perms(HwMemRegionType::Available), Some(fields(PteLeafPerms::RW)));
    assert_eq!(perms(reserved(HwReservedMemType::FirmwareReserved)), None);
    assert_eq!(
        perms(reserved(HwReservedMemType::HypervisorImage)),
        Some(fields(PteLeafPerms::RWX))
    );
    assert_eq!(perms(reserved(HwReservedMemType::HostKernelImage)), Some(fields(PteLeafPerms::R)));
    assert_eq!(
        perms(reserved(HwReservedMemType::HostInitramfsImage)),
        Some(fields(PteLeafPerms::R))
    );
    assert_eq!(perms(reserved(HwReservedMemType::HypervisorHeap)), Some(fields(PteLeafPerms::RW)));
    assert_eq!(
        perms(reserved(HwReservedMemType::HypervisorPerCpu)),
        Some(fields(PteLeafPerms::RW))
    );
    assert_eq!(perms(reserved(HwReservedMemType::PageMap)), Some(fields(PteLeafPerms::RW)));
    assert_eq!(perms(HwMemRegionType::Mmio), Some(fields(PteLeafPerms::RW)));
    let s = SharedRegion::from_hw_mem_region(&region(HwMemRegionType::Available)).unwrap();
    assert_eq!(s.vaddr, s.paddr);
    assert_eq!(s.paddr.bits(), 0x8000_0000);
    assert_eq!(s.page_count, 3);
}

fn elf_with_segment(vaddr: u64, memsz: u64) -> ElfMap<'static> {
    let mut b = vec![0u8; 0x100];
    b[0..4].copy_from_slice(&[0x7f, b'E', b'L', b'F']);
    b[4] = 2;
    b[5] = 1;
    b[6] = 1;
    b[18..20].copy_from_slice(&0xf3u16.to_le_bytes());
    b[20..24].copy_from_slice(&1u32.to_le_bytes());
    b[32..40].copy_from_slice(&64u64.to_le_bytes());
    b[54..56].copy_from_slice(&56u16.to_le_bytes());
    b[56..58].copy_from_slice(&1u16.to_le_bytes());
    b[64..68].copy_from_slice(&1u32.to_le_bytes());
    b[68..72].copy_from_slice(&5u32.to_le_bytes());
    b[80..88].copy_from_slice(&vaddr.to_le_bytes());
    b[104..112].copy_from_slice(&memsz.to_le_bytes());
    let bytes: &'static [u8] = Box::leak(b.into_boxed_slice());
    ElfMap::new(bytes).unwrap()
}

#[test]
fn segments_must_be_aligned_and_in_the_window() {
    let init = |vaddr, memsz| HypMap::init(&mem_map(), &elf_with_segment(vaddr, memsz));
    assert_eq!(init(UMODE_VA_START + 0x800, 0x100).err(), Some(Error::ElfUnalignedSegment));
    assert_eq!(init(0x8000_0000, 0x100).err(), Some(Error::ElfInvalidAddress));
    assert_eq!(init(UMODE_VA_START, 0).err(), Some(Error::ElfInvalidAddress));
    assert_eq!(init(UMODE_VA_START, 0x800_0001).err(), Some(Error::ElfInvalidAddress));
    let map = init(UMODE_VA_START, 0x800_0000).unwrap();
    let region = map.private_region(0).unwrap();
    assert_eq!(region.pte_fields, fields(PteLeafPerms::URX));
    assert_eq!(region.page_count(), 0x8000);
    assert!(map.private_region(1).is_none());
    assert_eq!(map.shared_region(1).unwrap().paddr.bits(), 0x8020_0000);
    assert!(map.shared_region(2).is_none());
}
