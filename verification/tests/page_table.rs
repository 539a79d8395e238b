use salus::page_table::{
    max_pte_pages, vpn_of, Error, FirstStagePageTable, LeafPte, PteFieldBits, PteLeafPerms,
    PtePagePool,
};
use salus::pages::{Page, PageAddr, PageOwnerId, PageSize, SequentialPages};

fn page(bits: u64) -> PageAddr {
    PageAddr::new(bits).unwrap()
}

fn pool(base: u64, count: u64) -> PtePagePool {
    PtePagePool::from_sequential(SequentialPages::new(page(base), count).unwrap())
}

fn table() -> FirstStagePageTable {
    FirstStagePageTable::new(Page::new(page(0x8000_0000)), PageOwnerId::hypervisor()).unwrap()
}

#[test]
fn satp_encodes_mode_and_root() {
    let t = table();
    assert_eq!(t.satp(), (9 << 60) | 0x8_0000);
    assert_eq!(t.root().bits(), 0x8000_0000);
    assert_eq!(t.page_owner_id(), PageOwnerId::hypervisor());
    assert_eq!(
        FirstStagePageTable::new(Page::new(page(1 << 56)), PageOwnerId::host()).err(),
        Some(Error::InvalidAddress)
    );
}

#[test]
fn map_range_takes_a_frame_for_each_new_table() {
    let mut t = table();
    let mut frames = pool(0x9000_0000, 16);
    // One table on each of the three levels.
    assert_eq!(t.missing_pte_pages(page(0x4000_0000), PageSize::Size4k, 4), Some(3));
    let mapper = t.map_range(page(0x4000_0000), PageSize::Size4k, 4, &mut frames).unwrap();
    assert_eq!(frames.len(), 13);
    assert_eq!(mapper.vaddr().bits(), 0x4000_0000);
    assert_eq!(mapper.count(), 4);
    // The neighbouring 2 MiB need one more table of the lowest level only.
    assert_eq!(t.missing_pte_pages(page(0x4020_0000), PageSize::Size4k, 1), Some(1));
    t.map_range(page(0x4020_0000), PageSize::Size4k, 1, &mut frames).unwrap();
    assert_eq!(frames.len(), 12);
    // A range across a 2 MiB boundary needs two tables of the lowest level.
    assert_eq!(t.missing_pte_pages(page(0x405f_f000), PageSize::Size4k, 2), Some(2));
    // Nothing is mapped by map_range itself.
    assert_eq!(t.translate(0x4000_0000), None);
}

#[test]
fn map_addr_is_infallible_inside_the_range() {
    let mut t = table();
    let mut frames = pool(0x9000_0000, 3);
    let fields = PteFieldBits::leaf_with_perms(PteLeafPerms::RW);
    let mapper = t.map_range(page(0x4000_0000), PageSize::Size4k, 2, &mut frames).unwrap();
    assert_eq!(frames.len(), 0);
    assert_eq!(mapper.map_addr(&mut t, page(0x4000_0000), page(0x5000_0000), fields), Ok(()));
    assert_eq!(mapper.map_addr(&mut t, page(0x4000_1000), page(0x6000_0000), fields), Ok(()));
    assert_eq!(
        mapper.map_addr(&mut t, page(0x4000_2000), page(0x6000_0000), fields),
        Err(Error::OutOfMapRange)
    );
    assert_eq!(
        mapper.map_addr(&mut t, page(0x3fff_f000), page(0x6000_0000), fields),
        Err(Error::OutOfMapRange)
    );
    assert_eq!(
        mapper.map_addr(&mut t, page(0x4000_0000), page(1 << 56), fields),
        Err(Error::InvalidAddress)
    );
    assert_eq!(t.translate(0x4000_0123), Some((0x5000_0123, fields)));
    assert_eq!(t.translate(0x4000_1fff), Some((0x6000_0fff, fields)));
    assert_eq!(t.translate(0x4000_2000), None);
    // Replacing an entry works too.
    assert_eq!(mapper.map_addr(&mut t, page(0x4000_0000), page(0x7000_0000), fields), Ok(()));
    assert_eq!(t.translate(0x4000_0000), Some((0x7000_0000, fields)));
    // A mapper is of no use with a table that lacks the tables of its range.
    let mut other = table();
    assert_eq!(
        mapper.map_addr(&mut other, page(0x4000_0000), page(0x5000_0000), fields),
        Err(Error::TableMissing)
    );
}

#[test]
fn map_range_errors() {
    let mut t = table();
    let mut frames = pool(0x9000_0000, 2);
    assert_eq!(
        t.map_range(page(0x4000_0000), PageSize::Size2M, 1, &mut frames).err(),
        Some(Error::PageSizeNotSupported(PageSize::Size2M))
    );
    assert_eq!(
        t.map_range(page(0x0000_8000_0000_0000), PageSize::Size4k, 1, &mut frames).err(),
        Some(Error::InvalidAddress)
    );
    assert_eq!(
        t.map_range(page(0x0000_7fff_ffff_f000), PageSize::Size4k, 2, &mut frames).err(),
        Some(Error::InvalidAddress)
    );
    assert_eq!(frames.len(), 2);
    assert_eq!(
        t.map_range(page(0x4000_0000), PageSize::Size4k, 1, &mut frames).err(),
        Some(Error::InsufficientPtePages)
    );
    assert_eq!(frames.len(), 0);
    // The two tables that were created stay: one more frame is enough now.
    let mut frames = pool(0xa000_0000, 1);
    let fields = PteFieldBits::leaf_with_perms(PteLeafPerms::R);
    let mapper = t.map_range(page(0x4000_0000), PageSize::Size4k, 1, &mut frames).unwrap();
    mapper.map_addr(&mut t, page(0x4000_0000), page(0x5000_0000), fields).unwrap();
    assert_eq!(
        t.map_range(page(0x4000_0000), PageSize::Size4k, 1, &mut frames).err(),
        Some(Error::MappingExists)
    );
    assert_eq!(t.missing_pte_pages(page(0x4000_0000), PageSize::Size4k, 1), None);
}

#[test]
fn unmap_range_returns_the_mapped_pages() {
    let mut t = table();
    let mut frames = pool(0x9000_0000, 3);
    let fields = PteFieldBits::leaf_with_perms(PteLeafPerms::URW);
    let va = 0xffff_ffff_0840_0000u64;
    let mapper = t.map_range(page(va), PageSize::Size4k, 4, &mut frames).unwrap();
    mapper.map_addr(&mut t, page(va), page(0x5000_0000), fields).unwrap();
    mapper.map_addr(&mut t, page(va + 0x2000), page(0x4000_0000), fields).unwrap();
    assert_eq!(t.translate(va + 0x2008), Some((0x4000_0008, fields)));
    let pages = t.unmap_range(page(va), PageSize::Size4k, 4).unwrap();
    assert_eq!(pages, vec![page(0x5000_0000), page(0x4000_0000)]);
    assert_eq!(t.translate(va), None);
    assert_eq!(t.unmap_range(page(va), PageSize::Size4k, 4).unwrap(), vec![]);
    assert_eq!(
        t.unmap_range(page(va), PageSize::Size1G, 4).err(),
        Some(Error::PageSizeNotSupported(PageSize::Size1G))
    );
    // The tables are still there: mapping again needs no frame.
    assert_eq!(frames.len(), 0);
    assert!(t.map_range(page(va), PageSize::Size4k, 4, &mut frames).is_ok());
}

#[test]
fn leaf_entries_are_bit_exact() {
    assert_eq!(PteFieldBits::leaf_with_perms(PteLeafPerms::R).bits(), 0x03);
    assert_eq!(PteFieldBits::leaf_with_perms(PteLeafPerms::RW).bits(), 0x07);
    assert_eq!(PteFieldBits::leaf_with_perms(PteLeafPerms::RX).bits(), 0x0b);
    assert_eq!(PteFieldBits::leaf_with_perms(PteLeafPerms::RWX).bits(), 0x0f);
    assert_eq!(PteFieldBits::leaf_with_perms(PteLeafPerms::UR).bits(), 0x13);
    assert_eq!(PteFieldBits::leaf_with_perms(PteLeafPerms::URW).bits(), 0x17);
    assert_eq!(PteFieldBits::leaf_with_perms(PteLeafPerms::URX).bits(), 0x1b);
    assert_eq!(PteFieldBits::leaf_with_perms(PteLeafPerms::URWX).bits(), 0x1f);
    let leaf = LeafPte {
        paddr: page(0x8020_0000),
        fields: PteFieldBits::leaf_with_perms(PteLeafPerms::RW),
    };
    assert_eq!(leaf.encoded(), (0x8_0200 << 10) | 0x7);
}

#[test]
fn page_numbers_and_pool_size() {
    assert_eq!(vpn_of(0x1000), Some(1));
    assert_eq!(vpn_of(0x0000_7fff_ffff_ffff), Some(0x7_ffff_ffff));
    assert_eq!(vpn_of(0x0000_8000_0000_0000), None);
    assert_eq!(vpn_of(0xffff_7fff_ffff_ffff), None);
    assert_eq!(vpn_of(0xffff_8000_0000_0000), Some(0x8_0000_0000));
    assert_eq!(vpn_of(0xffff_ffff_0840_0000), Some(0xf_fff0_8400));
    assert_eq!(max_pte_pages(2048), 10);
    assert_eq!(max_pte_pages(0), 6);
    assert_eq!(max_pte_pages(1 << 27), (1 << 18) + 2 + 512 + 2 + 1 + 2);
}
