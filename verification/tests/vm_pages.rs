use salus::mem_map::{HwMemMapBuilder, HwMemRegionType, HwReservedMemType};
use salus::page_tracking::{Error as PageTrackingError, HypPageAlloc, PageTracker};
use salus::pages::{MemType, Page, PageAddr, PageOwnerId, SequentialPages};
use salus::vm_pages::{
    Error, GuestRootBuilder, HostRootBuilder, VmPages, GUEST_ROOT_PAGES, TOP_LEVEL_ALIGN,
};

const RAM_START: u64 = 0x8020_0000;

fn host() -> (Vec<SequentialPages>, HostRootBuilder, PageTracker) {
    let mem_map = HwMemMapBuilder::new()
        .add_region(RAM_START, 0x400_0000, HwMemRegionType::Available)
        .unwrap()
        .add_region(
            RAM_START + 0x400_0000,
            0x10_0000,
            HwMemRegionType::Reserved(HwReservedMemType::FirmwareReserved),
        )
        .unwrap()
        .build();
    HostRootBuilder::from_hyp_mem(HypPageAlloc::new(mem_map), 8)
}

fn page(bits: u64) -> PageAddr {
    PageAddr::new(bits).unwrap()
}

fn host_vm(builder: HostRootBuilder) -> VmPages {
    builder.create_host([0x11; 32]).into_inner()
}

// Six pages of the host that follow each other, the first aligned to 16 KiB.
fn root_pages(host_pages: &[SequentialPages]) -> Vec<Page> {
    let run = host_pages.iter().find(|r| r.len() >= 64).unwrap();
    let first = (run.base().bits() + TOP_LEVEL_ALIGN - 1) / TOP_LEVEL_ALIGN * TOP_LEVEL_ALIGN;
    (0..GUEST_ROOT_PAGES as u64).map(|k| Page::new(page(first + k * 0x1000))).collect()
}

#[test]
fn host_is_set_up_from_the_boot_allocator() {
    let (host_pages, mut builder, tracker) = host();
    let root = builder.root_pages();
    assert_eq!(root.len(), 4);
    assert_eq!(root.base().bits() % TOP_LEVEL_ALIGN, 0);
    assert_eq!(root.base().bits(), RAM_START);
    assert_eq!(tracker.owner(root.base()), Some(PageOwnerId::hypervisor()));
    // The pages for the page tables follow the root table.
    for k in 0..8u64 {
        let p = builder.next_pte_page().unwrap();
        assert_eq!(p.addr().bits(), RAM_START + 0x4000 + k * 0x1000);
        assert_eq!(tracker.owner(p.addr()), Some(PageOwnerId::hypervisor()));
    }
    assert_eq!(builder.next_pte_page(), None);
    // What is left is for the host, and starts at a multiple of 16 KiB. It
    // is in the hands of the hypervisor until the host gets it mapped.
    assert!(!host_pages.is_empty());
    assert_eq!(host_pages[0].base().bits() % TOP_LEVEL_ALIGN, 0);
    for run in host_pages.iter() {
        let last = run.get(run.len() - 1).unwrap().addr();
        assert_eq!(tracker.owner(run.base()), Some(PageOwnerId::hypervisor()));
        assert_eq!(tracker.owner(last), Some(PageOwnerId::hypervisor()));
    }
    assert_eq!(tracker.active_guest_count(), 1);
    let vm = host_vm(builder);
    assert_eq!(vm.page_owner_id(), PageOwnerId::host());
    assert_eq!(vm.get_measurement(), &[0x11u8; 32][..]);
}

#[test]
fn pages_must_keep_their_place() {
    let ram = MemType::Ram;
    assert!(HostRootBuilder::placed(page(0x8000_0000), page(0x9000_4000), ram));
    assert!(HostRootBuilder::placed(page(0x8000_3000), page(0x9000_7000), ram));
    assert!(!HostRootBuilder::placed(page(0x8000_3000), page(0x9000_4000), ram));
    assert!(HostRootBuilder::placed(page(0x8000_3000), page(0x9000_4000), MemType::Mmio));
}

#[test]
fn host_claims_the_pages_that_it_maps() {
    let (host_pages, builder, mut tracker) = host();
    let pages: Vec<Page> = root_pages(&host_pages);
    let to_addr = pages[0].addr();
    builder.add_measured_pages(&mut tracker, to_addr, &pages);
    for p in pages.iter() {
        assert_eq!(tracker.owner(p.addr()), Some(PageOwnerId::host()));
    }
    builder.add_pages(&mut tracker, page(0x1000), &pages[..2].to_vec(), MemType::Mmio);
    // Each claim puts the host on the stack of owners once more.
    assert_eq!(tracker.pop_owner(pages[0].addr()), Ok(PageOwnerId::host()));
    assert_eq!(tracker.pop_owner(pages[0].addr()), Ok(PageOwnerId::host()));
    assert_eq!(tracker.pop_owner(pages[0].addr()), Err(PageTrackingError::OwnerUnderflow));
    assert_eq!(tracker.pop_owner(pages[5].addr()), Ok(PageOwnerId::host()));
    assert_eq!(tracker.pop_owner(pages[5].addr()), Err(PageTrackingError::OwnerUnderflow));
}

#[test]
fn a_guest_is_built_from_pages_of_its_parent() {
    let (host_pages, builder, mut tracker) = host();
    let pages = root_pages(&host_pages);
    let from = pages[0].addr();
    // The host owns 3 MiB from there on.
    let chunk: Vec<Page> = SequentialPages::new(from, 0x300).unwrap().pages();
    builder.add_pages(&mut tracker, from, &chunk, MemType::Ram);
    let vm = host_vm(builder);
    assert_eq!(
        vm.new_guest_id(&mut tracker, page(from.bits() + 0x1000)),
        Err(Error::UnalignedVmPages(page(from.bits() + 0x1000)))
    );
    assert_eq!(tracker.active_guest_count(), 1);
    let id = vm.new_guest_id(&mut tracker, from).unwrap();
    assert_eq!(id.raw(), 2);
    assert!(tracker.is_active_guest(id));
    let (root, mut guest, state_page) = vm.create_guest_root_builder(&mut tracker, id, &pages, 3);
    assert_eq!(root.base(), from);
    assert_eq!(root.len(), 4);
    assert_eq!(state_page, pages[5]);
    assert_eq!(guest.page_owner_id(), id);
    assert_eq!(guest.num_pte_pages(), 1);
    for p in pages.iter() {
        assert_eq!(tracker.owner(p.addr()), Some(id));
    }

    // More pages for the page tables of the guest, as far as there is room.
    let more: Vec<Page> =
        (0..4u64).map(|k| Page::new(page(from.bits() + 0x10_0000 + k * 0x1000))).collect();
    assert_eq!(
        vm.add_pte_pages_builder(&mut tracker, &more, &mut guest),
        Err(Error::InsufficientPtePageStorage)
    );
    assert_eq!(guest.num_pte_pages(), 3);
    // The page that found no room has changed its owner all the same.
    assert_eq!(tracker.owner(more[2].addr()), Some(id));
    assert_eq!(tracker.owner(more[3].addr()), Some(PageOwnerId::host()));
    // The pages are used up last in, first out.
    assert_eq!(guest.next_pte_page(), Some(more[1]));
    assert_eq!(guest.next_pte_page(), Some(more[0]));
    assert_eq!(guest.next_pte_page(), Some(pages[4]));
    assert_eq!(guest.next_pte_page(), None);
    assert_eq!(vm.add_pte_pages_builder(&mut tracker, &vec![more[3]], &mut guest), Ok(()));

    // Data pages.
    let data = page(from.bits() + 0x20_0000);
    assert_eq!(vm.add_4k_pages_builder(&mut tracker, data, &guest), Ok(()));
    assert_eq!(tracker.owner(data), Some(id));
    let reserved = page(RAM_START + 0x400_0000);
    assert_eq!(
        vm.add_4k_pages_builder(&mut tracker, reserved, &guest),
        Err(Error::SettingOwner(PageTrackingError::ReservedPage))
    );
    let outside = page(0x1000);
    assert_eq!(
        vm.add_4k_pages_builder(&mut tracker, outside, &guest),
        Err(Error::SettingOwner(PageTrackingError::InvalidPage(outside)))
    );
    assert_eq!(
        vm.add_pte_pages_builder(&mut tracker, &vec![Page::new(reserved)], &mut guest),
        Err(Error::SettingOwner(PageTrackingError::ReservedPage))
    );

    let guest_vm = guest.create_pages([0x22; 32]);
    assert_eq!(guest_vm.page_owner_id(), id);
    assert_eq!(guest_vm.get_measurement()[31], 0x22);

    // The guest gives pages back: they go to the owner before it.
    let gpa = page(0x4000_0000);
    assert_eq!(guest_vm.remove_4k_pages(&mut tracker, gpa, 2, &vec![data, more[0].addr()]), Ok(2));
    assert_eq!(tracker.owner(data), Some(PageOwnerId::host()));
    assert_eq!(tracker.owner(more[0].addr()), Some(PageOwnerId::host()));
    // A page that the guest does not own stops the removal.
    assert_eq!(
        guest_vm.remove_4k_pages(&mut tracker, gpa, 3, &vec![more[1].addr(), data, more[2].addr()]),
        Err(Error::UnownedPage(page(0x4000_1000)))
    );
    assert_eq!(tracker.owner(more[1].addr()), Some(PageOwnerId::host()));
    assert_eq!(tracker.owner(more[2].addr()), Some(id));
    // A page of another owner is taken from that owner before the removal stops.
    assert_eq!(
        vm.remove_4k_pages(&mut tracker, gpa, 1, &vec![more[2].addr()]),
        Err(Error::UnownedPage(gpa))
    );
    assert_eq!(tracker.owner(more[2].addr()), Some(PageOwnerId::host()));

    // When the guest is gone, its pages fall back to the host.
    assert_eq!(tracker.owner(pages[0].addr()), Some(id));
    guest_vm.release(&mut tracker);
    assert!(!tracker.is_active_guest(id));
    assert_eq!(tracker.owner(pages[0].addr()), Some(PageOwnerId::host()));
    // The host itself stays.
    vm.release(&mut tracker);
    assert!(tracker.is_active_guest(PageOwnerId::host()));
}

#[test]
fn builder_stores_a_bounded_number_of_pages() {
    let mut b = GuestRootBuilder::new(PageOwnerId::new(5).unwrap(), 2);
    assert_eq!(b.add_pte_page(Page::new(page(0x1000))), Ok(()));
    assert_eq!(b.add_pte_page(Page::new(page(0x2000))), Ok(()));
    assert_eq!(b.add_pte_page(Page::new(page(0x3000))), Err(Error::InsufficientPtePageStorage));
    assert_eq!(b.num_pte_pages(), 2);
    assert_eq!(b.next_pte_page(), Some(Page::new(page(0x2000))));
    assert_eq!(b.add_pte_page(Page::new(page(0x3000))), Ok(()));
}

#[test]
fn no_guest_without_an_identifier() {
    let (host_pages, builder, mut tracker) = host();
    let vm = host_vm(builder);
    let from = root_pages(&host_pages)[0].addr();
    // The host and 1023 guests are live.
    for k in 0..1023u64 {
        assert_eq!(vm.new_guest_id(&mut tracker, from).unwrap().raw(), 2 + k);
    }
    assert_eq!(tracker.active_guest_count(), 1024);
    assert_eq!(
        vm.new_guest_id(&mut tracker, from),
        Err(Error::GuestId(PageTrackingError::GuestOverflow))
    );
    // An address that is not aligned is refused before an identifier is used.
    let odd = page(from.bits() + 0x2000);
    assert_eq!(vm.new_guest_id(&mut tracker, odd), Err(Error::UnalignedVmPages(odd)));
    tracker.rm_active_guest(PageOwnerId::new(5).unwrap());
    assert_eq!(vm.new_guest_id(&mut tracker, from).unwrap().raw(), 2 + 1024);
}
