use salus::mem_map::Error as MapError;
use salus::mem_map::{HwMemMap, HwMemMapBuilder, HwMemRegionType, HwReservedMemType};
use salus::page_info::PageState;
use salus::page_tracking::{Error, HypPageAlloc, PageTracker};
use salus::pages::{MemType, PageAddr, PageOwnerId, PageSize, SequentialPages};
use std::cell::RefCell;
use std::rc::Rc;

const ONE_MEG: u64 = 1024 * 1024;
const MEM_ALIGN: u64 = 2 * ONE_MEG;
const MEM_SIZE: u64 = 256 * ONE_MEG;
const MEM_START: u64 = 0x8000_0000 + 3 * MEM_ALIGN;

fn stub_mem_map() -> HwMemMap {
    HwMemMapBuilder::new()
        .add_region(MEM_START, MEM_SIZE, HwMemRegionType::Available)
        .unwrap()
        .build()
}

fn stub_hyp_mem() -> HypPageAlloc {
    HypPageAlloc::new(stub_mem_map())
}

fn stub_page_tracker() -> (PageTracker, Vec<SequentialPages>) {
    let hyp_mem = stub_hyp_mem();
    PageTracker::from(hyp_mem, PageSize::Size4k.bytes())
}

fn page(bits: u64) -> PageAddr {
    PageAddr::new(bits).unwrap()
}

#[test]
fn hyp_mem_take_pages() {
    let mut hyp_mem = stub_hyp_mem();
    let first = hyp_mem.next_page();
    let mut taken = hyp_mem.take_pages(2).pages().into_iter();
    let after_taken = hyp_mem.next_page();

    assert_eq!(
        after_taken.addr().bits(),
        first.addr().bits() + (PageSize::Size4k.bytes() * 3)
    );
    assert_eq!(
        taken.next().unwrap().addr().bits(),
        first.addr().bits() + PageSize::Size4k.bytes()
    );
    assert_eq!(
        taken.next().unwrap().addr().bits(),
        first.addr().bits() + (PageSize::Size4k.bytes() * 2)
    );
}

#[test]
fn hyp_mem_take_by_ref() {
    let mut hyp_mem = stub_hyp_mem();
    let first = hyp_mem.next_page();
    let by_ref = &mut hyp_mem;
    let mut taken = by_ref.take_pages(2).pages().into_iter();
    let after_taken = hyp_mem.next_page();

    assert_eq!(
        after_taken.addr().bits(),
        first.addr().bits() + (PageSize::Size4k.bytes() * 3)
    );
    assert_eq!(
        taken.next().unwrap().addr().bits(),
        first.addr().bits() + PageSize::Size4k.bytes()
    );
    assert_eq!(
        taken.next().unwrap().addr().bits(),
        first.addr().bits() + (PageSize::Size4k.bytes() * 2)
    );
}

#[test]
fn hyp_mem_take_aligned() {
    let mut hyp_mem = stub_hyp_mem();
    let range = hyp_mem.take_pages_with_alignment(4, 16 * 1024);
    assert_eq!(range.base().bits() & (16 * 1024 - 1), 0);
}

#[test]
fn hyp_mem_drain() {
    let hyp_mem = stub_hyp_mem();
    let remaining = hyp_mem.pages_remaining();
    let (_, host_pages) = hyp_mem.drain();
    assert_eq!(host_pages.len(), 1);
    assert_eq!(
        host_pages[0].length_bytes(),
        remaining * PageSize::Size4k.bytes()
    );
}

#[test]
fn drop_one_page_tracker_ref() {
    let (page_tracker, _host_mem) = stub_page_tracker();
    let page_tracker = Rc::new(RefCell::new(page_tracker));
    let new_id = {
        let c = page_tracker.clone();
        let id = c.borrow_mut().add_active_guest().unwrap();
        id
    };
    assert_eq!(page_tracker.borrow().active_guest_count(), 2);

    page_tracker.borrow_mut().rm_active_guest(new_id);

    assert_eq!(page_tracker.borrow().active_guest_count(), 1);
}

#[test]
fn aligned_take_is_followed_by_next_page() {
    let mut hyp_mem = stub_hyp_mem();
    // Start off the alignment, so that pages have to be skipped.
    let first = hyp_mem.next_page();
    assert_eq!(first.addr().bits(), MEM_START);
    assert!(hyp_mem.can_take_pages(4, 16 * 1024));
    let range = hyp_mem.take_pages_with_alignment(4, 16 * 1024);
    assert_eq!(range.base().bits(), MEM_START + 16 * 1024);
    assert_eq!(range.len(), 4);
    let next = hyp_mem.next_page();
    assert_eq!(next.addr().bits(), MEM_START + 32 * 1024);
    // The skipped pages belong to the hypervisor too.
    let skipped = hyp_mem.page_info(page(MEM_START + 4096)).unwrap();
    assert_eq!(skipped.owners, vec![PageOwnerId::hypervisor()]);
}

#[test]
fn fresh_aligned_take_starts_at_the_first_page() {
    let mut hyp_mem = stub_hyp_mem();
    let range = hyp_mem.take_pages_with_alignment(4, 16 * 1024);
    assert_eq!(range.base().bits(), MEM_START);
    let next = hyp_mem.next_page();
    assert_eq!(next.addr().bits(), MEM_START + 4 * 4096);
}

#[test]
fn cannot_take_more_than_there_is() {
    let hyp_mem = stub_hyp_mem();
    let all = (MEM_SIZE / 4096) as usize;
    // The last page can never be taken: a free page has to stay.
    assert!(!hyp_mem.can_take_pages(all, 4096));
    assert!(hyp_mem.can_take_pages(all - 1, 4096));
    assert!(!hyp_mem.can_take_pages(1, 0));
}

#[test]
fn lazy_pruning_of_exited_owners() {
    let (mut tracker, host_pages) = stub_page_tracker();
    assert_eq!(host_pages.len(), 1);
    let host = PageOwnerId::host();
    let addr = page(MEM_START + 0x10000);
    // Boot the host: it gets every page that was left.
    for p in host_pages[0].pages() {
        tracker.set_page_owner(p.addr(), host).unwrap();
    }
    assert_eq!(tracker.owner(addr), Some(host));

    let guest = tracker.add_active_guest().unwrap();
    assert_eq!(guest.raw(), 2);
    tracker.set_page_owner(addr, guest).unwrap();
    assert_eq!(tracker.owner(addr), Some(guest));

    tracker.rm_active_guest(guest);
    assert_eq!(tracker.owner(addr), Some(host));

    // The stack holds hypervisor, host and the exited guest. Two more owners
    // fit only because the exited guest is dropped first.
    assert_eq!(tracker.set_page_owner(addr, host), Ok(()));
    assert_eq!(tracker.set_page_owner(addr, host), Ok(()));
    assert_eq!(tracker.set_page_owner(addr, host), Err(Error::OwnerOverflow));
    assert_eq!(tracker.owner(addr), Some(host));
}

#[test]
fn guest_ids_are_sequential() {
    let (mut tracker, _) = stub_page_tracker();
    assert_eq!(tracker.add_active_guest().unwrap().raw(), 2);
    assert_eq!(tracker.add_active_guest().unwrap().raw(), 3);
    tracker.rm_active_guest(PageOwnerId::new(2).unwrap());
    assert_eq!(tracker.add_active_guest().unwrap().raw(), 4);
    assert_eq!(tracker.active_guest_count(), 3);
    assert!(tracker.is_active_guest(PageOwnerId::hypervisor()));
    assert!(!tracker.is_active_guest(PageOwnerId::new(2).unwrap()));
}

#[test]
fn host_is_always_live() {
    let (mut tracker, _) = stub_page_tracker();
    tracker.rm_active_guest(PageOwnerId::host());
    assert_eq!(tracker.active_guest_count(), 1);
    assert!(tracker.is_active_guest(PageOwnerId::host()));
}

#[test]
fn guest_overflow() {
    let (mut tracker, _) = stub_page_tracker();
    for _ in 0..1023 {
        tracker.add_active_guest().unwrap();
    }
    assert_eq!(tracker.add_active_guest(), Err(Error::GuestOverflow));
    assert_eq!(tracker.active_guest_count(), 1024);
}

#[test]
fn pop_owner_errors() {
    let (mut tracker, host_pages) = stub_page_tracker();
    let addr = host_pages[0].base();
    // Owned by the hypervisor alone: the last owner cannot be popped.
    assert_eq!(tracker.pop_owner(addr), Err(Error::OwnerUnderflow));
    tracker.set_page_owner(addr, PageOwnerId::host()).unwrap();
    assert_eq!(tracker.pop_owner(addr), Ok(PageOwnerId::host()));
    assert_eq!(tracker.owner(addr), Some(PageOwnerId::hypervisor()));
}

fn map_with_reserved() -> HwMemMap {
    HwMemMapBuilder::new()
        .add_region(
            0x8000_0000,
            0x20_0000,
            HwMemRegionType::Reserved(HwReservedMemType::HypervisorImage),
        )
        .unwrap()
        .add_region(0x8040_0000, 0x400_0000, HwMemRegionType::Available)
        .unwrap()
        .add_region(0x1000_0000, 0x1000, HwMemRegionType::Mmio)
        .unwrap()
        .build()
}

#[test]
fn reserved_pages_are_never_modified() {
    let hyp_mem = HypPageAlloc::new(map_with_reserved());
    assert_eq!(hyp_mem.next_page_addr().bits(), 0x8040_0000);
    let (mut tracker, host_pages) = PageTracker::from(hyp_mem, 0x20_0000);
    let reserved = page(0x8000_1000);
    let gap = page(0x8020_0000);
    let mmio = page(0x1000_0000);
    assert_eq!(tracker.mem_type(reserved), Some(MemType::Reserved));
    assert_eq!(tracker.mem_type(gap), Some(MemType::Reserved));
    assert_eq!(tracker.mem_type(mmio), Some(MemType::Mmio));
    assert_eq!(tracker.mem_type(page(0x1000)), None);
    assert_eq!(
        tracker.set_page_owner(reserved, PageOwnerId::host()),
        Err(Error::ReservedPage)
    );
    assert_eq!(tracker.pop_owner(reserved), Err(Error::ReservedPage));
    assert_eq!(tracker.owner(reserved), None);
    assert_eq!(
        tracker.set_page_owner(page(0x1000), PageOwnerId::host()),
        Err(Error::InvalidPage(page(0x1000)))
    );
    // An unowned device page has no owner to pop.
    assert_eq!(tracker.pop_owner(mmio), Err(Error::UnownedPage));
    // The host memory starts at the next 2 MiB boundary after what the
    // hypervisor took for itself.
    assert_eq!(host_pages[0].base().bits(), 0x8080_0000);
}

#[test]
fn memory_map_is_sorted_and_checked() {
    let map = map_with_reserved();
    assert_eq!(map.len(), 3);
    assert_eq!(map.get(0).unwrap().base().bits(), 0x1000_0000);
    assert_eq!(map.get(1).unwrap().base().bits(), 0x8000_0000);
    assert_eq!(map.get(2).unwrap().size(), 0x400_0000);
    assert!(map.get(3).is_none());
    let b = || HwMemMapBuilder::new()
        .add_region(0x8000_0000, 0x2000, HwMemRegionType::Available)
        .unwrap();
    assert_eq!(
        b().add_region(0x8000_1000, 0x1000, HwMemRegionType::Mmio).err(),
        Some(MapError::OverlappingRegion)
    );
    assert_eq!(
        b().add_region(0x8000_2800, 0x1000, HwMemRegionType::Mmio).err(),
        Some(MapError::UnalignedRegion)
    );
    assert_eq!(
        b().add_region(0x8000_3000, 0, HwMemRegionType::Mmio).err(),
        Some(MapError::InvalidRegionSize)
    );
    assert_eq!(
        b().add_region(0xffff_ffff_ffff_f000, 0x1000, HwMemRegionType::Mmio).err(),
        Some(MapError::InvalidRegionSize)
    );
    assert!(b().add_region(0x8000_2000, 0x1000, HwMemRegionType::Mmio).is_ok());
    let mut full = HwMemMapBuilder::new();
    for i in 0..32u64 {
        full = full.add_region(i * 0x2000, 0x1000, HwMemRegionType::Available).unwrap();
    }
    assert_eq!(
        full.add_region(0x100_0000, 0x1000, HwMemRegionType::Available).err(),
        Some(MapError::OutOfSpace)
    );
}

#[test]
fn pages_go_through_their_states() {
    let (mut tracker, host_pages) = stub_page_tracker();
    let addr = host_pages[0].base();
    // A page that was claimed is clean.
    assert_eq!(tracker.page_state(addr), Some(PageState::Clean));
    // Only a mapped page can be unmapped.
    assert!(!tracker.mark_page(addr, false));
    assert_eq!(tracker.page_state(addr), Some(PageState::Clean));
    assert!(tracker.mark_page(addr, true));
    assert_eq!(tracker.page_state(addr), Some(PageState::Mapped));
    // Only a clean page can be mapped.
    assert!(!tracker.mark_page(addr, true));
    assert!(tracker.mark_page(addr, false));
    assert_eq!(tracker.page_state(addr), Some(PageState::Dirty));
    assert!(!tracker.mark_page(addr, true));
    assert_eq!(tracker.page_state(addr), Some(PageState::Dirty));
    // The owners of the page are not touched.
    assert_eq!(tracker.owner(addr), Some(PageOwnerId::hypervisor()));
    assert_eq!(tracker.page_state(page(0x1000)), None);
    assert!(!tracker.mark_page(page(0x1000), true));
}

#[test]
fn page_map_covers_the_memory_map() {
    let mut hyp_mem = stub_hyp_mem();
    let first = hyp_mem.next_page_addr();
    assert_eq!(first.bits(), MEM_START);
    let free = hyp_mem.page_info(first).unwrap();
    assert!(free.is_free());
    assert_eq!(free.state(), PageState::Free);
    assert_eq!(free.mem_type(), MemType::Ram);
    let taken = hyp_mem.next_page();
    assert_eq!(taken.addr(), first);
    assert_eq!(hyp_mem.page_info(first).unwrap().state(), PageState::Clean);
    let (pages, _) = hyp_mem.drain();
    assert_eq!(pages.base().bits(), MEM_START);
    assert_eq!(pages.len() as u64, MEM_SIZE / 4096);
    assert_eq!(pages.num_after(first), Some(pages.len()));
    assert_eq!(pages.num_after(page(MEM_START + MEM_SIZE - 4096)), Some(1));
    assert_eq!(pages.num_after(page(MEM_START + MEM_SIZE)), None);
    assert_eq!(pages.num_after(page(MEM_START - 4096)), None);
    assert_eq!(pages.find(page(MEM_START + 0x3000)), Some(3));
    assert!(pages.get(page(MEM_START + 0x3000)).is_some());
    assert!(pages.get(page(0x1000)).is_none());
}
