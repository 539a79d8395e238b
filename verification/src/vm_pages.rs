//! The management of the memory of virtual machines: which pages a machine
//! hands to a guest that it builds, and which it takes back.
//!
//! The second-stage page table of a machine is not part of this module. Its
//! work — to invalidate or unmap a range, to map a page — is done by the
//! caller, who hands the pages that it got to the functions here. They decide
//! on the ownership of these pages.
use vstd::prelude::*;

use crate::page_info::pruned;
use crate::page_table::{Error as PageTableError, PtePagePool};
use crate::page_tracking::{
    aligned_to, boot_map, boot_next, can_boot, free_runs, set_owner_result, AllocModel,
    Error as PageTrackingError, HypPageAlloc, PageTracker, FIRST_GUEST_ID, MAX_ACTIVE_GUESTS,
};
use crate::pages::{
    MemType, Page, PageAddr, PageOwnerId, SequentialPages, HOST_ID, PAGE_SIZE_4K,
};

verus! {

/// The alignment of the root of a second-stage page table, and of the memory
/// of a virtual machine: 16 KiB.
pub const TOP_LEVEL_ALIGN: u64 = 0x4000;

/// The number of pages that the root of a second-stage page table takes.
pub const ROOT_TABLE_PAGES: usize = 4;

/// The number of pages that a machine gives to start a guest: the pages of
/// the root table, a page for the list of table pages, and a page for the
/// state of the guest.
pub const GUEST_ROOT_PAGES: usize = 6;

/// The length of a measurement in bytes.
pub const MEASUREMENT_LEN: usize = 32;

/// Errors of the management of the pages of virtual machines.
#[derive(Clone, Copy, Debug, PartialEq, Eq, Structural)]
pub enum Error {
    /// No identifier could be had for a new guest.
    GuestId(PageTrackingError),
    /// There is no room to store another page for page tables.
    InsufficientPtePageStorage,
    /// The page table refused the request.
    Paging(PageTableError),
    /// The page fault could not be handled.
    PageFaultHandling,
    /// The owner of a page could not be set.
    SettingOwner(PageTrackingError),
    /// The pages for a root table must be aligned to 16 KiB.
    UnalignedVmPages(PageAddr),
    /// The page at this guest address is not owned by the machine.
    UnownedPage(PageAddr),
}

/// What decides on a change of owner: for each page of the page map its kind
/// and its stack of owners, and the list of live guests.
pub ghost struct Ledger {
    /// The address of the first page of the map.
    pub base: int,
    /// The kind of each page.
    pub kinds: Seq<MemType>,
    /// The owners of each page, the current one last.
    pub stacks: Seq<Seq<PageOwnerId>>,
    /// The live guests.
    pub guests: Seq<PageOwnerId>,
}

/// What `pop_owner` answers on a page of kind `kind` with the owners
/// `owners`.
pub open spec fn pop_result(kind: MemType, owners: Seq<PageOwnerId>) -> Result<
    PageOwnerId,
    PageTrackingError,
> {
    if kind == MemType::Reserved {
        Err(PageTrackingError::ReservedPage)
    } else if owners.len() == 0 {
        Err(PageTrackingError::UnownedPage)
    } else if owners.len() == 1 {
        Err(PageTrackingError::OwnerUnderflow)
    } else {
        Ok(owners.last())
    }
}

impl Ledger {
    /// The ledger of the page tracker `t`.
    pub open spec fn of(t: &PageTracker) -> Ledger {
        Ledger {
            base: t.page_map().spec_base().spec_bits() as int,
            kinds: Seq::new(t.pages_view().len(), |i: int| t.pages_view()[i].mem_type),
            stacks: Seq::new(t.pages_view().len(), |i: int| t.pages_view()[i].owners@),
            guests: t.guests(),
        }
    }

    /// The position in the map of the page at `addr`, if the map has it.
    pub open spec fn index_of(self, addr: PageAddr) -> Option<int> {
        let i = (addr.spec_bits() - self.base) / 4096;
        if addr.spec_bits() >= self.base && i < self.stacks.len() {
            Some(i)
        } else {
            None
        }
    }

    /// The ledger with `owners` as the owners of page `i`.
    pub open spec fn with_stack(self, i: int, owners: Seq<PageOwnerId>) -> Ledger {
        Ledger { stacks: self.stacks.update(i, owners), ..self }
    }

    /// What becomes of the ledger when `owner` is made the owner of the page
    /// at `addr`, and the answer to the request.
    pub open spec fn set_owner(self, addr: PageAddr, owner: PageOwnerId) -> (
        Ledger,
        Result<(), PageTrackingError>,
    ) {
        match self.index_of(addr) {
            None => (self, Err(PageTrackingError::InvalidPage(addr))),
            Some(i) => {
                let kept = pruned(self.stacks[i], self.guests);
                let r = set_owner_result(self.kinds[i], kept);
                if self.kinds[i] == MemType::Reserved {
                    (self, r)
                } else if r is Ok {
                    (self.with_stack(i, kept.push(owner)), r)
                } else {
                    (self.with_stack(i, kept), r)
                }
            },
        }
    }

    /// What becomes of the ledger when the current owner of the page at
    /// position `i` is removed, and the answer to the request.
    pub open spec fn pop_owner(self, i: int) -> (Ledger, Result<PageOwnerId, PageTrackingError>) {
        let r = pop_result(self.kinds[i], self.stacks[i]);
        if r is Ok {
            (self.with_stack(i, self.stacks[i].drop_last()), r)
        } else {
            (self, r)
        }
    }

    /// The ledger after `pages[k..]` have been given to `to`, one after the
    /// other and up to the first page that is refused; with it the position
    /// of that page and the error.
    pub open spec fn donate(self, pages: Seq<PageAddr>, to: PageOwnerId, k: int) -> (
        Ledger,
        Option<(int, PageTrackingError)>,
    )
        decreases pages.len() - k,
    {
        if 0 <= k < pages.len() {
            let (next, r) = self.set_owner(pages[k], to);
            match r {
                Ok(_) => next.donate(pages, to, k + 1),
                Err(e) => (next, Some((k, e))),
            }
        } else {
            (self, None)
        }
    }

    /// The ledger after `owner` has been removed as the owner of
    /// `pages[k..]`, one after the other and up to the first page that has
    /// no owner to go back to or that had another owner; with it the
    /// position of that page.
    pub open spec fn reclaim(self, pages: Seq<PageAddr>, owner: PageOwnerId, k: int) -> (
        Ledger,
        Option<int>,
    )
        decreases pages.len() - k,
    {
        if 0 <= k < pages.len() && self.index_of(pages[k]) is Some {
            let (next, r) = self.pop_owner(self.index_of(pages[k]).unwrap());
            if r == Ok::<PageOwnerId, PageTrackingError>(owner) {
                next.reclaim(pages, owner, k + 1)
            } else {
                (next, Some(k))
            }
        } else {
            (self, None)
        }
    }

    /// True if the map has each of `pages`.
    pub open spec fn has_all(self, pages: Seq<PageAddr>) -> bool {
        forall|k: int| 0 <= k < pages.len() ==> self.index_of(#[trigger] pages[k]) is Some
    }
}

/// Makes `owner` the owner of the page at `addr`.
fn set_owner(tracker: &mut PageTracker, addr: PageAddr, owner: PageOwnerId) -> (r: Result<
    (),
    PageTrackingError,
>)
    requires
        old(tracker).wf(),
    ensures
        final(tracker).wf(),
        Ledger::of(final(tracker)) == Ledger::of(old(tracker)).set_owner(addr, owner).0,
        r == Ledger::of(old(tracker)).set_owner(addr, owner).1,
        final(tracker).spec_next_owner_id() == old(tracker).spec_next_owner_id(),
{
    let r = tracker.set_page_owner(addr, owner);
    proof {
        let before = Ledger::of(old(tracker));
        let after = Ledger::of(tracker);
        let want = before.set_owner(addr, owner).0;
        assert(before.index_of(addr) == old(tracker).index_of(addr));
        assert(after.kinds =~= want.kinds);
        assert(after.stacks =~= want.stacks);
    }
    r
}

/// Removes the current owner of the page at `addr`, which the map has.
fn pop_owner(tracker: &mut PageTracker, addr: PageAddr) -> (r: Result<
    PageOwnerId,
    PageTrackingError,
>)
    requires
        old(tracker).wf(),
        Ledger::of(old(tracker)).index_of(addr) is Some,
    ensures
        final(tracker).wf(),
        ({
            let before = Ledger::of(old(tracker));
            let step = before.pop_owner(before.index_of(addr).unwrap());
            &&& Ledger::of(final(tracker)) == step.0
            &&& r == step.1
        }),
        final(tracker).spec_next_owner_id() == old(tracker).spec_next_owner_id(),
{
    proof {
        assert(Ledger::of(tracker).index_of(addr) == tracker.index_of(addr));
    }
    let r = tracker.pop_owner(addr);
    proof {
        let before = Ledger::of(old(tracker));
        let after = Ledger::of(tracker);
        let want = before.pop_owner(before.index_of(addr).unwrap()).0;
        assert(after.kinds =~= want.kinds);
        assert(after.stacks =~= want.stacks);
    }
    r
}

/// Builder used to set up the pages of a new guest VM: it collects the pages
/// that the page table of the guest is built from.
pub struct GuestRootBuilder {
    owner: PageOwnerId,
    pte_pages: Vec<Page>,
    limit: usize,
}

impl GuestRootBuilder {
    /// The guest that is being built.
    pub closed spec fn spec_owner(&self) -> PageOwnerId {
        self.owner
    }

    /// The pages for page tables that have been added and not used yet.
    pub closed spec fn pte_pages(&self) -> Seq<Page> {
        self.pte_pages@
    }

    /// The most pages for page tables that can be stored at one time.
    pub closed spec fn spec_limit(&self) -> usize {
        self.limit
    }

    /// A builder for the guest `owner`, with room for `limit` pages for
    /// page tables and none stored.
    pub fn new(owner: PageOwnerId, limit: usize) -> (r: GuestRootBuilder)
        ensures
            r.spec_owner() == owner,
            r.spec_limit() == limit,
            r.pte_pages() == Seq::<Page>::empty(),
    {
        GuestRootBuilder { owner, pte_pages: Vec::new(), limit }
    }

    /// Return the page owner ID these pages will be assigned to.
    pub fn page_owner_id(&self) -> (r: PageOwnerId)
        ensures
            r == self.spec_owner(),
    {
        self.owner
    }

    /// The number of pages for page tables that are stored.
    pub fn num_pte_pages(&self) -> (r: usize)
        ensures
            r == self.pte_pages().len(),
    {
        self.pte_pages.len()
    }

    /// Add a page to be used for building the guest's page tables. Fails,
    /// and changes nothing, if the store is full.
    pub fn add_pte_page(&mut self, page: Page) -> (r: Result<(), Error>)
        ensures
            final(self).spec_owner() == old(self).spec_owner(),
            final(self).spec_limit() == old(self).spec_limit(),
            old(self).pte_pages().len() >= old(self).spec_limit() ==> r == Err::<(), Error>(
                Error::InsufficientPtePageStorage,
            ) && final(self).pte_pages() == old(self).pte_pages(),
            old(self).pte_pages().len() < old(self).spec_limit() ==> r == Ok::<(), Error>(())
                && final(self).pte_pages() == old(self).pte_pages().push(page),
    {
        if self.pte_pages.len() >= self.limit {
            return Err(Error::InsufficientPtePageStorage);
        }
        self.pte_pages.push(page);
        Ok(())
    }

    /// Takes the page for page tables that was added last, for the page
    /// table to use.
    pub fn next_pte_page(&mut self) -> (r: Option<Page>)
        ensures
            final(self).spec_owner() == old(self).spec_owner(),
            final(self).spec_limit() == old(self).spec_limit(),
            old(self).pte_pages().len() == 0 ==> r is None
                && final(self).pte_pages() == old(self).pte_pages(),
            old(self).pte_pages().len() > 0 ==> r == Some(old(self).pte_pages().last())
                && final(self).pte_pages() == old(self).pte_pages().drop_last(),
    {
        self.pte_pages.pop()
    }

    /// Consumes the builder and returns the guest's `VmPages`, with the
    /// measurement of the pages that were added.
    pub fn create_pages(self, measurement: [u8; 32]) -> (r: VmPages)
        ensures
            r.spec_owner() == self.spec_owner(),
            r.spec_measurement() == measurement@,
    {
        VmPages { owner: self.owner, measurement }
    }
}

/// What `add_pte_pages_builder` leaves behind when it has gone through
/// `pages[k..]`: the ledger, the stored pages for page tables, and the answer.
pub open spec fn add_pte_pages(
    ledger: Ledger,
    stored: Seq<Page>,
    limit: int,
    pages: Seq<Page>,
    to: PageOwnerId,
    k: int,
) -> (Ledger, Seq<Page>, Result<(), Error>)
    decreases pages.len() - k,
{
    if 0 <= k < pages.len() {
        let (next, r) = ledger.set_owner(pages[k].addr, to);
        match r {
            Err(e) => (next, stored, Err(Error::SettingOwner(e))),
            Ok(_) => if stored.len() >= limit {
                (next, stored, Err(Error::InsufficientPtePageStorage))
            } else {
                add_pte_pages(next, stored.push(pages[k]), limit, pages, to, k + 1)
            },
        }
    } else {
        (ledger, stored, Ok(()))
    }
}

/// The addresses that a guest sees for `count` pages from `from` on.
pub open spec fn guest_addr(from: PageAddr, k: int) -> int {
    from.spec_bits() + k * 4096
}

/// The single management point for the memory of a virtual machine.
///
/// Machines are allowed to donate pages to child machines, and take pages
/// back that they have donated.
pub struct VmPages {
    owner: PageOwnerId,
    measurement: [u8; 32],
}

impl VmPages {
    /// The machine that owns the pages.
    pub closed spec fn spec_owner(&self) -> PageOwnerId {
        self.owner
    }

    /// The measurement of the pages that the machine was built from.
    pub closed spec fn spec_measurement(&self) -> Seq<u8> {
        self.measurement@
    }

    /// Returns the `PageOwnerId` associated with the pages contained in this
    /// machine.
    pub fn page_owner_id(&self) -> (r: PageOwnerId)
        ensures
            r == self.spec_owner(),
    {
        self.owner
    }

    /// The measurement of the pages that the machine was built from.
    pub fn get_measurement(&self) -> (r: &[u8])
        ensures
            r@ == self.spec_measurement(),
            r@.len() == MEASUREMENT_LEN,
    {
        self.measurement.as_slice()
    }

    /// The first step of making a guest from the pages at `from_addr`: the
    /// address must be aligned like a root table, and the guest gets the
    /// next identifier. The caller then invalidates the pages and hands
    /// them to `create_guest_root_builder`.
    pub fn new_guest_id(&self, tracker: &mut PageTracker, from_addr: PageAddr) -> (r: Result<
        PageOwnerId,
        Error,
    >)
        requires
            old(tracker).wf(),
        ensures
            final(tracker).wf(),
            final(tracker).page_map() == old(tracker).page_map(),
            from_addr.spec_bits() % TOP_LEVEL_ALIGN != 0 ==> r == Err::<PageOwnerId, Error>(
                Error::UnalignedVmPages(from_addr),
            ) && final(tracker).guests() == old(tracker).guests()
                && final(tracker).spec_next_owner_id() == old(tracker).spec_next_owner_id(),
            from_addr.spec_bits() % TOP_LEVEL_ALIGN == 0 ==> {
                let id = old(tracker).spec_next_owner_id();
                let live = old(tracker).guests();
                if id == u64::MAX {
                    r == Err::<PageOwnerId, Error>(Error::GuestId(PageTrackingError::IdOverflow))
                        && final(tracker).guests() == live
                } else if live.len() == MAX_ACTIVE_GUESTS {
                    r == Err::<PageOwnerId, Error>(
                        Error::GuestId(PageTrackingError::GuestOverflow),
                    ) && final(tracker).guests() == live
                } else {
                    r == Ok::<PageOwnerId, Error>(PageOwnerId { id }) && final(tracker).guests()
                        == live.push(PageOwnerId { id })
                }
            },
    {
        if from_addr.bits() % TOP_LEVEL_ALIGN != 0 {
            return Err(Error::UnalignedVmPages(from_addr));
        }
        match tracker.add_active_guest() {
            Ok(id) => Ok(id),
            Err(e) => Err(Error::GuestId(e)),
        }
    }

    /// Creates a `GuestRootBuilder` for the guest `id` from the six pages
    /// that were invalidated for it: the guest becomes their owner, the
    /// first four hold the root table, the fifth holds the list of pages
    /// for page tables, which has room for `limit` of them, and the sixth
    /// is returned for the state of the guest. The four pages of the root
    /// table must follow each other, and the guest must be able to become
    /// the owner of all six.
    pub fn create_guest_root_builder(
        &self,
        tracker: &mut PageTracker,
        id: PageOwnerId,
        pages: &Vec<Page>,
        limit: usize,
    ) -> (r: (SequentialPages, GuestRootBuilder, Page))
        requires
            old(tracker).wf(),
            pages@.len() == GUEST_ROOT_PAGES,
            forall|k: int|
                0 <= k < ROOT_TABLE_PAGES ==> (#[trigger] pages@[k]).addr.spec_bits()
                    == pages@[0].addr.spec_bits() + k * 4096,
            pages@[0].addr.spec_bits() + ROOT_TABLE_PAGES * 4096 <= u64::MAX,
            limit > 0,
            Ledger::of(old(tracker)).donate(pages@.map_values(|p: Page| p.addr), id, 0).1 is None,
        ensures
            final(tracker).wf(),
            Ledger::of(final(tracker)) == Ledger::of(old(tracker)).donate(
                pages@.map_values(|p: Page| p.addr),
                id,
                0,
            ).0,
            r.0.spec_base() == pages@[0].addr,
            r.0.spec_len() == ROOT_TABLE_PAGES,
            r.1.spec_owner() == id,
            r.1.spec_limit() == limit,
            r.1.pte_pages() == seq![pages@[4]],
            r.2 == pages@[5],
    {
        let ghost addrs = pages@.map_values(|p: Page| p.addr);
        let ghost start = Ledger::of(tracker);
        let mut k: usize = 0;
        while k < GUEST_ROOT_PAGES
            invariant
                k <= GUEST_ROOT_PAGES,
                pages@.len() == GUEST_ROOT_PAGES,
                addrs == pages@.map_values(|p: Page| p.addr),
                tracker.wf(),
                start.donate(addrs, id, 0).1 is None,
                Ledger::of(tracker).donate(addrs, id, k as int) == start.donate(addrs, id, 0),
            decreases GUEST_ROOT_PAGES - k,
        {
            let page: Page = pages[k];
            assert(addrs[k as int] == page.addr);
            let r = set_owner(tracker, page.addr(), id);
            assert(r is Ok);
            k = k + 1;
        }
        let root = SequentialPages::new(pages[0].addr(), 4).unwrap();
        let mut builder = GuestRootBuilder::new(id, limit);
        let stored = builder.add_pte_page(pages[4]);
        assert(stored is Ok);
        (root, builder, pages[5])
    }

    /// Gives `pages`, which were invalidated in the page table of this
    /// machine, to the guest that `to` builds, as pages for its page
    /// tables. Stops at the first page whose owner cannot be set or for
    /// which the store of `to` is full.
    pub fn add_pte_pages_builder(
        &self,
        tracker: &mut PageTracker,
        pages: &Vec<Page>,
        to: &mut GuestRootBuilder,
    ) -> (r: Result<(), Error>)
        requires
            old(tracker).wf(),
        ensures
            final(tracker).wf(),
            final(to).spec_owner() == old(to).spec_owner(),
            final(to).spec_limit() == old(to).spec_limit(),
            (Ledger::of(final(tracker)), final(to).pte_pages(), r) == add_pte_pages(
                Ledger::of(old(tracker)),
                old(to).pte_pages(),
                old(to).spec_limit() as int,
                pages@,
                old(to).spec_owner(),
                0,
            ),
    {
        let ghost start = Ledger::of(tracker);
        let ghost stored = to.pte_pages();
        let ghost limit = to.spec_limit() as int;
        let ghost owner = to.spec_owner();
        let n: usize = pages.len();
        let mut k: usize = 0;
        while k < n
            invariant
                k <= n,
                n == pages@.len(),
                tracker.wf(),
                to.spec_owner() == owner,
                to.spec_limit() == limit,
                owner == old(to).spec_owner(),
                limit == old(to).spec_limit(),
                stored == old(to).pte_pages(),
                start == Ledger::of(old(tracker)),
                add_pte_pages(Ledger::of(tracker), to.pte_pages(), limit, pages@, owner, k as int)
                    == add_pte_pages(start, stored, limit, pages@, owner, 0),
            decreases n - k,
        {
            let page: Page = pages[k];
            let ghost before = Ledger::of(tracker);
            let ghost held = to.pte_pages();
            match set_owner(tracker, page.addr(), to.page_owner_id()) {
                Ok(_) => {},
                Err(e) => {
                    return Err(Error::SettingOwner(e));
                },
            }
            match to.add_pte_page(page) {
                Ok(_) => {},
                Err(e) => {
                    return Err(e);
                },
            }
            proof {
                assert(add_pte_pages(before, held, limit, pages@, owner, k as int)
                    == add_pte_pages(
                    Ledger::of(tracker),
                    to.pte_pages(),
                    limit,
                    pages@,
                    owner,
                    k + 1,
                ));
            }
            k = k + 1;
        }
        Ok(())
    }

    /// Gives the page at `page`, one of the pages that were invalidated in
    /// the page table of this machine, to the guest `to` as a data page.
    /// The caller maps it in the page table of the guest when this has
    /// succeeded, and goes on with the next page.
    pub fn add_4k_pages_builder(
        &self,
        tracker: &mut PageTracker,
        page: PageAddr,
        to: &GuestRootBuilder,
    ) -> (r: Result<(), Error>)
        requires
            old(tracker).wf(),
        ensures
            final(tracker).wf(),
            Ledger::of(final(tracker)) == Ledger::of(old(tracker)).set_owner(
                page,
                to.spec_owner(),
            ).0,
            r == (match Ledger::of(old(tracker)).set_owner(page, to.spec_owner()).1 {
                Ok(_) => Ok::<(), Error>(()),
                Err(e) => Err(Error::SettingOwner(e)),
            }),
    {
        match set_owner(tracker, page, to.page_owner_id()) {
            Ok(_) => Ok(()),
            Err(e) => Err(Error::SettingOwner(e)),
        }
    }

    /// Takes back `pages`, which were unmapped from the `count` pages at
    /// `from_addr` of this machine: each goes back to the owner before this
    /// machine. Stops at the first page that this machine did not own;
    /// the error names the guest address of that page.
    pub fn remove_4k_pages(
        &self,
        tracker: &mut PageTracker,
        from_addr: PageAddr,
        count: u64,
        pages: &Vec<PageAddr>,
    ) -> (r: Result<u64, Error>)
        requires
            old(tracker).wf(),
            Ledger::of(old(tracker)).has_all(pages@),
            guest_addr(from_addr, pages@.len() as int) <= u64::MAX,
        ensures
            final(tracker).wf(),
            Ledger::of(final(tracker)) == Ledger::of(old(tracker)).reclaim(
                pages@,
                self.spec_owner(),
                0,
            ).0,
            match Ledger::of(old(tracker)).reclaim(pages@, self.spec_owner(), 0).1 {
                None => r == Ok::<u64, Error>(count),
                Some(k) => r matches Err(Error::UnownedPage(a)) && a.spec_bits() == guest_addr(
                    from_addr,
                    k,
                ),
            },
    {
        let ghost start = Ledger::of(tracker);
        let owner_id = self.owner;
        let n: usize = pages.len();
        let mut k: usize = 0;
        while k < n
            invariant
                k <= n,
                n == pages@.len(),
                owner_id == self.spec_owner(),
                start == Ledger::of(old(tracker)),
                tracker.wf(),
                Ledger::of(tracker).has_all(pages@),
                guest_addr(from_addr, pages@.len() as int) <= u64::MAX,
                Ledger::of(tracker).reclaim(pages@, owner_id, k as int) == start.reclaim(
                    pages@,
                    owner_id,
                    0,
                ),
            decreases n - k,
        {
            let page: PageAddr = pages[k];
            let ghost before = Ledger::of(tracker);
            let popped = pop_owner(tracker, page);
            proof {
                let after = Ledger::of(tracker);
                assert forall|j: int| 0 <= j < pages@.len() implies after.index_of(
                    #[trigger] pages@[j],
                ) is Some by {
                    assert(before.index_of(pages@[j]) is Some);
                }
            }
            let owned: bool = match popped {
                Ok(owner) => owner == owner_id,
                Err(_) => false,
            };
            proof {
                let i = before.index_of(page).unwrap();
                assert(before.reclaim(pages@, owner_id, k as int) == if before.pop_owner(i).1
                    == Ok::<PageOwnerId, PageTrackingError>(owner_id) {
                    before.pop_owner(i).0.reclaim(pages@, owner_id, k + 1)
                } else {
                    (before.pop_owner(i).0, Some(k as int))
                });
            }
            if !owned {
                assert(guest_addr(from_addr, k as int) <= guest_addr(
                    from_addr,
                    pages@.len() as int,
                ));
                let guest = from_addr.checked_add_pages(k as u64).unwrap();
                return Err(Error::UnownedPage(guest));
            }
            k = k + 1;
        }
        Ok(count)
    }

    /// Ends the life of this machine: it is no longer a live guest. Its
    /// pages go back to their earlier owners as they are used again.
    pub fn release(self, tracker: &mut PageTracker)
        requires
            old(tracker).wf(),
        ensures
            final(tracker).wf(),
            final(tracker).page_map() == old(tracker).page_map(),
            final(tracker).spec_next_owner_id() == old(tracker).spec_next_owner_id(),
            forall|id: PageOwnerId|
                final(tracker).guests().contains(id) <==> old(tracker).guests().contains(id) && (id
                    != self.spec_owner() || id.id == HOST_ID),
    {
        tracker.rm_active_guest(self.owner);
    }
}

/// Keeps the state of the host's pages.
pub struct HostRootPages {
    inner: VmPages,
}

impl HostRootPages {
    /// The pages of the host.
    pub closed spec fn spec_inner(&self) -> VmPages {
        self.inner
    }

    /// The pages of the host.
    pub fn into_inner(self) -> (r: VmPages)
        ensures
            r == self.spec_inner(),
    {
        self.inner
    }
}

/// True if a page at `page` can stand at the guest address `vm_addr`: for
/// RAM the two addresses must lie at the same place within 16 KiB.
pub open spec fn spec_placed(vm_addr: u64, page: u64, mem_type: MemType) -> bool {
    mem_type == MemType::Ram ==> vm_addr % TOP_LEVEL_ALIGN == page % TOP_LEVEL_ALIGN
}

/// True if each of `pages` can stand at its guest address, the first at
/// `to_addr` and each of the others a page after the one before.
pub open spec fn all_placed(to_addr: PageAddr, pages: Seq<Page>, mem_type: MemType) -> bool {
    &&& guest_addr(to_addr, pages.len() as int) <= u64::MAX
    &&& forall|k: int|
        0 <= k < pages.len() ==> spec_placed(
            guest_addr(to_addr, k) as u64,
            (#[trigger] pages[k]).addr.spec_bits(),
            mem_type,
        )
}

/// Builder used to construct the page management structure for the host.
///
/// The mappings from guest addresses to pages that are made for the host
/// always keep the place of an address within 16 KiB.
pub struct HostRootBuilder {
    root_pages: SequentialPages,
    pte_pages: PtePagePool,
}

impl HostRootBuilder {
    /// The pages of the root table of the host.
    pub closed spec fn spec_root_pages(&self) -> SequentialPages {
        self.root_pages
    }

    /// The pages that are left for the page tables of the host, in the
    /// order in which they are handed out.
    pub closed spec fn pte_pages(&self) -> Seq<Page> {
        self.pte_pages@
    }

    /// The allocator after the pages for the root table of the host and
    /// `num_pte_pages` pages for its page tables have been taken.
    pub open spec fn after_tables(m: AllocModel, num_pte_pages: int) -> AllocModel {
        m.after_take(ROOT_TABLE_PAGES as int, TOP_LEVEL_ALIGN).after_take(
            num_pte_pages,
            PAGE_SIZE_4K,
        )
    }

    /// True if the host can be set up from an allocator in the state `m`:
    /// the pages for its tables can be taken, and then what the page
    /// tracker needs.
    pub open spec fn can_start(m: AllocModel, num_pte_pages: int) -> bool {
        let m1 = m.after_take(ROOT_TABLE_PAGES as int, TOP_LEVEL_ALIGN);
        let m2 = Self::after_tables(m, num_pte_pages);
        &&& m.can_take(ROOT_TABLE_PAGES as int, TOP_LEVEL_ALIGN)
        &&& m1.can_take(num_pte_pages, PAGE_SIZE_4K)
        &&& can_boot(m2.fm, m2.base, m2.next, TOP_LEVEL_ALIGN)
    }

    /// To be used to create the initial `HostRootPages` for the host VM:
    /// takes four pages, aligned to 16 KiB, for the root table of the host
    /// and `num_pte_pages` pages for its page tables, and then turns the
    /// allocator into the page tracker. Returns the pages of the host, the
    /// builder and the page tracker.
    pub fn from_hyp_mem(hyp_mem: HypPageAlloc, num_pte_pages: usize) -> (r: (
        Vec<SequentialPages>,
        HostRootBuilder,
        PageTracker,
    ))
        requires
            hyp_mem.wf(),
            Self::can_start(hyp_mem.model(), num_pte_pages as int),
        ensures
            r.2.wf(),
            r.2.guests() == seq![PageOwnerId { id: HOST_ID }],
            r.2.spec_next_owner_id() == FIRST_GUEST_ID,
            r.1.spec_root_pages().spec_len() == ROOT_TABLE_PAGES,
            r.1.spec_root_pages().spec_base().spec_bits() == hyp_mem.model().addr_of(
                hyp_mem.model().take_index(ROOT_TABLE_PAGES as int, TOP_LEVEL_ALIGN),
            ),
            aligned_to(r.1.spec_root_pages().spec_base().spec_bits(), TOP_LEVEL_ALIGN),
            r.1.pte_pages().len() == num_pte_pages,
            forall|k: int|
                0 <= k < num_pte_pages ==> (#[trigger] r.1.pte_pages()[k]).addr.spec_bits() == {
                    let m1 = hyp_mem.model().after_take(ROOT_TABLE_PAGES as int, TOP_LEVEL_ALIGN);
                    m1.addr_of(m1.take_index(num_pte_pages as int, PAGE_SIZE_4K)) + k * 4096
                },
            ({
                let m2 = Self::after_tables(hyp_mem.model(), num_pte_pages as int);
                let runs = free_runs(
                    boot_map(m2.fm, m2.base, m2.next, TOP_LEVEL_ALIGN),
                    boot_next(m2.fm, m2.base, m2.next, TOP_LEVEL_ALIGN),
                );
                &&& r.0@.len() == runs.len()
                &&& forall|j: int|
                    0 <= j < r.0@.len() ==> (#[trigger] r.0@[j]).spec_base().spec_bits()
                        == m2.addr_of(runs[j].0) && r.0@[j].spec_len() == runs[j].1 - runs[j].0
            }),
    {
        let mut hyp_mem = hyp_mem;
        let root_pages = hyp_mem.take_pages_with_alignment(ROOT_TABLE_PAGES, TOP_LEVEL_ALIGN);
        let table_pages = hyp_mem.take_pages(num_pte_pages);
        let pte_pages = PtePagePool::from_sequential(table_pages);
        let (tracker, host_pages) = PageTracker::from(hyp_mem, TOP_LEVEL_ALIGN);
        (host_pages, HostRootBuilder { root_pages, pte_pages }, tracker)
    }

    /// The pages of the root table of the host.
    pub fn root_pages(&self) -> (r: SequentialPages)
        ensures
            r == self.spec_root_pages(),
    {
        self.root_pages
    }

    /// Takes the next page for the page tables of the host, for the page
    /// table to use.
    pub fn next_pte_page(&mut self) -> (r: Option<Page>)
        ensures
            final(self).spec_root_pages() == old(self).spec_root_pages(),
            old(self).pte_pages().len() == 0 ==> r is None
                && final(self).pte_pages() == old(self).pte_pages(),
            old(self).pte_pages().len() > 0 ==> r == Some(old(self).pte_pages()[0])
                && final(self).pte_pages() == old(self).pte_pages().skip(1),
    {
        self.pte_pages.next()
    }

    /// True if a page at `page` can stand at the guest address `vm_addr`.
    pub fn placed(vm_addr: PageAddr, page: PageAddr, mem_type: MemType) -> (r: bool)
        ensures
            r == spec_placed(vm_addr.spec_bits(), page.spec_bits(), mem_type),
    {
        match mem_type {
            MemType::Ram => vm_addr.bits() % TOP_LEVEL_ALIGN == page.bits() % TOP_LEVEL_ALIGN,
            _ => true,
        }
    }

    /// Makes the host the owner of `pages`, which are measured and then
    /// mapped for the host from the guest address `to_addr` on. Each page
    /// must keep its place within 16 KiB, and the host must be able to
    /// become its owner.
    pub fn add_measured_pages(&self, tracker: &mut PageTracker, to_addr: PageAddr, pages: &Vec<Page>)
        requires
            old(tracker).wf(),
            all_placed(to_addr, pages@, MemType::Ram),
            Ledger::of(old(tracker)).donate(
                pages@.map_values(|p: Page| p.addr),
                PageOwnerId { id: HOST_ID },
                0,
            ).1 is None,
        ensures
            final(tracker).wf(),
            Ledger::of(final(tracker)) == Ledger::of(old(tracker)).donate(
                pages@.map_values(|p: Page| p.addr),
                PageOwnerId { id: HOST_ID },
                0,
            ).0,
    {
        self.add_pages(tracker, to_addr, pages, MemType::Ram)
    }

    /// Makes the host the owner of `pages` of the kind `mem_type`, which
    /// need not be measured and are then mapped for the host from the guest
    /// address `to_addr` on. Each page of RAM must keep its place within
    /// 16 KiB, and the host must be able to become the owner of each page.
    pub fn add_pages(
        &self,
        tracker: &mut PageTracker,
        to_addr: PageAddr,
        pages: &Vec<Page>,
        mem_type: MemType,
    )
        requires
            old(tracker).wf(),
            all_placed(to_addr, pages@, mem_type),
            Ledger::of(old(tracker)).donate(
                pages@.map_values(|p: Page| p.addr),
                PageOwnerId { id: HOST_ID },
                0,
            ).1 is None,
        ensures
            final(tracker).wf(),
            Ledger::of(final(tracker)) == Ledger::of(old(tracker)).donate(
                pages@.map_values(|p: Page| p.addr),
                PageOwnerId { id: HOST_ID },
                0,
            ).0,
    {
        let ghost addrs = pages@.map_values(|p: Page| p.addr);
        let ghost start = Ledger::of(tracker);
        let host = PageOwnerId::host();
        let n: usize = pages.len();
        let mut k: usize = 0;
        while k < n
            invariant
                k <= n,
                n == pages@.len(),
                host == (PageOwnerId { id: HOST_ID }),
                addrs == pages@.map_values(|p: Page| p.addr),
                start == Ledger::of(old(tracker)),
                tracker.wf(),
                start.donate(addrs, host, 0).1 is None,
                Ledger::of(tracker).donate(addrs, host, k as int) == start.donate(addrs, host, 0),
            decreases n - k,
        {
            let page: Page = pages[k];
            assert(addrs[k as int] == page.addr);
            let r = set_owner(tracker, page.addr(), host);
            assert(r is Ok);
            k = k + 1;
        }
    }

    /// Returns the host root pages as configured with data and zero pages,
    /// with the measurement of the pages that were measured.
    pub fn create_host(self, measurement: [u8; 32]) -> (r: HostRootPages)
        ensures
            r.spec_inner().spec_owner() == (PageOwnerId { id: HOST_ID }),
            r.spec_inner().spec_measurement() == measurement@,
    {
        HostRootPages { inner: VmPages { owner: PageOwnerId::host(), measurement } }
    }
}

} // verus!
