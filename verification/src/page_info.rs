//! The per-page ownership records and the array that holds them.
//!
//! Every 4 KiB frame of the memory map has one `PageInfo`: the kind of memory
//! behind it, the stack of its owners (the top is the current owner) and its
//! life-cycle state. A `PageMap` holds the records of all frames between the
//! first and the last region of the memory map.

use crate::mem_map::{HwMemMap, HwMemRegion, HwMemRegionType};
use crate::page_tracking::Error;
use crate::pages::{MemType, PageAddr, PageOwnerId, HYPERVISOR_ID};
use vstd::prelude::*;

verus! {

/// The depth of the owner stack of a page.
pub const MAX_PAGE_OWNERS: usize = 4;

/// Where a page stands in its life cycle.
#[derive(Clone, Copy, Debug, PartialEq, Eq, Structural)]
pub enum PageState {
    /// Nobody owns the page.
    Free,
    /// The page has an owner and is not mapped.
    Clean,
    /// The page was mapped and has been unmapped since.
    Dirty,
    /// The page is mapped in a page table.
    Mapped,
}

/// True if `id` names a live owner: the hypervisor, which is always live, or
/// one of `guests`.
pub open spec fn is_active(guests: Seq<PageOwnerId>, id: PageOwnerId) -> bool {
    id.id == HYPERVISOR_ID || guests.contains(id)
}

/// The current owner of a page with owner stack `owners`: the topmost owner
/// that is live. Owners that have exited are passed over.
pub open spec fn current_owner(owners: Seq<PageOwnerId>, guests: Seq<PageOwnerId>) -> Option<
    PageOwnerId,
>
    decreases owners.len(),
{
    if owners.len() == 0 {
        None
    } else if is_active(guests, owners.last()) {
        Some(owners.last())
    } else {
        current_owner(owners.drop_last(), guests)
    }
}

/// The owner stack `owners` without the exited owners at its top.
pub open spec fn pruned(owners: Seq<PageOwnerId>, guests: Seq<PageOwnerId>) -> Seq<PageOwnerId>
    decreases owners.len(),
{
    if owners.len() == 0 {
        owners
    } else if is_active(guests, owners.last()) {
        owners
    } else {
        pruned(owners.drop_last(), guests)
    }
}

/// The kind of memory that a region of the given type consists of.
pub open spec fn mem_type_of(region_type: HwMemRegionType) -> MemType {
    match region_type {
        HwMemRegionType::Available => MemType::Ram,
        HwMemRegionType::Reserved(_) => MemType::Reserved,
        HwMemRegionType::Mmio => MemType::Mmio,
    }
}

/// Tells whether `id` is live.
pub fn check_active(guests: &Vec<PageOwnerId>, id: PageOwnerId) -> (r: bool)
    ensures
        r == is_active(guests@, id),
{
    if id.id == HYPERVISOR_ID {
        return true;
    }
    let mut i: usize = 0;
    while i < guests.len()
        invariant
            i <= guests.len(),
            forall|j: int| 0 <= j < i ==> guests@[j] != id,
        decreases guests.len() - i,
    {
        if guests[i].id == id.id {
            assert(guests@[i as int] == id);
            return true;
        }
        i = i + 1;
    }
    false
}

/// The record of one page.
pub struct PageInfo {
    /// The kind of memory behind the page.
    pub mem_type: MemType,
    /// The owners of the page; the last one is the current owner.
    pub owners: Vec<PageOwnerId>,
    /// The life-cycle state of the page.
    pub state: PageState,
}

impl PageInfo {
    /// The record is consistent: the stack is within its depth, and the page
    /// is in state `Free` exactly when nobody owns it. A reserved page has no
    /// owner.
    pub open spec fn wf(&self) -> bool {
        &&& self.owners@.len() <= MAX_PAGE_OWNERS
        &&& (self.state == PageState::Free) == (self.owners@.len() == 0)
        &&& self.mem_type == MemType::Reserved ==> self.owners@.len() == 0
    }

    /// A page is free if it is RAM that nobody owns.
    pub open spec fn spec_is_free(&self) -> bool {
        self.mem_type == MemType::Ram && self.owners@.len() == 0
    }

    /// The record `new` is `self` after the hypervisor claimed the page.
    pub open spec fn claimed_as(&self, new: PageInfo) -> bool {
        &&& new.mem_type == self.mem_type
        &&& new.owners@ == seq![PageOwnerId { id: HYPERVISOR_ID }]
        &&& new.state == PageState::Clean
    }

    /// The record of a page of the given kind that nobody owns.
    pub fn new(mem_type: MemType) -> (r: PageInfo)
        ensures
            r.wf(),
            r.mem_type == mem_type,
            r.owners@.len() == 0,
            r.state == PageState::Free,
    {
        PageInfo { mem_type, owners: Vec::new(), state: PageState::Free }
    }

    /// The kind of memory behind the page.
    pub fn mem_type(&self) -> (r: MemType)
        ensures
            r == self.mem_type,
    {
        self.mem_type
    }

    /// The life-cycle state of the page.
    pub fn state(&self) -> (r: PageState)
        ensures
            r == self.state,
    {
        self.state
    }

    /// True if the page is RAM that nobody owns.
    #[verifier::when_used_as_spec(spec_is_free)]
    pub fn is_free(&self) -> (r: bool)
        ensures
            r == self.spec_is_free(),
    {
        self.mem_type == MemType::Ram && self.owners.len() == 0
    }

    /// True if the ownership of the page can never change.
    pub fn is_reserved(&self) -> (r: bool)
        ensures
            r == (self.mem_type == MemType::Reserved),
    {
        self.mem_type == MemType::Reserved
    }

    /// Makes `owner` the current owner of the page. A page that was free
    /// becomes clean.
    pub fn push_owner(&mut self, owner: PageOwnerId) -> (r: Result<(), Error>)
        requires
            old(self).wf(),
        ensures
            final(self).wf(),
            final(self).mem_type == old(self).mem_type,
            r == push_owner_result(*old(self)),
            r is Ok ==> final(self).owners@ == old(self).owners@.push(owner),
            r is Ok ==> final(self).state == (if old(self).state == PageState::Free {
                PageState::Clean
            } else {
                old(self).state
            }),
            r is Err ==> *final(self) == *old(self),
    {
        if self.mem_type == MemType::Reserved {
            return Err(Error::ReservedPage);
        }
        if self.owners.len() >= MAX_PAGE_OWNERS {
            return Err(Error::OwnerOverflow);
        }
        self.owners.push(owner);
        if self.state == PageState::Free {
            self.state = PageState::Clean;
        }
        Ok(())
    }

    /// Removes the current owner and hands the page back to the owner
    /// before it. The last owner cannot be removed.
    pub fn pop_owner(&mut self) -> (r: Result<PageOwnerId, Error>)
        requires
            old(self).wf(),
        ensures
            final(self).wf(),
            final(self).mem_type == old(self).mem_type,
            final(self).state == old(self).state,
            r == pop_owner_result(*old(self)),
            r is Ok ==> final(self).owners@ == old(self).owners@.drop_last(),
            r is Err ==> *final(self) == *old(self),
    {
        if self.mem_type == MemType::Reserved {
            return Err(Error::ReservedPage);
        }
        let n: usize = self.owners.len();
        if n == 0 {
            return Err(Error::UnownedPage);
        }
        if n == 1 {
            return Err(Error::OwnerUnderflow);
        }
        match self.owners.pop() {
            Some(id) => Ok(id),
            None => Err(Error::UnownedPage),
        }
    }

    /// The current owner of the page: the topmost owner that is live.
    pub fn find_owner(&self, guests: &Vec<PageOwnerId>) -> (r: Option<PageOwnerId>)
        ensures
            r == current_owner(self.owners@, guests@),
    {
        let mut i: usize = self.owners.len();
        assert(self.owners@.take(i as int) == self.owners@);
        while i > 0
            invariant
                i <= self.owners@.len(),
                current_owner(self.owners@, guests@) == current_owner(
                    self.owners@.take(i as int),
                    guests@,
                ),
            decreases i,
        {
            let id = self.owners[i - 1];
            proof {
                let cur = self.owners@.take(i as int);
                assert(cur.last() == id);
                assert(cur.drop_last() == self.owners@.take(i as int - 1));
            }
            if check_active(guests, id) {
                return Some(id);
            }
            i = i - 1;
        }
        proof {
            assert(self.owners@.take(0).len() == 0);
        }
        None
    }

    /// Removes the owners at the top of the stack that have exited. A page
    /// that loses all its owners is free again.
    pub fn pop_exited_owners(&mut self, guests: &Vec<PageOwnerId>)
        requires
            old(self).wf(),
        ensures
            final(self).wf(),
            final(self).mem_type == old(self).mem_type,
            final(self).owners@ == pruned(old(self).owners@, guests@),
            final(self).state == (if pruned(old(self).owners@, guests@).len() == 0 {
                PageState::Free
            } else {
                old(self).state
            }),
    {
        while self.owners.len() > 0
            invariant
                self.wf(),
                self.mem_type == old(self).mem_type,
                self.owners@.len() > 0 ==> self.state == old(self).state,
                self.owners@.len() == 0 ==> self.state == PageState::Free,
                pruned(self.owners@, guests@) == pruned(old(self).owners@, guests@),
                self.owners@.len() <= old(self).owners@.len(),
            decreases self.owners@.len(),
        {
            let top = self.owners[self.owners.len() - 1];
            assert(top == self.owners@.last());
            if check_active(guests, top) {
                return ;
            }
            let ghost before = self.owners@;
            self.owners.pop();
            assert(self.owners@ == before.drop_last());
            if self.owners.len() == 0 {
                self.state = PageState::Free;
            }
        }
    }

    /// Records that the page has been inserted into a page table. Only a
    /// clean page can be mapped; the return value says whether it was.
    pub fn mark_mapped(&mut self) -> (r: bool)
        requires
            old(self).wf(),
        ensures
            final(self).wf(),
            r == (old(self).state == PageState::Clean),
            final(self).mem_type == old(self).mem_type,
            final(self).owners@ == old(self).owners@,
            final(self).state == (if r {
                PageState::Mapped
            } else {
                old(self).state
            }),
    {
        if self.state == PageState::Clean {
            self.state = PageState::Mapped;
            true
        } else {
            false
        }
    }

    /// Records that the page has been removed from a page table. Only a
    /// mapped page can be unmapped; the return value says whether it was.
    pub fn mark_unmapped(&mut self) -> (r: bool)
        requires
            old(self).wf(),
        ensures
            final(self).wf(),
            r == (old(self).state == PageState::Mapped),
            final(self).mem_type == old(self).mem_type,
            final(self).owners@ == old(self).owners@,
            final(self).state == (if r {
                PageState::Dirty
            } else {
                old(self).state
            }),
    {
        if self.state == PageState::Mapped {
            self.state = PageState::Dirty;
            true
        } else {
            false
        }
    }
}

/// What `push_owner` answers on the record `info`.
pub open spec fn push_owner_result(info: PageInfo) -> Result<(), Error> {
    if info.mem_type == MemType::Reserved {
        Err(Error::ReservedPage)
    } else if info.owners@.len() >= MAX_PAGE_OWNERS {
        Err(Error::OwnerOverflow)
    } else {
        Ok(())
    }
}

/// What `pop_owner` answers on the record `info`.
pub open spec fn pop_owner_result(info: PageInfo) -> Result<PageOwnerId, Error> {
    if info.mem_type == MemType::Reserved {
        Err(Error::ReservedPage)
    } else if info.owners@.len() == 0 {
        Err(Error::UnownedPage)
    } else if info.owners@.len() == 1 {
        Err(Error::OwnerUnderflow)
    } else {
        Ok(info.owners@.last())
    }
}

/// True if the region `r` holds the address `addr`.
pub open spec fn region_holds(r: HwMemRegion, addr: int) -> bool {
    r.base.spec_bits() <= addr < r.spec_end()
}

/// The kind of memory at the address `addr` of a memory map with the given
/// regions. Addresses between two regions are reserved.
pub open spec fn mem_type_at(regions: Seq<HwMemRegion>, addr: int) -> MemType {
    if exists|i: int| 0 <= i < regions.len() && region_holds(#[trigger] regions[i], addr) {
        let i = choose|i: int| 0 <= i < regions.len() && region_holds(#[trigger] regions[i], addr);
        mem_type_of(regions[i].region_type)
    } else {
        MemType::Reserved
    }
}

/// An address inside the region at position `k` has the kind of that region.
pub proof fn lemma_mem_type_in_region(regions: Seq<HwMemRegion>, k: int, addr: int)
    requires
        crate::mem_map::regions_wf(regions),
        0 <= k < regions.len(),
        region_holds(regions[k], addr),
    ensures
        mem_type_at(regions, addr) == mem_type_of(regions[k].region_type),
{
    let i = choose|i: int| 0 <= i < regions.len() && region_holds(#[trigger] regions[i], addr);
    if i < k {
        assert(regions[i].spec_end() <= regions[k].base.spec_bits());
    } else if k < i {
        assert(regions[k].spec_end() <= regions[i].base.spec_bits());
    }
}

/// An address after the region at position `k - 1` and before the region at
/// position `k` is reserved.
pub proof fn lemma_mem_type_in_gap(regions: Seq<HwMemRegion>, k: int, addr: int)
    requires
        crate::mem_map::regions_wf(regions),
        0 <= k < regions.len(),
        addr < regions[k].base.spec_bits(),
        k > 0 ==> regions[k - 1].spec_end() <= addr,
    ensures
        mem_type_at(regions, addr) == MemType::Reserved,
{
    assert forall|i: int| 0 <= i < regions.len() implies !region_holds(
        #[trigger] regions[i],
        addr,
    ) by {
        if i < k {
            if i < k - 1 {
                assert(regions[i].spec_end() <= regions[k - 1].base.spec_bits());
                assert(regions[k - 1].wf());
            }
        } else if i > k {
            assert(regions[k].spec_end() <= regions[i].base.spec_bits());
            assert(regions[k].wf());
        }
    }
}

/// Appends `count` records of unowned pages of the kind `mem_type`.
fn push_unowned(pages: &mut Vec<PageInfo>, mem_type: MemType, count: u64)
    requires
        old(pages)@.len() + count <= usize::MAX,
    ensures
        final(pages)@.len() == old(pages)@.len() + count,
        forall|i: int| 0 <= i < old(pages)@.len() ==> final(pages)@[i] == old(pages)@[i],
        forall|i: int|
            old(pages)@.len() <= i < final(pages)@.len() ==> {
                &&& (#[trigger] final(pages)@[i]).mem_type == mem_type
                &&& final(pages)@[i].owners@.len() == 0
                &&& final(pages)@[i].state == PageState::Free
            },
{
    let mut n: u64 = 0;
    while n < count
        invariant
            n <= count,
            old(pages)@.len() + count <= usize::MAX,
            pages@.len() == old(pages)@.len() + n,
            forall|i: int| 0 <= i < old(pages)@.len() ==> pages@[i] == old(pages)@[i],
            forall|i: int|
                old(pages)@.len() <= i < pages@.len() ==> {
                    &&& (#[trigger] pages@[i]).mem_type == mem_type
                    &&& pages@[i].owners@.len() == 0
                    &&& pages@[i].state == PageState::Free
                },
        decreases count - n,
    {
        pages.push(PageInfo::new(mem_type));
        n = n + 1;
    }
}

/// The records of all pages from the first to the last region of a memory map.
pub struct PageMap {
    base: PageAddr,
    pages: Vec<PageInfo>,
}

impl PageMap {
    /// The records, by page index counted from the first page of the map.
    pub closed spec fn view(&self) -> Seq<PageInfo> {
        self.pages@
    }

    /// The address of the first page of the map.
    pub closed spec fn spec_base(&self) -> PageAddr {
        self.base
    }

    /// The map is consistent: every record is, and the last page lies inside
    /// the address space.
    pub open spec fn wf(&self) -> bool {
        &&& self.spec_base().spec_bits() as int % 4096 == 0
        &&& self.spec_base().spec_bits() + self@.len() * 4096 <= u64::MAX
        &&& forall|i: int| 0 <= i < self@.len() ==> (#[trigger] self@[i]).wf()
    }

    /// The position in the map of the page at `addr`, if the map has it.
    pub open spec fn index_of(&self, addr: PageAddr) -> Option<int> {
        let i = (addr.spec_bits() - self.spec_base().spec_bits()) / 4096;
        if addr.spec_bits() >= self.spec_base().spec_bits() && i < self@.len() {
            Some(i)
        } else {
            None
        }
    }

    /// The address of the page at position `i`.
    pub open spec fn addr_of(&self, i: int) -> int {
        self.spec_base().spec_bits() + i * 4096
    }

    /// For each page, whether it is free.
    pub open spec fn free_map(&self) -> Seq<bool> {
        Seq::new(self@.len(), |i: int| self@[i].spec_is_free())
    }

    /// The map of the pages of `mem_map`: one record for every page from the
    /// start of its first region to the end of its last one. Every page is
    /// unowned; available regions are RAM, reserved regions and the gaps
    /// between regions are reserved.
    pub fn build_from(mem_map: &HwMemMap) -> (r: PageMap)
        requires
            mem_map.wf(),
            mem_map@.len() > 0,
            (mem_map@.last().spec_end() - mem_map@[0].base.spec_bits()) / 4096 <= usize::MAX,
        ensures
            r.wf(),
            r.spec_base() == mem_map@[0].base,
            r@.len() * 4096 == mem_map@.last().spec_end() - mem_map@[0].base.spec_bits(),
            forall|i: int|
                0 <= i < r@.len() ==> {
                    &&& (#[trigger] r@[i]).mem_type == mem_type_at(mem_map@, r.addr_of(i))
                    &&& r@[i].owners@.len() == 0
                    &&& r@[i].state == PageState::Free
                },
    {
        let regions = mem_map.regions();
        let base = regions[0].base;
        let base_bits: u64 = base.bits();
        let mut pages: Vec<PageInfo> = Vec::new();
        let mut next: u64 = base_bits;
        let mut k: usize = 0;
        assert(regions@[0].wf());
        while k < regions.len()
            invariant
                k <= regions@.len(),
                regions@ == mem_map@,
                crate::mem_map::regions_wf(regions@),
                regions@.len() > 0,
                base_bits == regions@[0].base.spec_bits(),
                base_bits as int % 4096 == 0,
                next as int % 4096 == 0,
                base_bits <= next,
                k == 0 ==> next == base_bits,
                k > 0 ==> next == regions@[k - 1].spec_end(),
                next <= regions@.last().spec_end(),
                (regions@.last().spec_end() - base_bits) / 4096 <= usize::MAX,
                pages@.len() * 4096 == next - base_bits,
                forall|i: int|
                    0 <= i < pages@.len() ==> {
                        &&& (#[trigger] pages@[i]).mem_type == mem_type_at(
                            regions@,
                            base_bits + i * 4096,
                        )
                        &&& pages@[i].owners@.len() == 0
                        &&& pages@[i].state == PageState::Free
                    },
            decreases regions@.len() - k,
        {
            let region = regions[k];
            let r_base: u64 = region.base.bits();
            assert(regions@[k as int].wf());
            let r_end: u64 = r_base + region.size;
            let region_mem_type = match region.region_type {
                HwMemRegionType::Available => MemType::Ram,
                HwMemRegionType::Reserved(_) => MemType::Reserved,
                HwMemRegionType::Mmio => MemType::Mmio,
            };
            proof {
                if k > 0 {
                    assert(regions@[k - 1].spec_end() <= regions@[k as int].base.spec_bits());
                }
                if (k as int) < regions@.len() - 1 {
                    assert(regions@[k as int].spec_end() <= regions@[regions@.len()
                        - 1].base.spec_bits());
                    assert(regions@[regions@.len() - 1].wf());
                }
            }
            let gap: u64 = (r_base - next) / 4096;
            let ghost before_gap = pages@;
            push_unowned(&mut pages, MemType::Reserved, gap);
            proof {
                assert forall|i: int| before_gap.len() <= i < pages@.len() implies (
                #[trigger] pages@[i]).mem_type == mem_type_at(regions@, base_bits + i * 4096) by {
                    lemma_mem_type_in_gap(regions@, k as int, base_bits + i * 4096);
                }
            }
            let inside: u64 = region.size / 4096;
            let ghost before_region = pages@;
            push_unowned(&mut pages, region_mem_type, inside);
            proof {
                assert forall|i: int| before_region.len() <= i < pages@.len() implies (
                #[trigger] pages@[i]).mem_type == mem_type_at(regions@, base_bits + i * 4096) by {
                    lemma_mem_type_in_region(regions@, k as int, base_bits + i * 4096);
                }
            }
            next = r_end;
            k = k + 1;
        }
        PageMap { base, pages }
    }

    /// The address of the first page of the map.
    #[verifier::when_used_as_spec(spec_base)]
    pub fn base(&self) -> (r: PageAddr)
        ensures
            r == self.spec_base(),
    {
        self.base
    }

    /// The number of pages in the map.
    pub fn len(&self) -> (r: usize)
        ensures
            r == self@.len(),
    {
        self.pages.len()
    }

    /// The position in the map of the page at `addr`, if the map has it.
    pub fn find(&self, addr: PageAddr) -> (r: Option<usize>)
        ensures
            r is Some <==> self.index_of(addr) is Some,
            r matches Some(i) ==> self.index_of(addr) == Some(i as int) && i < self@.len(),
    {
        let a: u64 = addr.bits();
        let b: u64 = self.base.bits();
        if a < b {
            return None;
        }
        let i: u64 = (a - b) / 4096;
        if i < self.pages.len() as u64 {
            Some(i as usize)
        } else {
            None
        }
    }

    /// The record of the page at `addr`, if the map has it.
    pub fn get(&self, addr: PageAddr) -> (r: Option<&PageInfo>)
        ensures
            r is Some <==> self.index_of(addr) is Some,
            r matches Some(info) ==> *info == self@[self.index_of(addr).unwrap()],
    {
        match self.find(addr) {
            Some(i) => Some(&self.pages[i]),
            None => None,
        }
    }

    /// The record of the page at position `i`.
    pub fn page(&self, i: usize) -> (r: &PageInfo)
        requires
            i < self@.len(),
        ensures
            *r == self@[i as int],
    {
        &self.pages[i]
    }

    /// The address of the page at position `i`.
    pub fn page_addr(&self, i: usize) -> (r: PageAddr)
        requires
            self.wf(),
            i <= self@.len(),
        ensures
            r.spec_bits() == self.addr_of(i as int),
    {
        match self.base.checked_add_pages(i as u64) {
            Some(a) => a,
            None => {
                proof {
                    assert(false);
                }
                self.base
            },
        }
    }

    /// The number of pages of the map from `addr` on, or `None` if the map
    /// does not have the page at `addr`.
    pub fn num_after(&self, addr: PageAddr) -> (r: Option<usize>)
        ensures
            r is Some <==> self.index_of(addr) is Some,
            r matches Some(n) ==> n == self@.len() - self.index_of(addr).unwrap(),
    {
        match self.find(addr) {
            Some(i) => Some(self.pages.len() - i),
            None => None,
        }
    }

    /// Makes `owner` the current owner of the page at position `i`.
    pub fn push_owner(&mut self, i: usize, owner: PageOwnerId) -> (r: Result<(), Error>)
        requires
            old(self).wf(),
            i < old(self)@.len(),
        ensures
            final(self).wf(),
            final(self).spec_base() == old(self).spec_base(),
            final(self)@.len() == old(self)@.len(),
            r == push_owner_result(old(self)@[i as int]),
            forall|j: int| 0 <= j < old(self)@.len() && j != i ==> final(self)@[j] == old(self)@[j],
            final(self)@[i as int].mem_type == old(self)@[i as int].mem_type,
            r is Ok ==> final(self)@[i as int].owners@ == old(self)@[i as int].owners@.push(owner),
            r is Ok ==> final(self)@[i as int].state == (if old(self)@[i as int].state
                == PageState::Free {
                PageState::Clean
            } else {
                old(self)@[i as int].state
            }),
            r is Err ==> final(self)@[i as int] == old(self)@[i as int],
    {
        assert(self.pages@[i as int].wf());
        let r = self.pages[i].push_owner(owner);
        assert forall|j: int| 0 <= j < self@.len() implies (#[trigger] self@[j]).wf() by {
            if j != i {
                assert(self@[j] == old(self)@[j]);
            }
        }
        r
    }

    /// Removes the current owner of the page at position `i`.
    pub fn pop_owner(&mut self, i: usize) -> (r: Result<PageOwnerId, Error>)
        requires
            old(self).wf(),
            i < old(self)@.len(),
        ensures
            final(self).wf(),
            final(self).spec_base() == old(self).spec_base(),
            final(self)@.len() == old(self)@.len(),
            r == pop_owner_result(old(self)@[i as int]),
            forall|j: int| 0 <= j < old(self)@.len() && j != i ==> final(self)@[j] == old(self)@[j],
            final(self)@[i as int].mem_type == old(self)@[i as int].mem_type,
            final(self)@[i as int].state == old(self)@[i as int].state,
            r is Ok ==> final(self)@[i as int].owners@ == old(self)@[i as int].owners@.drop_last(),
            r is Err ==> final(self)@[i as int] == old(self)@[i as int],
    {
        assert(self.pages@[i as int].wf());
        let r = self.pages[i].pop_owner();
        assert forall|j: int| 0 <= j < self@.len() implies (#[trigger] self@[j]).wf() by {
            if j != i {
                assert(self@[j] == old(self)@[j]);
            }
        }
        r
    }

    /// Removes the exited owners from the top of the owner stack of the page
    /// at position `i`.
    pub fn pop_exited_owners(&mut self, i: usize, guests: &Vec<PageOwnerId>)
        requires
            old(self).wf(),
            i < old(self)@.len(),
        ensures
            final(self).wf(),
            final(self).spec_base() == old(self).spec_base(),
            final(self)@.len() == old(self)@.len(),
            forall|j: int| 0 <= j < old(self)@.len() && j != i ==> final(self)@[j] == old(self)@[j],
            final(self)@[i as int].mem_type == old(self)@[i as int].mem_type,
            final(self)@[i as int].owners@ == pruned(old(self)@[i as int].owners@, guests@),
            final(self)@[i as int].state == (if pruned(old(self)@[i as int].owners@, guests@).len()
                == 0 {
                PageState::Free
            } else {
                old(self)@[i as int].state
            }),
    {
        assert(self.pages@[i as int].wf());
        self.pages[i].pop_exited_owners(guests);
        assert forall|j: int| 0 <= j < self@.len() implies (#[trigger] self@[j]).wf() by {
            if j != i {
                assert(self@[j] == old(self)@[j]);
            }
        }
    }

    /// Records that the page at position `i` has been mapped
    /// (`mapped == true`) or unmapped. The return value says whether the
    /// page was in the state that allows the change.
    pub fn mark(&mut self, i: usize, mapped: bool) -> (r: bool)
        requires
            old(self).wf(),
            i < old(self)@.len(),
        ensures
            final(self).wf(),
            final(self).spec_base() == old(self).spec_base(),
            final(self)@.len() == old(self)@.len(),
            forall|j: int| 0 <= j < old(self)@.len() && j != i ==> final(self)@[j] == old(self)@[j],
            final(self)@[i as int].mem_type == old(self)@[i as int].mem_type,
            final(self)@[i as int].owners@ == old(self)@[i as int].owners@,
            r == (old(self)@[i as int].state == (if mapped {
                PageState::Clean
            } else {
                PageState::Mapped
            })),
            final(self)@[i as int].state == (if !r {
                old(self)@[i as int].state
            } else if mapped {
                PageState::Mapped
            } else {
                PageState::Dirty
            }),
    {
        assert(self.pages@[i as int].wf());
        let r = if mapped {
            self.pages[i].mark_mapped()
        } else {
            self.pages[i].mark_unmapped()
        };
        assert forall|j: int| 0 <= j < self@.len() implies (#[trigger] self@[j]).wf() by {
            if j != i {
                assert(self@[j] == old(self)@[j]);
            }
        }
        r
    }
}

} // verus!
