//! The ledger of page ownership and the allocator that hands out pages while
//! the hypervisor boots.

use crate::mem_map::HwMemMap;
use crate::page_info::{
    check_active, current_owner, is_active, mem_type_at, pop_owner_result, pruned, PageInfo,
    PageMap, PageState, MAX_PAGE_OWNERS,
};
use crate::pages::{
    MemType, Page, PageAddr, PageOwnerId, SequentialPages, HOST_ID, HYPERVISOR_ID, PAGE_SIZE_4K,
};
use vstd::prelude::*;

verus! {

/// Errors related to managing physical page information.
#[derive(Clone, Copy, Debug, PartialEq, Eq, Structural)]
pub enum Error {
    /// Too many guests started by the host at once.
    GuestOverflow,
    /// Too many guests per system (the identifiers are used up).
    IdOverflow,
    /// The given page isn't physically present.
    InvalidPage(PageAddr),
    /// The ownership chain is too long to add another owner.
    OwnerOverflow,
    /// The page would become unowned as a result of popping its current owner.
    OwnerUnderflow,
    /// Attempt to pop the owner of an unowned page.
    UnownedPage,
    /// Attempt to modify the owner of a reserved page.
    ReservedPage,
}

/// True if the address `bits` is aligned to `align` bytes, a power of two:
/// none of the bits below `align` is set.
pub open spec fn aligned_to(bits: u64, align: u64) -> bool {
    bits & ((align - 1) as u64) == 0
}

/// The position of the first free page at or after `from`, or the length of
/// the map if there is none.
pub open spec fn first_free(fm: Seq<bool>, from: int) -> int
    decreases fm.len() - from,
{
    if from >= fm.len() {
        fm.len() as int
    } else if from >= 0 && fm[from] {
        from
    } else {
        first_free(fm, from + 1)
    }
}

/// The position of the first page at or after `from` that is not free, or
/// the length of the map if there is none.
pub open spec fn run_end(fm: Seq<bool>, from: int) -> int
    decreases fm.len() - from,
{
    if from >= fm.len() {
        fm.len() as int
    } else if from >= 0 && !fm[from] {
        from
    } else {
        run_end(fm, from + 1)
    }
}

/// True if `count` free pages start at position `s`, and the page at `s` is
/// aligned to `align` bytes. `base` is the address of the first page of the
/// map.
pub open spec fn fits_at(fm: Seq<bool>, base: u64, s: int, count: int, align: u64) -> bool {
    &&& 0 <= s < fm.len()
    &&& aligned_to((base + s * 4096) as u64, align)
    &&& s + count <= fm.len()
    &&& forall|k: int| s <= k < s + count ==> #[trigger] fm[k]
}

/// The first position at or after `from` at which `count` aligned free pages
/// start, or the length of the map if there is none.
pub open spec fn first_fit(fm: Seq<bool>, base: u64, from: int, count: int, align: u64) -> int
    decreases fm.len() - from,
{
    if from >= fm.len() {
        fm.len() as int
    } else if fits_at(fm, base, from, count, align) {
        from
    } else {
        first_fit(fm, base, from + 1, count, align)
    }
}

/// The free map `fm` after the pages from `from` up to `to` have been claimed.
pub open spec fn claimed_map(fm: Seq<bool>, from: int, to: int) -> Seq<bool> {
    Seq::new(fm.len(), |i: int| fm[i] && !(from <= i < to))
}

/// The runs of free pages at or after `from`, each as the positions of its
/// first page and of the page after its last, in ascending order.
pub open spec fn free_runs(fm: Seq<bool>, from: int) -> Seq<(int, int)>
    decreases fm.len() - from,
{
    let s = first_free(fm, from);
    let e = run_end(fm, s);
    if 0 <= from <= s && s < e <= fm.len() {
        seq![(s, e)] + free_runs(fm, e)
    } else {
        Seq::empty()
    }
}

/// True if an allocator with free map `fm` whose next page is `next` can
/// hand out `count` pages aligned to `align` bytes and still have a free
/// page left.
pub open spec fn can_take(fm: Seq<bool>, base: u64, next: int, count: int, align: u64) -> bool {
    &&& align > 0
    &&& first_fit(fm, base, next, count, align) < fm.len()
    &&& first_free(fm, first_fit(fm, base, next, count, align) + count) < fm.len()
}

/// The free map after `count` pages aligned to `align` bytes have been taken.
pub open spec fn take_map(fm: Seq<bool>, base: u64, next: int, count: int, align: u64) -> Seq<
    bool,
> {
    claimed_map(fm, next, first_fit(fm, base, next, count, align) + count)
}

/// The next page of the allocator after `count` pages aligned to `align`
/// bytes have been taken.
pub open spec fn take_next(fm: Seq<bool>, base: u64, next: int, count: int, align: u64) -> int {
    first_free(fm, first_fit(fm, base, next, count, align) + count)
}

/// The records `new` are the records `old` after the hypervisor claimed the
/// free pages from position `from` up to position `to`: those pages have the
/// hypervisor as their only owner and are clean, all others are unchanged.
pub open spec fn claims(old: Seq<PageInfo>, new: Seq<PageInfo>, from: int, to: int) -> bool {
    &&& new.len() == old.len()
    &&& forall|i: int|
        0 <= i < old.len() ==> if from <= i < to && (#[trigger] old[i]).spec_is_free() {
            old[i].claimed_as(new[i])
        } else {
            new[i] == old[i]
        }
}

pub proof fn lemma_first_free(fm: Seq<bool>, from: int)
    requires
        0 <= from <= fm.len(),
    ensures
        from <= first_free(fm, from) <= fm.len(),
        first_free(fm, from) < fm.len() ==> fm[first_free(fm, from)],
        forall|i: int| from <= i < first_free(fm, from) ==> !#[trigger] fm[i],
    decreases fm.len() - from,
{
    if from < fm.len() && !fm[from] {
        lemma_first_free(fm, from + 1);
    }
}

pub proof fn lemma_run_end(fm: Seq<bool>, from: int)
    requires
        0 <= from <= fm.len(),
    ensures
        from <= run_end(fm, from) <= fm.len(),
        run_end(fm, from) < fm.len() ==> !fm[run_end(fm, from)],
        forall|i: int| from <= i < run_end(fm, from) ==> #[trigger] fm[i],
    decreases fm.len() - from,
{
    if from < fm.len() && fm[from] {
        lemma_run_end(fm, from + 1);
    }
}

pub proof fn lemma_first_fit(fm: Seq<bool>, base: u64, from: int, count: int, align: u64)
    requires
        0 <= from <= fm.len(),
    ensures
        from <= first_fit(fm, base, from, count, align) <= fm.len(),
        first_fit(fm, base, from, count, align) < fm.len() ==> fits_at(
            fm,
            base,
            first_fit(fm, base, from, count, align),
            count,
            align,
        ),
        forall|i: int|
            from <= i < first_fit(fm, base, from, count, align) ==> !fits_at(
                fm,
                base,
                i,
                count,
                align,
            ),
    decreases fm.len() - from,
{
    if from < fm.len() && !fits_at(fm, base, from, count, align) {
        lemma_first_fit(fm, base, from + 1, count, align);
    }
}

/// Two free maps that agree from `from` on have the same first free page
/// from there.
pub proof fn lemma_first_free_agree(a: Seq<bool>, b: Seq<bool>, from: int)
    requires
        a.len() == b.len(),
        0 <= from,
        forall|i: int| from <= i < a.len() ==> a[i] == b[i],
    ensures
        first_free(a, from) == first_free(b, from),
    decreases a.len() - from,
{
    if from < a.len() && !a[from] {
        lemma_first_free_agree(a, b, from + 1);
    }
}

/// Two free maps that agree from `from` on have the same free runs from
/// there.
pub proof fn lemma_free_runs_agree(a: Seq<bool>, b: Seq<bool>, from: int)
    requires
        a.len() == b.len(),
        0 <= from,
        forall|i: int| from <= i < a.len() ==> a[i] == b[i],
    ensures
        free_runs(a, from) == free_runs(b, from),
    decreases a.len() - from,
{
    lemma_first_free_agree(a, b, from);
    let s = first_free(a, from);
    if from <= a.len() {
        lemma_first_free(a, from);
        lemma_run_end_agree(a, b, s);
        let e = run_end(a, s);
        if s < e && s < a.len() {
            lemma_run_end(a, s);
            lemma_free_runs_agree(a, b, e);
        }
    } else {
        assert(first_free(a, from) == a.len());
    }
}

proof fn lemma_run_end_agree(a: Seq<bool>, b: Seq<bool>, from: int)
    requires
        a.len() == b.len(),
        0 <= from,
        forall|i: int| from <= i < a.len() ==> a[i] == b[i],
    ensures
        run_end(a, from) == run_end(b, from),
    decreases a.len() - from,
{
    if from < a.len() && a[from] {
        lemma_run_end_agree(a, b, from + 1);
    }
}

/// An address is aligned to 4096 bytes exactly if it is a multiple of 4096.
pub proof fn lemma_aligned_4k(bits: u64)
    ensures
        aligned_to(bits, 4096) <==> bits as int % 4096 == 0,
{
    assert(bits & 4095 == 0 <==> bits % 4096 == 0) by (bit_vector);
}

/// The page map of a memory map with an available region has a free page.
proof fn lemma_available_page_is_free(regions: Seq<crate::mem_map::HwMemRegion>, pages: PageMap)
    requires
        crate::mem_map::regions_wf(regions),
        regions.len() > 0,
        exists|k: int|
            0 <= k < regions.len() && (#[trigger] regions[k]).region_type
                == crate::mem_map::HwMemRegionType::Available,
        pages.spec_base() == regions[0].base,
        pages@.len() * 4096 == regions.last().spec_end() - regions[0].base.spec_bits(),
        forall|i: int|
            0 <= i < pages@.len() ==> {
                &&& (#[trigger] pages@[i]).mem_type == mem_type_at(regions, pages.addr_of(i))
                &&& pages@[i].owners@.len() == 0
            },
    ensures
        first_free(pages.free_map(), 0) < pages@.len(),
{
    let k = choose|k: int|
        0 <= k < regions.len() && (#[trigger] regions[k]).region_type
            == crate::mem_map::HwMemRegionType::Available;
    let base = regions[0].base.spec_bits() as int;
    let a = regions[k].base.spec_bits() as int;
    assert(regions[k].wf());
    assert(regions[0].wf());
    assert(regions[regions.len() - 1].wf());
    if k > 0 {
        assert(regions[0].spec_end() <= regions[k].base.spec_bits());
    }
    if k < regions.len() - 1 {
        assert(regions[k].spec_end() <= regions[regions.len() - 1].base.spec_bits());
    }
    let i = (a - base) / 4096;
    assert(base + i * 4096 == a);
    assert(0 <= i < pages@.len());
    crate::page_info::lemma_mem_type_in_region(regions, k, a);
    assert(pages.addr_of(i) == a);
    assert(pages@[i].spec_is_free());
    let fm = pages.free_map();
    assert(fm[i]);
    lemma_first_free(fm, 0);
    if first_free(fm, 0) >= fm.len() {
        assert(!fm[i]);
    }
}

/// Allocates pages for the hypervisor while it boots.
///
/// The allocator walks the page map upwards and never looks back: every page
/// below its next page is in use. Its next page is always free.
pub struct HypPageAlloc {
    next_page: usize,
    pages: PageMap,
}

impl HypPageAlloc {
    /// The records of all pages.
    pub closed spec fn pages_view(&self) -> Seq<PageInfo> {
        self.pages@
    }

    /// The address of the first page of the map.
    pub closed spec fn spec_base(&self) -> u64 {
        self.pages.spec_base().spec_bits()
    }

    /// The position of the page that will be handed out next.
    pub closed spec fn spec_next(&self) -> int {
        self.next_page as int
    }

    /// For each page, whether it is free.
    pub open spec fn free_map(&self) -> Seq<bool> {
        Seq::new(self.pages_view().len(), |i: int| self.pages_view()[i].spec_is_free())
    }

    /// The address of the page at position `i`.
    pub open spec fn addr_of(&self, i: int) -> int {
        self.spec_base() + i * 4096
    }

    /// The allocator is consistent: its next page exists and is free, and no
    /// page below it is free.
    pub closed spec fn wf(&self) -> bool {
        &&& self.pages.wf()
        &&& self.next_page < self.pages@.len()
        &&& self.pages@[self.next_page as int].spec_is_free()
        &&& forall|i: int| 0 <= i < self.next_page ==> !(#[trigger] self.pages@[i]).spec_is_free()
    }

    /// What `wf` says, for use outside this module.
    pub proof fn lemma_wf(&self)
        requires
            self.wf(),
        ensures
            0 <= self.spec_next() < self.pages_view().len(),
            self.free_map()[self.spec_next()],
            forall|i: int| 0 <= i < self.spec_next() ==> !#[trigger] self.free_map()[i],
            forall|i: int| 0 <= i < self.pages_view().len()
                ==> (#[trigger] self.pages_view()[i]).wf(),
            self.spec_base() as int % 4096 == 0,
            self.spec_base() + self.pages_view().len() * 4096 <= u64::MAX,
            first_free(self.free_map(), 0) == self.spec_next(),
    {
        let fm = self.free_map();
        lemma_first_free(fm, 0);
        let f = first_free(fm, 0);
        assert(fm[self.spec_next()]);
        if f < self.spec_next() {
            assert(fm[f]);
            assert(self.pages@[f].spec_is_free());
        }
    }

    /// An allocator over the pages of `mem_map`. Its next page is the first
    /// free page of the map.
    pub fn new(mem_map: HwMemMap) -> (r: HypPageAlloc)
        requires
            mem_map.wf(),
            mem_map@.len() > 0,
            (mem_map@.last().spec_end() - mem_map@[0].base.spec_bits()) / 4096 <= usize::MAX,
            exists|k: int|
                0 <= k < mem_map@.len() && (#[trigger] mem_map@[k]).region_type
                    == crate::mem_map::HwMemRegionType::Available,
        ensures
            r.wf(),
            r.spec_base() == mem_map@[0].base.spec_bits(),
            r.pages_view().len() * 4096 == mem_map@.last().spec_end()
                - mem_map@[0].base.spec_bits(),
            forall|i: int|
                0 <= i < r.pages_view().len() ==> {
                    &&& (#[trigger] r.pages_view()[i]).mem_type == mem_type_at(
                        mem_map@,
                        r.addr_of(i),
                    )
                    &&& r.pages_view()[i].owners@.len() == 0
                    &&& r.pages_view()[i].state == PageState::Free
                },
            r.spec_next() == first_free(r.free_map(), 0),
    {
        let pages = PageMap::build_from(&mem_map);
        let ghost fm = pages.free_map();
        proof {
            lemma_available_page_is_free(mem_map@, pages);
        }
        let n: usize = pages.len();
        let mut i: usize = 0;
        while !pages.page(i).is_free()
            invariant
                n == pages@.len(),
                i < pages@.len(),
                fm == pages.free_map(),
                first_free(fm, 0) == first_free(fm, i as int),
                first_free(fm, 0) < fm.len(),
                forall|j: int| 0 <= j < i ==> !(#[trigger] pages@[j]).spec_is_free(),
            decreases pages@.len() - i,
        {
            proof {
                assert(!fm[i as int]);
                lemma_first_free(fm, i as int + 1);
            }
            i = i + 1;
        }
        proof {
            assert(fm[i as int]);
        }
        let r = HypPageAlloc { next_page: i, pages };
        assert(r.free_map() == fm);
        r
    }

    /// The number of pages from the next page to the end of the map. Some
    /// of them may be in use.
    pub fn pages_remaining(&self) -> (r: u64)
        requires
            self.wf(),
        ensures
            r == self.pages_view().len() - self.spec_next(),
    {
        (self.pages.len() - self.next_page) as u64
    }

    /// The address of the page that will be handed out next.
    pub fn next_page_addr(&self) -> (r: PageAddr)
        requires
            self.wf(),
        ensures
            r.spec_bits() == self.addr_of(self.spec_next()),
    {
        self.pages.page_addr(self.next_page)
    }

    /// The record of the page at `addr`, if the map has it.
    pub fn page_info(&self, addr: PageAddr) -> (r: Option<&PageInfo>)
        requires
            self.wf(),
        ensures
            r is Some <==> self.spec_base() <= addr.spec_bits() < self.addr_of(
                self.pages_view().len() as int,
            ),
            r matches Some(info) ==> *info == self.pages_view()[(addr.spec_bits()
                - self.spec_base()) / 4096],
    {
        self.pages.get(addr)
    }

    /// Tells whether `count` free pages start at position `s`, the first of
    /// them aligned to `align` bytes.
    fn fits(&self, s: usize, count: usize, align: u64) -> (r: bool)
        requires
            self.pages.wf(),
            s < self.pages@.len(),
            align > 0,
        ensures
            r == fits_at(self.free_map(), self.spec_base(), s as int, count as int, align),
    {
        let addr = self.pages.page_addr(s);
        if addr.bits() & (align - 1) != 0 {
            return false;
        }
        let n: usize = self.pages.len();
        if count > n - s {
            return false;
        }
        let mut k: usize = 0;
        while k < count
            invariant
                k <= count,
                n == self.pages@.len(),
                s + count <= self.pages@.len(),
                forall|j: int| s <= j < s + k ==> #[trigger] self.free_map()[j],
            decreases count - k,
        {
            if !self.pages.page(s + k).is_free() {
                assert(!self.free_map()[s + k]);
                return false;
            }
            k = k + 1;
        }
        true
    }

    /// Claims the free pages from position `from` up to position `to` for
    /// the hypervisor.
    fn claim(&mut self, from: usize, to: usize)
        requires
            old(self).pages.wf(),
            from <= to <= old(self).pages@.len(),
        ensures
            final(self).pages.wf(),
            final(self).next_page == old(self).next_page,
            final(self).spec_base() == old(self).spec_base(),
            claims(old(self).pages_view(), final(self).pages_view(), from as int, to as int),
            final(self).free_map() == claimed_map(old(self).free_map(), from as int, to as int),
    {
        let mut i: usize = from;
        while i < to
            invariant
                from <= i <= to,
                to <= self.pages@.len(),
                self.pages.wf(),
                self.next_page == old(self).next_page,
                self.spec_base() == old(self).spec_base(),
                claims(old(self).pages_view(), self.pages_view(), from as int, i as int),
            decreases to - i,
        {
            let ghost before = self.pages@;
            if self.pages.page(i).is_free() {
                let r = self.pages.push_owner(i, PageOwnerId::hypervisor());
                proof {
                    assert(before[i as int] == old(self).pages_view()[i as int]);
                    assert(r is Ok);
                    assert(self.pages@[i as int].owners@
                        == seq![PageOwnerId { id: HYPERVISOR_ID }]);
                }
            }
            proof {
                assert forall|j: int| 0 <= j < before.len() implies if from <= j < i + 1 && (
                #[trigger] old(self).pages_view()[j]).spec_is_free() {
                    old(self).pages_view()[j].claimed_as(self.pages_view()[j])
                } else {
                    self.pages_view()[j] == old(self).pages_view()[j]
                } by {
                    if j != i {
                        assert(self.pages@[j] == before[j]);
                    }
                }
            }
            i = i + 1;
        }
        proof {
            assert forall|j: int| 0 <= j < self.free_map().len() implies self.free_map()[j]
                == claimed_map(old(self).free_map(), from as int, to as int)[j] by {
                let o = old(self).pages_view()[j];
            }
            assert(self.free_map() =~= claimed_map(old(self).free_map(), from as int, to as int));
        }
    }

    /// Moves the next page to the first free page at or after position
    /// `from`.
    fn seek(&mut self, from: usize)
        requires
            old(self).pages.wf(),
            from <= old(self).pages@.len(),
            first_free(old(self).free_map(), from as int) < old(self).pages@.len(),
        ensures
            final(self).pages == old(self).pages,
            final(self).spec_next() == first_free(old(self).free_map(), from as int),
    {
        let ghost fm = self.free_map();
        let n: usize = self.pages.len();
        let mut i: usize = from;
        proof {
            lemma_first_free(fm, from as int);
        }
        while !self.pages.page(i).is_free()
            invariant
                n == self.pages@.len(),
                from <= i < self.pages@.len(),
                self.pages == old(self).pages,
                fm == self.free_map(),
                first_free(fm, i as int) == first_free(fm, from as int),
                first_free(fm, from as int) < fm.len(),
            decreases self.pages@.len() - i,
        {
            proof {
                assert(!fm[i as int]);
                lemma_first_free(fm, i as int + 1);
            }
            i = i + 1;
        }
        proof {
            assert(fm[i as int]);
        }
        self.next_page = i;
    }

    /// Tells whether `take_pages_with_alignment(count, align)` can be
    /// called: whether `count` aligned free pages are left, and a free page
    /// after them.
    pub fn can_take_pages(&self, count: usize, align: u64) -> (r: bool)
        requires
            self.wf(),
        ensures
            r == can_take(
                self.free_map(),
                self.spec_base(),
                self.spec_next(),
                count as int,
                align,
            ),
    {
        if align == 0 {
            return false;
        }
        let ghost fm = self.free_map();
        let ghost base = self.spec_base();
        let n: usize = self.pages.len();
        let mut s: usize = self.next_page;
        let mut found: bool = false;
        while s < n && !found
            invariant
                self.pages.wf(),
                n == self.pages@.len(),
                fm == self.free_map(),
                base == self.spec_base(),
                align > 0,
                self.next_page <= s <= n,
                first_fit(fm, base, s as int, count as int, align) == first_fit(
                    fm,
                    base,
                    self.next_page as int,
                    count as int,
                    align,
                ),
                found ==> s < n && fits_at(fm, base, s as int, count as int, align),
            decreases n - s, if found { 0int } else { 1int },
        {
            if self.fits(s, count, align) {
                found = true;
            } else {
                s = s + 1;
            }
        }
        if !found {
            assert(first_fit(fm, base, s as int, count as int, align) == n);
            return false;
        }
        assert(first_fit(fm, base, s as int, count as int, align) == s);
        // `s + count` is at most `n`, since the pages fit.
        let after: usize = s + count;
        let mut i: usize = after;
        proof {
            lemma_first_free(fm, after as int);
        }
        while i < n
            invariant
                after <= i <= n,
                n == self.pages@.len(),
                fm == self.free_map(),
                first_free(fm, i as int) == first_free(fm, after as int),
                after == s + count,
                s < n,
                first_fit(fm, base, self.next_page as int, count as int, align) == s,
                align > 0,
                base == self.spec_base(),
            decreases n - i,
        {
            if self.pages.page(i).is_free() {
                assert(fm[i as int]);
                assert(first_free(fm, i as int) == i);
                return true;
            }
            proof {
                assert(!fm[i as int]);
            }
            i = i + 1;
        }
        assert(first_free(fm, i as int) == n);
        false
    }

    /// Returns the next free page and makes the hypervisor its owner.
    /// Another free page must be left after it.
    pub fn next_page(&mut self) -> (r: Page)
        requires
            old(self).wf(),
            first_free(old(self).free_map(), old(self).spec_next() + 1) < old(
                self,
            ).pages_view().len(),
        ensures
            final(self).wf(),
            final(self).spec_base() == old(self).spec_base(),
            r.addr.spec_bits() == old(self).addr_of(old(self).spec_next()),
            claims(
                old(self).pages_view(),
                final(self).pages_view(),
                old(self).spec_next(),
                old(self).spec_next() + 1,
            ),
            final(self).free_map() == claimed_map(
                old(self).free_map(),
                old(self).spec_next(),
                old(self).spec_next() + 1,
            ),
            final(self).spec_next() == first_free(old(self).free_map(), old(self).spec_next() + 1),
    {
        let first: usize = self.next_page;
        let n: usize = self.pages.len();
        let addr = self.pages.page_addr(first);
        self.claim(first, first + 1);
        proof {
            lemma_first_free_agree(old(self).free_map(), self.free_map(), first as int + 1);
        }
        self.seek(first + 1);
        proof {
            lemma_first_free(old(self).free_map(), first as int + 1);
            assert forall|i: int| 0 <= i < self.next_page implies !(
            #[trigger] self.pages@[i]).spec_is_free() by {
                assert(self.free_map()[i] == self.pages@[i].spec_is_free());
                assert(old(self).free_map()[i] == old(self).pages@[i].spec_is_free());
            }
            assert(self.free_map()[self.next_page as int]);
        }
        Page::new(addr)
    }

    /// Takes `count` pages that follow each other, the first of them aligned
    /// to `align` bytes (a power of two). The pages are the first such run
    /// at or after the next page; they and the free pages that were skipped
    /// to reach them now belong to the hypervisor. Such a run must exist,
    /// and a free page after it.
    pub fn take_pages_with_alignment(&mut self, count: usize, align: u64) -> (r: SequentialPages)
        requires
            old(self).wf(),
            can_take(
                old(self).free_map(),
                old(self).spec_base(),
                old(self).spec_next(),
                count as int,
                align,
            ),
        ensures
            final(self).wf(),
            final(self).spec_base() == old(self).spec_base(),
            r.spec_base().spec_bits() == old(self).addr_of(
                first_fit(
                    old(self).free_map(),
                    old(self).spec_base(),
                    old(self).spec_next(),
                    count as int,
                    align,
                ),
            ),
            aligned_to(r.spec_base().spec_bits(), align),
            r.spec_len() == count,
            claims(
                old(self).pages_view(),
                final(self).pages_view(),
                old(self).spec_next(),
                first_fit(
                    old(self).free_map(),
                    old(self).spec_base(),
                    old(self).spec_next(),
                    count as int,
                    align,
                ) + count,
            ),
            final(self).free_map() == take_map(
                old(self).free_map(),
                old(self).spec_base(),
                old(self).spec_next(),
                count as int,
                align,
            ),
            final(self).spec_next() == take_next(
                old(self).free_map(),
                old(self).spec_base(),
                old(self).spec_next(),
                count as int,
                align,
            ),
    {
        let ghost fm = self.free_map();
        let ghost base = self.spec_base();
        let ghost f = first_fit(fm, base, self.next_page as int, count as int, align);
        proof {
            lemma_first_fit(fm, base, self.next_page as int, count as int, align);
        }
        let start: usize = self.next_page;
        let n: usize = self.pages.len();
        let mut s: usize = start;
        while !self.fits(s, count, align)
            invariant
                n == self.pages@.len(),
                self.pages.wf(),
                *self == *old(self),
                fm == self.free_map(),
                base == self.spec_base(),
                align > 0,
                start <= s <= f,
                f < self.pages@.len(),
                f == first_fit(fm, base, start as int, count as int, align),
                first_fit(fm, base, s as int, count as int, align) == f,
                fits_at(fm, base, f, count as int, align),
            decreases f - s,
        {
            s = s + 1;
        }
        proof {
            lemma_first_fit(fm, base, s as int, count as int, align);
            assert(s == f);
        }
        let first_addr = self.pages.page_addr(s);
        let last: usize = s + count;
        self.claim(start, last);
        proof {
            lemma_first_free_agree(fm, self.free_map(), last as int);
        }
        self.seek(last);
        proof {
            lemma_first_free(fm, last as int);
            assert forall|i: int| 0 <= i < self.next_page implies !(
            #[trigger] self.pages@[i]).spec_is_free() by {
                assert(self.free_map()[i] == self.pages@[i].spec_is_free());
                assert(fm[i] == old(self).pages@[i].spec_is_free());
            }
            assert(self.free_map()[self.next_page as int]);
        }
        match SequentialPages::new(first_addr, count as u64) {
            Some(pages) => pages,
            None => {
                proof {
                    assert(false);
                }
                SequentialPages::from_page(Page::new(first_addr))
            },
        }
    }

    /// Takes the first `count` free pages that follow each other.
    pub fn take_pages(&mut self, count: usize) -> (r: SequentialPages)
        requires
            old(self).wf(),
            can_take(
                old(self).free_map(),
                old(self).spec_base(),
                old(self).spec_next(),
                count as int,
                PAGE_SIZE_4K,
            ),
        ensures
            final(self).wf(),
            final(self).spec_base() == old(self).spec_base(),
            r.spec_base().spec_bits() == old(self).addr_of(
                first_fit(
                    old(self).free_map(),
                    old(self).spec_base(),
                    old(self).spec_next(),
                    count as int,
                    PAGE_SIZE_4K,
                ),
            ),
            r.spec_len() == count,
            claims(
                old(self).pages_view(),
                final(self).pages_view(),
                old(self).spec_next(),
                first_fit(
                    old(self).free_map(),
                    old(self).spec_base(),
                    old(self).spec_next(),
                    count as int,
                    PAGE_SIZE_4K,
                ) + count,
            ),
            final(self).free_map() == take_map(
                old(self).free_map(),
                old(self).spec_base(),
                old(self).spec_next(),
                count as int,
                PAGE_SIZE_4K,
            ),
            final(self).spec_next() == take_next(
                old(self).free_map(),
                old(self).spec_base(),
                old(self).spec_next(),
                count as int,
                PAGE_SIZE_4K,
            ),
    {
        self.take_pages_with_alignment(count, PAGE_SIZE_4K)
    }

    /// Ends the allocation: claims every page that is still free and
    /// returns the page map together with the runs of pages that were free,
    /// in ascending order. These runs are what the host VM gets.
    pub fn drain(self) -> (r: (PageMap, Vec<SequentialPages>))
        requires
            self.wf(),
        ensures
            r.0.wf(),
            r.0.spec_base().spec_bits() == self.spec_base(),
            claims(
                self.pages_view(),
                r.0@,
                self.spec_next(),
                self.pages_view().len() as int,
            ),
            r.1@.len() == free_runs(self.free_map(), self.spec_next()).len(),
            forall|j: int|
                0 <= j < r.1@.len() ==> {
                    &&& (#[trigger] r.1@[j]).spec_base().spec_bits() == self.addr_of(
                        free_runs(self.free_map(), self.spec_next())[j].0,
                    )
                    &&& r.1@[j].spec_len() == free_runs(self.free_map(), self.spec_next())[j].1
                        - free_runs(self.free_map(), self.spec_next())[j].0
                },
    {
        let ghost fm = self.free_map();
        let ghost start = self.spec_next();
        let mut ranges: Vec<SequentialPages> = Vec::new();
        let n: usize = self.pages.len();
        let mut cur: usize = self.next_page;
        let mut this = self;
        proof {
            lemma_first_free(fm, cur as int);
        }
        while cur < n
            invariant
                n == this.pages@.len(),
                n == fm.len(),
                this.pages.wf(),
                this.spec_base() == self.spec_base(),
                start <= cur <= n,
                cur == first_free(fm, cur as int),
                claims(self.pages_view(), this.pages_view(), start, cur as int),
                forall|i: int| cur <= i < n ==> this.free_map()[i] == fm[i],
                free_runs(fm, start) == Seq::new(
                    ranges@.len(),
                    |j: int| free_runs(fm, start)[j],
                ) + free_runs(fm, cur as int),
                ranges@.len() <= free_runs(fm, start).len(),
                forall|j: int|
                    0 <= j < ranges@.len() ==> {
                        &&& (#[trigger] ranges@[j]).spec_base().spec_bits() == self.addr_of(
                            free_runs(fm, start)[j].0,
                        )
                        &&& ranges@[j].spec_len() == free_runs(fm, start)[j].1 - free_runs(
                            fm,
                            start,
                        )[j].0
                    },
            decreases n - cur,
        {
            // Find the end of the run of free pages that starts here.
            let mut end: usize = cur;
            proof {
                lemma_run_end(fm, cur as int);
                lemma_first_free(fm, cur as int);
                assert(fm[cur as int]);
            }
            while end < n && this.pages.page(end).is_free()
                invariant
                    cur <= end <= n,
                    n == this.pages@.len(),
                    n == fm.len(),
                    forall|i: int| cur <= i < n ==> this.free_map()[i] == fm[i],
                    run_end(fm, end as int) == run_end(fm, cur as int),
                decreases n - end,
            {
                proof {
                    assert(this.free_map()[end as int]);
                    assert(fm[end as int]);
                }
                end = end + 1;
            }
            proof {
                if end < n {
                    assert(!this.free_map()[end as int]);
                    assert(!fm[end as int]);
                }
                assert(end == run_end(fm, cur as int));
                assert(end > cur) by {
                    if end == cur {
                        assert(this.free_map()[cur as int] == fm[cur as int]);
                    }
                }
            }
            let ghost before = this.pages_view();
            let ghost before_fm = this.free_map();
            let first_addr = this.pages.page_addr(cur);
            this.claim(cur, end);
            let range = SequentialPages::new(first_addr, (end - cur) as u64);
            proof {
                assert(free_runs(fm, cur as int) == seq![(cur as int, end as int)] + free_runs(
                    fm,
                    end as int,
                ));
                assert forall|i: int| 0 <= i < n implies if start <= i < end && (
                #[trigger] self.pages_view()[i]).spec_is_free() {
                    self.pages_view()[i].claimed_as(this.pages_view()[i])
                } else {
                    this.pages_view()[i] == self.pages_view()[i]
                } by {
                    if i >= cur {
                        assert(before_fm[i] == fm[i]);
                        assert(before[i].spec_is_free() == self.pages_view()[i].spec_is_free());
                        assert(fm[i] == self.pages_view()[i].spec_is_free());
                    }
                }
            }
            match range {
                Some(r) => ranges.push(r),
                None => {
                    assert(false);
                },
            }
            // Skip to the next free page, or to the end of the map.
            let mut next: usize = end;
            proof {
                lemma_first_free(fm, end as int);
            }
            while next < n && !this.pages.page(next).is_free()
                invariant
                    end <= next <= n,
                    n == this.pages@.len(),
                    n == fm.len(),
                    forall|i: int| end <= i < n ==> this.free_map()[i] == fm[i],
                    first_free(fm, next as int) == first_free(fm, end as int),
                decreases n - next,
            {
                proof {
                    assert(!this.free_map()[next as int]);
                    assert(!fm[next as int]);
                }
                next = next + 1;
            }
            proof {
                if next < n {
                    assert(this.free_map()[next as int]);
                    assert(fm[next as int]);
                }
                assert(next == first_free(fm, end as int));
                lemma_free_runs_skip(fm, end as int);
                let all = free_runs(fm, start);
                let done = Seq::new(ranges@.len(), |j: int| all[j]);
                let prev = Seq::new((ranges@.len() - 1) as nat, |j: int| all[j]);
                assert(all == prev + (seq![(cur as int, end as int)] + free_runs(fm, next as int)));
                assert(all[ranges@.len() - 1] == (cur as int, end as int));
                assert(done =~= prev + seq![(cur as int, end as int)]);
                assert(all =~= done + free_runs(fm, next as int));
                assert forall|i: int| 0 <= i < n implies if start <= i < next && (
                #[trigger] self.pages_view()[i]).spec_is_free() {
                    self.pages_view()[i].claimed_as(this.pages_view()[i])
                } else {
                    this.pages_view()[i] == self.pages_view()[i]
                } by {
                    if end <= i < next {
                        lemma_first_free(fm, end as int);
                        assert(!fm[i]);
                        assert(fm[i] == self.pages_view()[i].spec_is_free());
                    }
                }
            }
            cur = next;
        }
        proof {
            assert(free_runs(fm, n as int) =~= Seq::<(int, int)>::empty());
            assert(free_runs(fm, start) =~= Seq::new(ranges@.len(), |j: int| free_runs(fm, start)[j]));
        }
        (this.pages, ranges)
    }
}

/// The free runs from `from` on are those from the first free page on.
pub proof fn lemma_free_runs_skip(fm: Seq<bool>, from: int)
    requires
        0 <= from <= fm.len(),
    ensures
        free_runs(fm, from) == free_runs(fm, first_free(fm, from)),
{
    lemma_first_free(fm, from);
    let s = first_free(fm, from);
    if s < fm.len() {
        assert(first_free(fm, s) == s);
    } else {
        assert(first_free(fm, s) == s);
    }
}

/// What the boot allocator is, as far as the next allocations go: which
/// pages are free, where the page map starts, and which page comes next.
pub struct AllocModel {
    /// For each page, whether it is free.
    pub fm: Seq<bool>,
    /// The address of the first page of the map.
    pub base: u64,
    /// The position of the page that will be handed out next.
    pub next: int,
}

impl AllocModel {
    /// The address of the page at position `i`.
    pub open spec fn addr_of(self, i: int) -> int {
        self.base + i * 4096
    }

    /// True if a single page can be taken: a free page is left after the
    /// next one.
    pub open spec fn can_next(self) -> bool {
        first_free(self.fm, self.next + 1) < self.fm.len()
    }

    /// The allocator after a single page has been taken.
    pub open spec fn after_next(self) -> AllocModel {
        AllocModel {
            fm: claimed_map(self.fm, self.next, self.next + 1),
            base: self.base,
            next: first_free(self.fm, self.next + 1),
        }
    }

    /// True if `k` single pages can be taken one after the other.
    pub open spec fn can_singles(self, k: nat) -> bool
        decreases k,
    {
        if k == 0 {
            true
        } else {
            self.can_next() && self.after_next().can_singles((k - 1) as nat)
        }
    }

    /// The allocator after `k` single pages have been taken.
    pub open spec fn after_singles(self, k: nat) -> AllocModel
        decreases k,
    {
        if k == 0 {
            self
        } else {
            self.after_next().after_singles((k - 1) as nat)
        }
    }

    /// The position of the first of `count` pages, aligned to `align`
    /// bytes, that would be taken next.
    pub open spec fn take_index(self, count: int, align: u64) -> int {
        first_fit(self.fm, self.base, self.next, count, align)
    }

    /// True if `count` pages aligned to `align` bytes can be taken.
    pub open spec fn can_take(self, count: int, align: u64) -> bool {
        can_take(self.fm, self.base, self.next, count, align)
    }

    /// The allocator after `count` pages aligned to `align` bytes have been
    /// taken.
    pub open spec fn after_take(self, count: int, align: u64) -> AllocModel {
        AllocModel {
            fm: take_map(self.fm, self.base, self.next, count, align),
            base: self.base,
            next: take_next(self.fm, self.base, self.next, count, align),
        }
    }
}

/// Taking pages changes neither where the page map starts nor how many
/// pages it has.
pub proof fn lemma_singles_shape(m: AllocModel, k: nat)
    ensures
        m.after_singles(k).base == m.base,
        m.after_singles(k).fm.len() == m.fm.len(),
    decreases k,
{
    if k > 0 {
        lemma_singles_shape(m.after_next(), (k - 1) as nat);
    }
}

/// Claims that reach up to a page add up.
pub proof fn lemma_claims_chain(
    old: Seq<PageInfo>,
    mid: Seq<PageInfo>,
    new: Seq<PageInfo>,
    from: int,
    to: int,
    end: int,
)
    requires
        claims(old, mid, from, to),
        claims(mid, new, to, end),
        from <= to <= end,
    ensures
        claims(old, new, from, end),
{
    lemma_claims_compose(old, mid, new, from, to, to, end);
}

/// A claim can be stretched over pages that are not free.
pub proof fn lemma_claims_extend(old: Seq<PageInfo>, new: Seq<PageInfo>, from: int, to: int, end: int)
    requires
        claims(old, new, from, to),
        to <= end,
        forall|i: int| to <= i < end && 0 <= i < old.len() ==> !(#[trigger] old[i]).spec_is_free(),
    ensures
        claims(old, new, from, end),
{
    assert forall|i: int| 0 <= i < old.len() implies if from <= i < end && (
    #[trigger] old[i]).spec_is_free() {
        old[i].claimed_as(new[i])
    } else {
        new[i] == old[i]
    } by {}
}

impl HypPageAlloc {
    /// What the allocator is, as far as the next allocations go.
    pub open spec fn model(&self) -> AllocModel {
        AllocModel { fm: self.free_map(), base: self.spec_base(), next: self.spec_next() }
    }

    /// Takes `k` single pages, one after the other, and makes the
    /// hypervisor their owner. After each of them a free page must be left.
    pub fn take_singles(&mut self, k: usize) -> (r: Vec<Page>)
        requires
            old(self).wf(),
            old(self).model().can_singles(k as nat),
        ensures
            final(self).wf(),
            final(self).model() == old(self).model().after_singles(k as nat),
            r@.len() == k,
            old(self).spec_next() <= final(self).spec_next(),
            claims(
                old(self).pages_view(),
                final(self).pages_view(),
                old(self).spec_next(),
                final(self).spec_next(),
            ),
    {
        let mut out: Vec<Page> = Vec::new();
        let mut i: usize = 0;
        proof {
            self.lemma_wf();
        }
        while i < k
            invariant
                i <= k,
                self.wf(),
                out@.len() == i,
                self.model().can_singles((k - i) as nat),
                self.model().after_singles((k - i) as nat) == old(self).model().after_singles(
                    k as nat,
                ),
                old(self).spec_next() <= self.spec_next(),
                claims(
                    old(self).pages_view(),
                    self.pages_view(),
                    old(self).spec_next(),
                    self.spec_next(),
                ),
            decreases k - i,
        {
            let ghost before = self.pages_view();
            let ghost before_next = self.spec_next();
            let ghost fm = self.free_map();
            proof {
                self.lemma_wf();
                lemma_first_free(fm, before_next + 1);
            }
            let page = self.next_page();
            out.push(page);
            proof {
                assert forall|j: int|
                    before_next + 1 <= j < self.spec_next() && 0 <= j
                        < before.len() implies !(#[trigger] before[j]).spec_is_free() by {
                    assert(fm[j] == before[j].spec_is_free());
                }
                lemma_claims_extend(
                    before,
                    self.pages_view(),
                    before_next,
                    before_next + 1,
                    self.spec_next(),
                );
                lemma_claims_chain(
                    old(self).pages_view(),
                    before,
                    self.pages_view(),
                    old(self).spec_next(),
                    before_next,
                    self.spec_next(),
                );
            }
            i = i + 1;
        }
        out
    }

    /// Takes `count` pages that follow each other, like `take_pages`. In
    /// addition to what `take_pages` says, the claim is stated up to the new
    /// next page.
    pub fn take_pages_for_hyp_state(&mut self, count: usize) -> (r: SequentialPages)
        requires
            old(self).wf(),
            old(self).model().can_take(count as int, PAGE_SIZE_4K),
        ensures
            final(self).wf(),
            final(self).model() == old(self).model().after_take(count as int, PAGE_SIZE_4K),
            r.spec_base().spec_bits() == old(self).model().addr_of(
                old(self).model().take_index(count as int, PAGE_SIZE_4K),
            ),
            r.spec_len() == count,
            old(self).spec_next() <= final(self).spec_next(),
            claims(
                old(self).pages_view(),
                final(self).pages_view(),
                old(self).spec_next(),
                final(self).spec_next(),
            ),
    {
        let ghost before = self.pages_view();
        let ghost fm = self.free_map();
        let ghost n0 = self.spec_next();
        let ghost end = first_fit(fm, self.spec_base(), n0, count as int, PAGE_SIZE_4K) + count;
        proof {
            self.lemma_wf();
            lemma_first_fit(fm, self.spec_base(), n0, count as int, PAGE_SIZE_4K);
            lemma_first_free(fm, end);
        }
        let r = self.take_pages(count);
        proof {
            assert forall|j: int| end <= j < self.spec_next() && 0 <= j < before.len() implies !(
            #[trigger] before[j]).spec_is_free() by {
                assert(fm[j] == before[j].spec_is_free());
            }
            lemma_claims_extend(before, self.pages_view(), n0, end, self.spec_next());
        }
        r
    }
}

/// The most guests that can be live at one time.
pub const MAX_ACTIVE_GUESTS: usize = 1024;

/// The identifier of the first guest.
pub const FIRST_GUEST_ID: u64 = 2;

/// True if the hypervisor can set itself up on an allocator with the free
/// map `fm` and the next page `next`: two pages for the list of guests, one
/// page for the state of the tracker and a chunk of `host_alignment` bytes,
/// aligned to its size, can be taken one after the other.
pub open spec fn can_boot(fm: Seq<bool>, base: u64, next: int, host_alignment: u64) -> bool {
    let fm1 = take_map(fm, base, next, 2, PAGE_SIZE_4K);
    let n1 = take_next(fm, base, next, 2, PAGE_SIZE_4K);
    let fm2 = claimed_map(fm1, n1, n1 + 1);
    let n2 = first_free(fm1, n1 + 1);
    &&& host_alignment > 0
    &&& host_alignment / PAGE_SIZE_4K <= usize::MAX
    &&& can_take(fm, base, next, 2, PAGE_SIZE_4K)
    &&& n2 < fm.len()
    &&& can_take(fm2, base, n2, (host_alignment / PAGE_SIZE_4K) as int, host_alignment)
}

/// The free map that is left for the host VM once the hypervisor has set
/// itself up.
pub open spec fn boot_map(fm: Seq<bool>, base: u64, next: int, host_alignment: u64) -> Seq<bool> {
    let fm1 = take_map(fm, base, next, 2, PAGE_SIZE_4K);
    let n1 = take_next(fm, base, next, 2, PAGE_SIZE_4K);
    let fm2 = claimed_map(fm1, n1, n1 + 1);
    let n2 = first_free(fm1, n1 + 1);
    take_map(fm2, base, n2, (host_alignment / PAGE_SIZE_4K) as int, host_alignment)
}

/// The position of the first page that is left for the host VM once the
/// hypervisor has set itself up.
pub open spec fn boot_next(fm: Seq<bool>, base: u64, next: int, host_alignment: u64) -> int {
    let fm1 = take_map(fm, base, next, 2, PAGE_SIZE_4K);
    let n1 = take_next(fm, base, next, 2, PAGE_SIZE_4K);
    let fm2 = claimed_map(fm1, n1, n1 + 1);
    let n2 = first_free(fm1, n1 + 1);
    take_next(fm2, base, n2, (host_alignment / PAGE_SIZE_4K) as int, host_alignment)
}

/// Claiming the free pages from `from` to `to1` and then those from `from2`
/// to `to2` claims the free pages from `from` to `to2`, if no page between
/// `to1` and `from2` was free.
pub proof fn lemma_claims_compose(
    old: Seq<PageInfo>,
    mid: Seq<PageInfo>,
    new: Seq<PageInfo>,
    from: int,
    to1: int,
    from2: int,
    to2: int,
)
    requires
        claims(old, mid, from, to1),
        claims(mid, new, from2, to2),
        from <= to1 <= from2 <= to2,
        forall|i: int| to1 <= i < from2 && 0 <= i < old.len()
            ==> !(#[trigger] old[i]).spec_is_free(),
    ensures
        claims(old, new, from, to2),
{
    assert forall|i: int| 0 <= i < old.len() implies if from <= i < to2 && (
    #[trigger] old[i]).spec_is_free() {
        old[i].claimed_as(new[i])
    } else {
        new[i] == old[i]
    } by {
        let o = old[i];
        let m = mid[i];
        assert(m.spec_is_free() || !m.spec_is_free());
    }
}

/// What `set_page_owner` answers for a page of kind `mem_type` whose owner
/// stack, without the exited owners at its top, is `owners`.
pub open spec fn set_owner_result(mem_type: MemType, owners: Seq<PageOwnerId>) -> Result<
    (),
    Error,
> {
    if mem_type == MemType::Reserved {
        Err(Error::ReservedPage)
    } else if owners.len() >= MAX_PAGE_OWNERS {
        Err(Error::OwnerOverflow)
    } else {
        Ok(())
    }
}

/// The ledger of page ownership: who owns each page of the system, and which
/// guests are live.
///
/// Tearing down a guest only removes it from the list of live guests. The
/// pages that it owned are handed back lazily: the exited owner is skipped
/// when the owner of a page is asked for, and it is dropped from the page's
/// owner stack when the page gets its next owner.
pub struct PageTracker {
    next_owner_id: u64,
    active_guests: Vec<PageOwnerId>,
    pages: PageMap,
}

impl PageTracker {
    /// The records of all pages.
    pub open spec fn pages_view(&self) -> Seq<PageInfo> {
        self.page_map()@
    }

    /// The page map.
    pub closed spec fn page_map(&self) -> PageMap {
        self.pages
    }

    /// The live guests, in the order in which they were added. The host VM
    /// is the first.
    pub closed spec fn guests(&self) -> Seq<PageOwnerId> {
        self.active_guests@
    }

    /// The identifier that the next guest will get.
    pub closed spec fn spec_next_owner_id(&self) -> u64 {
        self.next_owner_id
    }

    /// The ledger is consistent: the host VM is live, the identifiers of the
    /// live guests ascend and lie below the next identifier, and the page
    /// map is consistent.
    pub open spec fn wf(&self) -> bool {
        &&& self.page_map().wf()
        &&& self.spec_next_owner_id() >= FIRST_GUEST_ID
        &&& 0 < self.guests().len() <= MAX_ACTIVE_GUESTS
        &&& self.guests()[0].id == HOST_ID
        &&& forall|i: int| 0 < i < self.guests().len() ==> FIRST_GUEST_ID <= (
        #[trigger] self.guests()[i]).id < self.spec_next_owner_id()
        &&& forall|i: int, j: int|
            0 <= i < j < self.guests().len() ==> (#[trigger] self.guests()[i]).id < (
            #[trigger] self.guests()[j]).id
    }

    /// The position in the page map of the page at `addr`, if the map has
    /// it.
    pub open spec fn index_of(&self, addr: PageAddr) -> Option<int> {
        self.page_map().index_of(addr)
    }

    /// Sets up the ledger from the boot allocator. The hypervisor first
    /// takes what it needs for itself: two pages for the list of guests,
    /// one page for its own state and, to align the memory of the host VM,
    /// a chunk of `host_alignment` bytes. All pages that are free after
    /// that are claimed and returned, as runs in ascending order: these are
    /// the pages of the host VM. The host VM is the only live guest.
    pub fn from(hyp_mem: HypPageAlloc, host_alignment: u64) -> (r: (PageTracker, Vec<
        SequentialPages,
    >))
        requires
            hyp_mem.wf(),
            can_boot(hyp_mem.free_map(), hyp_mem.spec_base(), hyp_mem.spec_next(), host_alignment),
        ensures
            r.0.wf(),
            r.0.guests() == seq![PageOwnerId { id: HOST_ID }],
            r.0.spec_next_owner_id() == FIRST_GUEST_ID,
            r.0.page_map().spec_base().spec_bits() == hyp_mem.spec_base(),
            claims(
                hyp_mem.pages_view(),
                r.0.pages_view(),
                hyp_mem.spec_next(),
                hyp_mem.pages_view().len() as int,
            ),
            r.1@.len() == free_runs(
                boot_map(
                    hyp_mem.free_map(),
                    hyp_mem.spec_base(),
                    hyp_mem.spec_next(),
                    host_alignment,
                ),
                boot_next(
                    hyp_mem.free_map(),
                    hyp_mem.spec_base(),
                    hyp_mem.spec_next(),
                    host_alignment,
                ),
            ).len(),
            forall|j: int|
                0 <= j < r.1@.len() ==> {
                    let runs = free_runs(
                        boot_map(
                            hyp_mem.free_map(),
                            hyp_mem.spec_base(),
                            hyp_mem.spec_next(),
                            host_alignment,
                        ),
                        boot_next(
                            hyp_mem.free_map(),
                            hyp_mem.spec_base(),
                            hyp_mem.spec_next(),
                            host_alignment,
                        ),
                    );
                    &&& (#[trigger] r.1@[j]).spec_base().spec_bits() == hyp_mem.addr_of(runs[j].0)
                    &&& r.1@[j].spec_len() == runs[j].1 - runs[j].0
                },
    {
        let mut hyp_mem = hyp_mem;
        let ghost p0 = hyp_mem.pages_view();
        let ghost fm0 = hyp_mem.free_map();
        let ghost n0 = hyp_mem.spec_next();
        let ghost base = hyp_mem.spec_base();
        let ghost len = p0.len() as int;
        proof {
            hyp_mem.lemma_wf();
            lemma_first_fit(fm0, base, n0, 2, PAGE_SIZE_4K);
        }
        // Room for the list of guests.
        let _ = hyp_mem.take_pages(2);
        let ghost p1 = hyp_mem.pages_view();
        let ghost fm1 = hyp_mem.free_map();
        let ghost n1 = hyp_mem.spec_next();
        let ghost e1 = first_fit(fm0, base, n0, 2, PAGE_SIZE_4K) + 2;
        proof {
            hyp_mem.lemma_wf();
            lemma_first_free(fm0, e1);
        }
        let mut active_guests: Vec<PageOwnerId> = Vec::new();
        active_guests.push(PageOwnerId::host());
        // Room for the state of the tracker.
        let _ = hyp_mem.next_page();
        let ghost p2 = hyp_mem.pages_view();
        let ghost fm2 = hyp_mem.free_map();
        let ghost n2 = hyp_mem.spec_next();
        proof {
            hyp_mem.lemma_wf();
            lemma_first_free(fm1, n1 + 1);
            assert forall|i: int| e1 <= i < n1 && 0 <= i < len implies !(
            #[trigger] p0[i]).spec_is_free() by {
                assert(fm0[i] == p0[i].spec_is_free());
            }
            lemma_claims_compose(p0, p1, p2, n0, e1, n1, n1 + 1);
        }
        // Discard a chunk to align the memory of the host.
        let count: usize = (host_alignment / PAGE_SIZE_4K) as usize;
        proof {
            lemma_first_fit(fm2, base, n2, count as int, host_alignment);
        }
        let _ = hyp_mem.take_pages_with_alignment(count, host_alignment);
        let ghost p3 = hyp_mem.pages_view();
        let ghost fm3 = hyp_mem.free_map();
        let ghost n3 = hyp_mem.spec_next();
        let ghost e3 = first_fit(fm2, base, n2, count as int, host_alignment) + count;
        proof {
            hyp_mem.lemma_wf();
            lemma_first_free(fm2, e3);
            assert forall|i: int| n1 + 1 <= i < n2 && 0 <= i < len implies !(
            #[trigger] p0[i]).spec_is_free() by {
                assert(fm0[i] == p0[i].spec_is_free());
                assert(fm1[i] == (fm0[i] && !(n0 <= i < e1)));
            }
            lemma_claims_compose(p0, p2, p3, n0, n1 + 1, n2, e3);
            assert forall|i: int| e3 <= i < n3 && 0 <= i < len implies !(
            #[trigger] p0[i]).spec_is_free() by {
                assert(fm0[i] == p0[i].spec_is_free());
                assert(fm1[i] == (fm0[i] && !(n0 <= i < e1)));
                assert(fm2[i] == (fm1[i] && !(n1 <= i < n1 + 1)));
            }
        }
        let (page_map, host_pages) = hyp_mem.drain();
        proof {
            lemma_claims_compose(p0, p3, page_map@, n0, e3, n3, len);
        }
        (PageTracker { next_owner_id: FIRST_GUEST_ID, active_guests, pages: page_map }, host_pages)
    }

    /// The number of live guests, the host VM included.
    pub fn active_guest_count(&self) -> (r: usize)
        ensures
            r == self.guests().len(),
    {
        self.active_guests.len()
    }

    /// Tells whether `id` names a live owner.
    pub fn is_active_guest(&self, id: PageOwnerId) -> (r: bool)
        ensures
            r == is_active(self.guests(), id),
    {
        check_active(&self.active_guests, id)
    }

    /// Adds a new guest to the system and returns its identifier, the next
    /// one that was never used. Fails with `IdOverflow` when the
    /// identifiers are used up, and with `GuestOverflow` when there is no
    /// room for another live guest; in the second case the identifier is
    /// used up all the same.
    pub fn add_active_guest(&mut self) -> (r: Result<PageOwnerId, Error>)
        requires
            old(self).wf(),
        ensures
            final(self).wf(),
            final(self).page_map() == old(self).page_map(),
            old(self).spec_next_owner_id() == u64::MAX ==> r == Err::<PageOwnerId, Error>(
                Error::IdOverflow,
            ) && final(self).guests() == old(self).guests() && final(self).spec_next_owner_id()
                == old(self).spec_next_owner_id(),
            old(self).spec_next_owner_id() < u64::MAX ==> final(self).spec_next_owner_id() == old(
                self,
            ).spec_next_owner_id() + 1,
            old(self).spec_next_owner_id() < u64::MAX && old(self).guests().len()
                == MAX_ACTIVE_GUESTS ==> r == Err::<PageOwnerId, Error>(Error::GuestOverflow)
                && final(self).guests() == old(self).guests(),
            old(self).spec_next_owner_id() < u64::MAX && old(self).guests().len()
                < MAX_ACTIVE_GUESTS ==> r == Ok::<PageOwnerId, Error>(
                PageOwnerId { id: old(self).spec_next_owner_id() },
            ) && final(self).guests() == old(self).guests().push(
                PageOwnerId { id: old(self).spec_next_owner_id() },
            ),
    {
        let id = PageOwnerId { id: self.next_owner_id };
        if self.next_owner_id == u64::MAX {
            return Err(Error::IdOverflow);
        }
        self.next_owner_id = self.next_owner_id + 1;
        if self.active_guests.len() >= MAX_ACTIVE_GUESTS {
            return Err(Error::GuestOverflow);
        }
        self.active_guests.push(id);
        Ok(id)
    }

    /// Removes a guest from the live guests. Its pages are not touched.
    /// The host VM always stays live.
    pub fn rm_active_guest(&mut self, remove_id: PageOwnerId)
        requires
            old(self).wf(),
        ensures
            final(self).wf(),
            final(self).page_map() == old(self).page_map(),
            final(self).spec_next_owner_id() == old(self).spec_next_owner_id(),
            final(self).guests() == (if remove_id.id != HOST_ID && old(self).guests().contains(
                remove_id,
            ) {
                old(self).guests().remove(old(self).guests().index_of(remove_id))
            } else {
                old(self).guests()
            }),
            forall|id: PageOwnerId|
                final(self).guests().contains(id) <==> old(self).guests().contains(id) && (id
                    != remove_id || id.id == HOST_ID),
    {
        if remove_id.id == HOST_ID {
            return ;
        }
        let mut i: usize = 0;
        while i < self.active_guests.len()
            invariant
                *self == *old(self),
                self.wf(),
                remove_id.id != HOST_ID,
                i <= self.active_guests@.len(),
                forall|j: int| 0 <= j < i ==> self.active_guests@[j] != remove_id,
            decreases self.active_guests@.len() - i,
        {
            if self.active_guests[i].id == remove_id.id {
                let ghost before = self.active_guests@;
                proof {
                    assert(self.guests() == before);
                    assert(before[0].id == HOST_ID);
                    assert(i > 0);
                    assert(before[i as int] == remove_id);
                    assert(before.contains(remove_id));
                    let k = before.index_of(remove_id);
                    assert(0 <= k < before.len() && before[k] == remove_id);
                    if k < i {
                        assert(before[k].id < before[i as int].id);
                    } else if k > i {
                        assert(before[i as int].id < before[k].id);
                    }
                }
                self.active_guests.remove(i);
                proof {
                    let after = self.active_guests@;
                    assert(after == before.remove(i as int));
                    assert forall|id: PageOwnerId| after.contains(id) <==> before.contains(id)
                        && id != remove_id by {
                        if after.contains(id) {
                            let j = choose|j: int| 0 <= j < after.len() && after[j] == id;
                            if j < i {
                                assert(before[j] == id);
                            } else {
                                assert(before[j + 1] == id);
                                assert(before[i as int].id < before[j + 1].id);
                            }
                        }
                        if before.contains(id) && id != remove_id {
                            let j = choose|j: int| 0 <= j < before.len() && before[j] == id;
                            if j < i {
                                assert(after[j] == id);
                            } else {
                                assert(after[j - 1] == id);
                            }
                        }
                    }
                    assert forall|a: int, b: int| 0 <= a < b < after.len() implies (
                    #[trigger] after[a]).id < (#[trigger] after[b]).id by {
                        let a0 = if a < i { a } else { a + 1 };
                        let b0 = if b < i { b } else { b + 1 };
                        assert(after[a] == before[a0]);
                        assert(after[b] == before[b0]);
                    }
                    assert forall|a: int| 0 < a < after.len() implies FIRST_GUEST_ID <= (
                    #[trigger] after[a]).id < self.next_owner_id by {
                        let a0 = if a < i { a } else { a + 1 };
                        assert(after[a] == before[a0]);
                    }
                    assert(after[0] == before[0]);
                }
                return ;
            }
            i = i + 1;
        }
        proof {
            assert(!self.active_guests@.contains(remove_id));
        }
    }

    /// Makes `owner` the current owner of the page at `addr`. Owners at the
    /// top of the page's stack that have exited are dropped first, so that
    /// they do not take up room.
    pub fn set_page_owner(&mut self, addr: PageAddr, owner: PageOwnerId) -> (r: Result<(), Error>)
        requires
            old(self).wf(),
        ensures
            final(self).wf(),
            final(self).guests() == old(self).guests(),
            final(self).spec_next_owner_id() == old(self).spec_next_owner_id(),
            final(self).page_map().spec_base() == old(self).page_map().spec_base(),
            final(self).pages_view().len() == old(self).pages_view().len(),
            old(self).index_of(addr) is None ==> r == Err::<(), Error>(Error::InvalidPage(addr))
                && final(self).pages_view() == old(self).pages_view(),
            old(self).index_of(addr) matches Some(i) ==> {
                let before = old(self).pages_view()[i];
                let after = final(self).pages_view()[i];
                let kept = pruned(before.owners@, old(self).guests());
                &&& r == set_owner_result(before.mem_type, kept)
                &&& forall|j: int|
                    0 <= j < old(self).pages_view().len() && j != i ==> final(self).pages_view()[j]
                        == old(self).pages_view()[j]
                &&& after.mem_type == before.mem_type
                &&& before.mem_type == MemType::Reserved ==> final(self).pages_view() == old(
                    self,
                ).pages_view()
                &&& after.owners@ == (if r is Ok {
                    kept.push(owner)
                } else {
                    kept
                })
                &&& after.state == (if kept.len() > 0 {
                    before.state
                } else if r is Ok {
                    PageState::Clean
                } else {
                    PageState::Free
                })
            },
    {
        let i: usize = match self.pages.find(addr) {
            Some(i) => i,
            None => {
                return Err(Error::InvalidPage(addr));
            },
        };
        if self.pages.page(i).is_reserved() {
            proof {
                assert(old(self).pages_view()[i as int].wf());
            }
            return Err(Error::ReservedPage);
        }
        self.pages.pop_exited_owners(i, &self.active_guests);
        self.pages.push_owner(i, owner)
    }

    /// Removes the current owner of the page at `addr` and returns it; the
    /// page goes back to the owner before it. The map must have the page.
    pub fn pop_owner(&mut self, addr: PageAddr) -> (r: Result<PageOwnerId, Error>)
        requires
            old(self).wf(),
            old(self).index_of(addr) is Some,
        ensures
            final(self).wf(),
            final(self).guests() == old(self).guests(),
            final(self).spec_next_owner_id() == old(self).spec_next_owner_id(),
            final(self).page_map().spec_base() == old(self).page_map().spec_base(),
            final(self).pages_view().len() == old(self).pages_view().len(),
            ({
                let i = old(self).index_of(addr).unwrap();
                let before = old(self).pages_view()[i];
                let after = final(self).pages_view()[i];
                &&& r == pop_owner_result(before)
                &&& forall|j: int|
                    0 <= j < old(self).pages_view().len() && j != i ==> final(self).pages_view()[j]
                        == old(self).pages_view()[j]
                &&& r is Err ==> final(self).pages_view() == old(self).pages_view()
                &&& r is Ok ==> after.owners@ == before.owners@.drop_last() && after.mem_type
                    == before.mem_type && after.state == before.state
            }),
    {
        let i: usize = match self.pages.find(addr) {
            Some(i) => i,
            None => {
                proof {
                    assert(false);
                }
                return Err(Error::InvalidPage(addr));
            },
        };
        let r = self.pages.pop_owner(i);
        proof {
            if r is Err {
                assert(self.pages@ =~= old(self).pages@);
            }
        }
        r
    }

    /// The current owner of the page at `addr`: the topmost owner that is
    /// still live. `None` if the map does not have the page or if none of
    /// its owners is live.
    pub fn owner(&self, addr: PageAddr) -> (r: Option<PageOwnerId>)
        ensures
            r == (match self.index_of(addr) {
                Some(i) => current_owner(self.pages_view()[i].owners@, self.guests()),
                None => None,
            }),
    {
        match self.pages.get(addr) {
            Some(info) => info.find_owner(&self.active_guests),
            None => None,
        }
    }

    /// The kind of memory behind the page at `addr`, or `None` if the map
    /// does not have the page.
    pub fn mem_type(&self, addr: PageAddr) -> (r: Option<MemType>)
        ensures
            r == (match self.index_of(addr) {
                Some(i) => Some(self.pages_view()[i].mem_type),
                None => None,
            }),
    {
        match self.pages.get(addr) {
            Some(info) => Some(info.mem_type()),
            None => None,
        }
    }

    /// The life-cycle state of the page at `addr`, or `None` if the map does
    /// not have the page.
    pub fn page_state(&self, addr: PageAddr) -> (r: Option<PageState>)
        ensures
            r == (match self.index_of(addr) {
                Some(i) => Some(self.pages_view()[i].state),
                None => None,
            }),
    {
        match self.pages.get(addr) {
            Some(info) => Some(info.state()),
            None => None,
        }
    }

    /// Records that the page at `addr` has been inserted into a page table
    /// (`mapped == true`) or removed from one. Only a clean page can be
    /// mapped and only a mapped page unmapped; the return value says whether
    /// the state of the page changed.
    pub fn mark_page(&mut self, addr: PageAddr, mapped: bool) -> (r: bool)
        requires
            old(self).wf(),
        ensures
            final(self).wf(),
            final(self).guests() == old(self).guests(),
            final(self).spec_next_owner_id() == old(self).spec_next_owner_id(),
            final(self).page_map().spec_base() == old(self).page_map().spec_base(),
            final(self).pages_view().len() == old(self).pages_view().len(),
            old(self).index_of(addr) is None ==> !r && final(self).pages_view() == old(
                self,
            ).pages_view(),
            old(self).index_of(addr) matches Some(i) ==> {
                let before = old(self).pages_view()[i];
                let after = final(self).pages_view()[i];
                &&& r == (before.state == (if mapped {
                    PageState::Clean
                } else {
                    PageState::Mapped
                }))
                &&& forall|j: int|
                    0 <= j < old(self).pages_view().len() && j != i ==> final(self).pages_view()[j]
                        == old(self).pages_view()[j]
                &&& after.mem_type == before.mem_type
                &&& after.owners@ == before.owners@
                &&& after.state == (if !r {
                    before.state
                } else if mapped {
                    PageState::Mapped
                } else {
                    PageState::Dirty
                })
            },
    {
        match self.pages.find(addr) {
            Some(i) => self.pages.mark(i, mapped),
            None => false,
        }
    }
}

/// A page whose top owner is live belongs to that owner.
pub proof fn lemma_owner_is_live_top(owners: Seq<PageOwnerId>, guests: Seq<PageOwnerId>)
    requires
        owners.len() > 0,
        is_active(guests, owners.last()),
    ensures
        current_owner(owners, guests) == Some(owners.last()),
{
}

/// A page whose top owner has exited belongs to whoever owns the page
/// without that owner: the first live owner below the top, or nobody.
pub proof fn lemma_owner_skips_exited_top(owners: Seq<PageOwnerId>, guests: Seq<PageOwnerId>)
    requires
        owners.len() > 0,
        !is_active(guests, owners.last()),
    ensures
        current_owner(owners, guests) == current_owner(owners.drop_last(), guests),
{
}

/// The owner of a page, if it has one, is one of its owners, is live, and
/// every owner above it has exited.
pub proof fn lemma_current_owner(owners: Seq<PageOwnerId>, guests: Seq<PageOwnerId>)
    ensures
        match current_owner(owners, guests) {
            Some(id) => exists|k: int|
                0 <= k < owners.len() && #[trigger] owners[k] == id && is_active(guests, id)
                    && forall|j: int| k < j < owners.len()
                        ==> !is_active(guests, #[trigger] owners[j]),
            None => forall|j: int| 0 <= j < owners.len()
                ==> !is_active(guests, #[trigger] owners[j]),
        },
    decreases owners.len(),
{
    if owners.len() > 0 {
        if is_active(guests, owners.last()) {
            assert(owners[owners.len() - 1] == owners.last());
        } else {
            let rest = owners.drop_last();
            lemma_current_owner(rest, guests);
            match current_owner(rest, guests) {
                Some(id) => {
                    let k = choose|k: int|
                        0 <= k < rest.len() && #[trigger] rest[k] == id && is_active(guests, id)
                            && forall|j: int|
                            k < j < rest.len() ==> !is_active(guests, #[trigger] rest[j]);
                    assert(owners[k] == id);
                    assert forall|j: int| k < j < owners.len() implies !is_active(
                        guests,
                        #[trigger] owners[j],
                    ) by {
                        if j < rest.len() {
                            assert(rest[j] == owners[j]);
                        }
                    }
                },
                None => {
                    assert forall|j: int| 0 <= j < owners.len() implies !is_active(
                        guests,
                        #[trigger] owners[j],
                    ) by {
                        if j < rest.len() {
                            assert(rest[j] == owners[j]);
                        }
                    }
                },
            }
        }
    }
}

/// Pruning keeps the owner of a page: the exited owners that it drops are
/// the ones that were skipped anyway.
pub proof fn lemma_pruned_keeps_owner(owners: Seq<PageOwnerId>, guests: Seq<PageOwnerId>)
    ensures
        current_owner(pruned(owners, guests), guests) == current_owner(owners, guests),
        pruned(owners, guests).len() <= owners.len(),
        pruned(owners, guests).len() > 0 ==> is_active(guests, pruned(owners, guests).last()),
    decreases owners.len(),
{
    if owners.len() > 0 && !is_active(guests, owners.last()) {
        lemma_pruned_keeps_owner(owners.drop_last(), guests);
    }
}

/// The ownership of a reserved page never changes: both `set_page_owner` and
/// `pop_owner` answer `ReservedPage` for it.
pub proof fn lemma_reserved_page_is_refused(info: PageInfo, guests: Seq<PageOwnerId>)
    requires
        info.mem_type == MemType::Reserved,
    ensures
        set_owner_result(info.mem_type, pruned(info.owners@, guests)) == Err::<(), Error>(
            Error::ReservedPage,
        ),
        pop_owner_result(info) == Err::<PageOwnerId, Error>(Error::ReservedPage),
{
}

} // verus!
