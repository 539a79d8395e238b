//! Addresses, page sizes, page owners and page ranges.
//!
//! Everything in the hypervisor that touches memory speaks in terms of the
//! types defined here: a `PageAddr` is a 64-bit address aligned to 4 KiB, a
//! `Page` is one 4 KiB frame and a `SequentialPages` is a run of frames.

use vstd::prelude::*;

verus! {

/// Number of bytes in the smallest page.
pub const PAGE_SIZE_4K: u64 = 4096;

/// The page sizes of the Sv48 translation scheme.
#[derive(Clone, Copy, Debug, PartialEq, Eq, Structural)]
pub enum PageSize {
    /// 4 KiB, the only size used for dynamic mappings.
    Size4k,
    /// 2 MiB.
    Size2M,
    /// 1 GiB.
    Size1G,
    /// 512 GiB.
    Size512G,
}

impl PageSize {
    /// The number of bytes covered by a page of this size.
    pub open spec fn spec_bytes(self) -> u64 {
        match self {
            PageSize::Size4k => 0x1000,
            PageSize::Size2M => 0x20_0000,
            PageSize::Size1G => 0x4000_0000,
            PageSize::Size512G => 0x80_0000_0000,
        }
    }

    /// The number of bytes covered by a page of this size.
    #[verifier::when_used_as_spec(spec_bytes)]
    pub fn bytes(self) -> (r: u64)
        ensures
            r == self.spec_bytes(),
    {
        match self {
            PageSize::Size4k => 0x1000,
            PageSize::Size2M => 0x20_0000,
            PageSize::Size1G => 0x4000_0000,
            PageSize::Size512G => 0x80_0000_0000,
        }
    }

    /// True if `val` is a multiple of this page size.
    pub open spec fn spec_is_aligned(self, val: u64) -> bool {
        val as int % self.spec_bytes() as int == 0
    }

    /// True if `val` is a multiple of this page size.
    #[verifier::when_used_as_spec(spec_is_aligned)]
    pub fn is_aligned(self, val: u64) -> (r: bool)
        ensures
            r == self.spec_is_aligned(val),
    {
        val % self.bytes() == 0
    }

    /// `val` rounded down to a multiple of this page size.
    pub open spec fn spec_round_down(self, val: u64) -> u64 {
        (val as int - val as int % self.spec_bytes() as int) as u64
    }

    /// Rounds `val` down to a multiple of this page size.
    #[verifier::when_used_as_spec(spec_round_down)]
    pub fn round_down(self, val: u64) -> (r: u64)
        ensures
            r == self.spec_round_down(val),
            r <= val,
            val - r < self.spec_bytes(),
            self.spec_is_aligned(r),
    {
        let size: u64 = self.bytes();
        let rem: u64 = val % size;
        let r: u64 = val - rem;
        assert(r as int % size as int == 0) by (nonlinear_arith)
            requires
                r == val - val % size,
                size > 0,
        ;
        r
    }

    /// `val` rounded up to a multiple of this page size, as an unbounded integer.
    pub open spec fn spec_round_up(self, val: u64) -> int {
        if val as int % self.spec_bytes() as int == 0 {
            val as int
        } else {
            val as int - val as int % self.spec_bytes() as int + self.spec_bytes() as int
        }
    }

    /// Rounds `val` up to a multiple of this page size. `None` if the result
    /// does not fit in 64 bits.
    pub fn round_up(self, val: u64) -> (r: Option<u64>)
        ensures
            r is Some <==> self.spec_round_up(val) <= u64::MAX,
            r matches Some(v) ==> v == self.spec_round_up(val) && v >= val
                && self.spec_is_aligned(v),
    {
        let size: u64 = self.bytes();
        let rem: u64 = val % size;
        if rem == 0 {
            Some(val)
        } else {
            let down: u64 = val - rem;
            assert(down as int % size as int == 0) by (nonlinear_arith)
                requires
                    down == val - val % size,
                    size > 0,
            ;
            if down > u64::MAX - size {
                None
            } else {
                let up: u64 = down + size;
                assert(up as int % size as int == 0) by (nonlinear_arith)
                    requires
                        up == down + size,
                        down as int % size as int == 0,
                        size > 0,
                ;
                Some(up)
            }
        }
    }

    /// The number of 4 KiB pages needed to hold `bytes` bytes.
    pub open spec fn spec_num_4k_pages(bytes: u64) -> u64 {
        if bytes as int % 4096 == 0 {
            (bytes as int / 4096) as u64
        } else {
            (bytes as int / 4096 + 1) as u64
        }
    }

    /// The number of 4 KiB pages needed to hold `bytes` bytes.
    #[verifier::when_used_as_spec(spec_num_4k_pages)]
    pub fn num_4k_pages(bytes: u64) -> (r: u64)
        ensures
            r == Self::spec_num_4k_pages(bytes),
            r as int * 4096 >= bytes,
            r as int * 4096 < bytes + 4096,
    {
        let whole: u64 = bytes / PAGE_SIZE_4K;
        if bytes % PAGE_SIZE_4K == 0 {
            whole
        } else {
            whole + 1
        }
    }
}

/// A 64-bit address that is aligned to 4 KiB. It names a page either in the
/// physical address space or in a virtual one; the surrounding type says which.
#[derive(Clone, Copy, Debug, PartialEq, Eq, Structural)]
pub struct PageAddr {
    bits: u64,
}

impl PageAddr {
    #[verifier::type_invariant]
    pub closed spec fn aligned(self) -> bool {
        self.bits as int % 4096 == 0
    }

    /// The raw address.
    pub closed spec fn spec_bits(&self) -> u64 {
        self.bits
    }

    /// Two page addresses with the same raw address are the same.
    pub proof fn lemma_same_bits(a: PageAddr, b: PageAddr)
        requires
            a.spec_bits() == b.spec_bits(),
        ensures
            a == b,
    {
    }

    /// The page address `bits`, or `None` if `bits` is not 4 KiB-aligned.
    pub fn new(bits: u64) -> (r: Option<PageAddr>)
        ensures
            r is Some <==> bits as int % 4096 == 0,
            r matches Some(a) ==> a.spec_bits() == bits,
    {
        if bits % PAGE_SIZE_4K == 0 {
            Some(PageAddr { bits })
        } else {
            None
        }
    }

    /// The address of the page that contains `bits`.
    pub fn with_round_down(bits: u64) -> (r: PageAddr)
        ensures
            r.spec_bits() == PageSize::Size4k.spec_round_down(bits),
    {
        let rem: u64 = bits % PAGE_SIZE_4K;
        let down: u64 = bits - rem;
        assert(down as int % 4096 == 0);
        PageAddr { bits: down }
    }

    /// The raw address; always a multiple of 4096.
    #[verifier::when_used_as_spec(spec_bits)]
    pub fn bits(&self) -> (r: u64)
        ensures
            r == self.spec_bits(),
            r as int % 4096 == 0,
    {
        proof {
            use_type_invariant(self);
        }
        self.bits
    }

    /// The index of this page, counting 4 KiB pages from address zero.
    pub open spec fn spec_index(&self) -> u64 {
        (self.spec_bits() as int / 4096) as u64
    }

    /// The index of this page, counting 4 KiB pages from address zero.
    #[verifier::when_used_as_spec(spec_index)]
    pub fn index(&self) -> (r: u64)
        ensures
            r == self.spec_index(),
            r as int * 4096 == self.spec_bits(),
    {
        proof {
            use_type_invariant(self);
        }
        self.bits / PAGE_SIZE_4K
    }

    /// The page with index `index`, or `None` if its address does not fit in 64 bits.
    pub fn from_index(index: u64) -> (r: Option<PageAddr>)
        ensures
            r is Some <==> index as int * 4096 <= u64::MAX,
            r matches Some(a) ==> a.spec_bits() == index as int * 4096 && a.spec_index() == index,
    {
        if index > u64::MAX / PAGE_SIZE_4K {
            None
        } else {
            let bits: u64 = index * PAGE_SIZE_4K;
            Some(PageAddr { bits })
        }
    }

    /// The address `count` pages after this one, or `None` if it does not fit
    /// in 64 bits.
    pub fn checked_add_pages(&self, count: u64) -> (r: Option<PageAddr>)
        ensures
            r is Some <==> self.spec_bits() + count as int * 4096 <= u64::MAX,
            r matches Some(a) ==> a.spec_bits() == self.spec_bits() + count as int * 4096,
    {
        proof {
            use_type_invariant(self);
        }
        if count > (u64::MAX - self.bits) / PAGE_SIZE_4K {
            None
        } else {
            let bits: u64 = self.bits + count * PAGE_SIZE_4K;
            Some(PageAddr { bits })
        }
    }
}

/// Identifies the owner of a page: the host VM, the hypervisor, or a guest.
#[derive(Clone, Copy, Debug, PartialEq, Eq, Structural)]
pub struct PageOwnerId {
    /// The raw identifier.
    pub id: u64,
}

/// The raw identifier of the host VM.
pub const HOST_ID: u64 = 0;

/// The raw identifier of the hypervisor.
pub const HYPERVISOR_ID: u64 = 1;

impl PageOwnerId {
    /// The identifier of the host VM.
    pub fn host() -> (r: PageOwnerId)
        ensures
            r.id == HOST_ID,
    {
        PageOwnerId { id: HOST_ID }
    }

    /// The identifier of the hypervisor itself.
    pub fn hypervisor() -> (r: PageOwnerId)
        ensures
            r.id == HYPERVISOR_ID,
    {
        PageOwnerId { id: HYPERVISOR_ID }
    }

    /// The identifier of a guest. The two reserved values are refused.
    pub fn new(id: u64) -> (r: Option<PageOwnerId>)
        ensures
            r is Some <==> id != HOST_ID && id != HYPERVISOR_ID,
            r matches Some(o) ==> o.id == id,
    {
        if id == HOST_ID || id == HYPERVISOR_ID {
            None
        } else {
            Some(PageOwnerId { id })
        }
    }

    /// True for the host VM.
    pub fn is_host(&self) -> (r: bool)
        ensures
            r == (self.id == HOST_ID),
    {
        self.id == HOST_ID
    }

    /// The raw identifier.
    pub fn raw(&self) -> (r: u64)
        ensures
            r == self.id,
    {
        self.id
    }
}

/// What kind of memory backs a page.
#[derive(Clone, Copy, Debug, PartialEq, Eq, Structural)]
pub enum MemType {
    /// Ordinary RAM.
    Ram,
    /// Device memory.
    Mmio,
    /// Memory that the firmware or the hypervisor image occupies; its
    /// ownership can never change.
    Reserved,
}

/// One 4 KiB page of physical memory that the holder may use.
#[derive(Clone, Copy, Debug, PartialEq, Eq, Structural)]
pub struct Page {
    /// Where the page starts.
    pub addr: PageAddr,
}

impl Page {
    /// The page at `addr`.
    pub fn new(addr: PageAddr) -> (r: Page)
        ensures
            r.addr == addr,
    {
        Page { addr }
    }

    /// Where the page starts.
    pub fn addr(&self) -> (r: PageAddr)
        ensures
            r == self.addr,
    {
        self.addr
    }
}

/// A run of 4 KiB pages that follow each other in physical memory.
#[derive(Clone, Copy, Debug, PartialEq, Eq, Structural)]
pub struct SequentialPages {
    base: PageAddr,
    count: u64,
}

impl SequentialPages {
    #[verifier::type_invariant]
    pub closed spec fn fits(self) -> bool {
        self.base.spec_bits() + self.count as int * 4096 <= u64::MAX
    }

    /// The first page of the run.
    pub closed spec fn spec_base(&self) -> PageAddr {
        self.base
    }

    /// The number of pages in the run.
    pub closed spec fn spec_len(&self) -> u64 {
        self.count
    }

    /// The addresses of the pages of the run, in ascending order.
    pub open spec fn page_addrs(self) -> Seq<int> {
        Seq::new(self.spec_len() as nat, |i: int| self.spec_base().spec_bits() + i * 4096)
    }

    /// The run of `count` pages that starts at `base`, or `None` if its end
    /// does not fit in 64 bits.
    pub fn new(base: PageAddr, count: u64) -> (r: Option<SequentialPages>)
        ensures
            r is Some <==> base.spec_bits() + count as int * 4096 <= u64::MAX,
            r matches Some(p) ==> p.spec_base() == base && p.spec_len() == count,
    {
        if count > (u64::MAX - base.bits()) / PAGE_SIZE_4K {
            None
        } else {
            Some(SequentialPages { base, count })
        }
    }

    /// The run from `start` up to, but not including, `end`. `None` if `end`
    /// lies before `start`.
    pub fn from_page_range(start: PageAddr, end: PageAddr) -> (r: Option<SequentialPages>)
        ensures
            r is Some <==> start.spec_bits() <= end.spec_bits(),
            r matches Some(p) ==> p.spec_base() == start && p.spec_len() as int * 4096
                == end.spec_bits() - start.spec_bits(),
    {
        let s: u64 = start.bits();
        let e: u64 = end.bits();
        if e < s {
            None
        } else {
            let count: u64 = (e - s) / PAGE_SIZE_4K;
            Some(SequentialPages { base: start, count })
        }
    }

    /// The run that holds the single page `page`.
    pub fn from_page(page: Page) -> (r: SequentialPages)
        requires
            page.addr.spec_bits() + 4096 <= u64::MAX,
        ensures
            r.spec_base() == page.addr,
            r.spec_len() == 1,
    {
        SequentialPages { base: page.addr, count: 1 }
    }

    /// The first page of the run.
    #[verifier::when_used_as_spec(spec_base)]
    pub fn base(&self) -> (r: PageAddr)
        ensures
            r == self.spec_base(),
    {
        self.base
    }

    /// The number of pages in the run.
    #[verifier::when_used_as_spec(spec_len)]
    pub fn len(&self) -> (r: u64)
        ensures
            r == self.spec_len(),
            self.spec_base().spec_bits() + r as int * 4096 <= u64::MAX,
    {
        proof {
            use_type_invariant(self);
        }
        self.count
    }

    /// The number of bytes in the run.
    pub fn length_bytes(&self) -> (r: u64)
        ensures
            r == self.spec_len() as int * 4096,
    {
        proof {
            use_type_invariant(self);
        }
        self.count * PAGE_SIZE_4K
    }

    /// The page at position `i` of the run.
    pub fn get(&self, i: u64) -> (r: Option<Page>)
        ensures
            r is Some <==> i < self.spec_len(),
            r matches Some(p) ==> p.addr.spec_bits() == self.page_addrs()[i as int],
    {
        proof {
            use_type_invariant(self);
        }
        if i < self.count {
            match self.base.checked_add_pages(i) {
                Some(addr) => Some(Page { addr }),
                None => None,
            }
        } else {
            None
        }
    }

    /// The pages of the run, in ascending order.
    pub fn pages(&self) -> (r: Vec<Page>)
        ensures
            r.len() == self.spec_len(),
            forall|i: int| 0 <= i < r.len()
                ==> (#[trigger] r[i]).addr.spec_bits() == self.page_addrs()[i],
    {
        proof {
            use_type_invariant(self);
        }
        let mut out: Vec<Page> = Vec::new();
        let mut i: u64 = 0;
        while i < self.count
            invariant
                i <= self.count,
                self.fits(),
                out.len() == i,
                forall|j: int| 0 <= j < out.len()
                    ==> (#[trigger] out[j]).addr.spec_bits() == self.base.spec_bits() + j * 4096,
            decreases self.count - i,
        {
            let addr = self.base.checked_add_pages(i);
            match addr {
                Some(a) => out.push(Page { addr: a }),
                None => {
                    assert(false);
                },
            }
            i = i + 1;
        }
        out
    }
}

} // verus!
