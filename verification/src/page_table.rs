//! First-stage Sv48 page tables.
//!
//! A page table is kept as what it holds rather than as raw frames: which
//! intermediate tables exist, in which frame each of them lives, and which
//! leaf entry each virtual page has. Mapping a range happens in two steps.
//! `map_range` creates the intermediate tables of the range, taking a frame
//! for each new table from a pool, and hands out a `FirstStageMapper`. With
//! the mapper every page of the range can then be given its leaf entry, and
//! that step cannot run out of frames.

use crate::pages::{Page, PageAddr, PageOwnerId, PageSize, SequentialPages};
use std::collections::HashMap;
use vstd::prelude::*;
use vstd::std_specs::hash::*;

verus! {

broadcast use vstd::std_specs::hash::group_hash_axioms;

/// The first address above the lower half of the Sv48 address space.
pub const SV48_LOW_END: u64 = 0x0000_8000_0000_0000;

/// The first address of the upper half of the Sv48 address space.
pub const SV48_HIGH_START: u64 = 0xffff_8000_0000_0000;

/// The first physical address that does not fit in a page table entry.
pub const PHYS_ADDR_END: u64 = 0x0100_0000_0000_0000;

/// The number of entries of a table.
pub const ENTRIES_PER_TABLE: u64 = 512;

/// The paging mode that the `satp` register holds for Sv48.
pub const SATP_MODE_SV48: u64 = 9;

/// Errors of page table operations.
#[derive(Clone, Copy, Debug, PartialEq, Eq, Structural)]
pub enum Error {
    /// Only 4 KiB pages can be mapped.
    PageSizeNotSupported(PageSize),
    /// The address, or a part of the range, is not a legal Sv48 address, or
    /// the physical address does not fit in a page table entry.
    InvalidAddress,
    /// A page of the range is mapped already.
    MappingExists,
    /// The pool ran out of frames for intermediate tables.
    InsufficientPtePages,
    /// The address is outside the range that the mapper was made for.
    OutOfMapRange,
    /// The intermediate tables for the address do not exist.
    TableMissing,
}

/// What may be done with a mapped page.
#[derive(Clone, Copy, Debug, PartialEq, Eq, Structural)]
pub enum PteLeafPerms {
    /// Supervisor, read only.
    R,
    /// Supervisor, read and write.
    RW,
    /// Supervisor, read and execute.
    RX,
    /// Supervisor, read, write and execute.
    RWX,
    /// User, read only.
    UR,
    /// User, read and write.
    URW,
    /// User, read and execute.
    URX,
    /// User, read, write and execute.
    URWX,
}

/// Page table entry bit: the entry is valid.
pub const PTE_VALID: u64 = 0x1;

/// Page table entry bit: the page can be read.
pub const PTE_READ: u64 = 0x2;

/// Page table entry bit: the page can be written.
pub const PTE_WRITE: u64 = 0x4;

/// Page table entry bit: the page can be executed.
pub const PTE_EXECUTE: u64 = 0x8;

/// Page table entry bit: the page belongs to user mode.
pub const PTE_USER: u64 = 0x10;

impl PteLeafPerms {
    /// The permission bits of a page table entry.
    pub open spec fn spec_bits(self) -> u64 {
        match self {
            PteLeafPerms::R => 0x02,
            PteLeafPerms::RW => 0x06,
            PteLeafPerms::RX => 0x0a,
            PteLeafPerms::RWX => 0x0e,
            PteLeafPerms::UR => 0x12,
            PteLeafPerms::URW => 0x16,
            PteLeafPerms::URX => 0x1a,
            PteLeafPerms::URWX => 0x1e,
        }
    }

    /// The permission bits of a page table entry.
    #[verifier::when_used_as_spec(spec_bits)]
    pub fn bits(self) -> (r: u64)
        ensures
            r == self.spec_bits(),
    {
        match self {
            PteLeafPerms::R => 0x02,
            PteLeafPerms::RW => 0x06,
            PteLeafPerms::RX => 0x0a,
            PteLeafPerms::RWX => 0x0e,
            PteLeafPerms::UR => 0x12,
            PteLeafPerms::URW => 0x16,
            PteLeafPerms::URX => 0x1a,
            PteLeafPerms::URWX => 0x1e,
        }
    }
}

/// The low ten bits of a page table entry.
#[derive(Clone, Copy, Debug, PartialEq, Eq, Structural)]
pub struct PteFieldBits {
    /// The bits.
    pub bits: u64,
}

impl PteFieldBits {
    /// The bits of a valid leaf entry with the given permissions.
    pub open spec fn spec_leaf_with_perms(perms: PteLeafPerms) -> PteFieldBits {
        PteFieldBits { bits: (perms.spec_bits() + 1) as u64 }
    }

    /// The bits of a valid leaf entry with the given permissions.
    #[verifier::when_used_as_spec(spec_leaf_with_perms)]
    pub fn leaf_with_perms(perms: PteLeafPerms) -> (r: PteFieldBits)
        ensures
            r == Self::spec_leaf_with_perms(perms),
    {
        PteFieldBits { bits: perms.bits() + PTE_VALID }
    }

    /// The bits.
    pub fn bits(&self) -> (r: u64)
        ensures
            r == self.bits,
    {
        self.bits
    }
}

/// A leaf entry: where a virtual page is mapped to and with which bits.
#[derive(Clone, Copy, Debug, PartialEq, Eq, Structural)]
pub struct LeafPte {
    /// The physical page.
    pub paddr: PageAddr,
    /// The low bits of the entry.
    pub fields: PteFieldBits,
}

impl LeafPte {
    /// The entry as the 64-bit word that the hardware reads: the page number
    /// from bit 10 up, the field bits below.
    pub open spec fn spec_encoded(self) -> int {
        self.paddr.spec_bits() / 4096 * 1024 + self.fields.bits
    }

    /// The entry as the 64-bit word that the hardware reads.
    pub fn encoded(&self) -> (r: u64)
        requires
            self.paddr.spec_bits() < PHYS_ADDR_END,
            self.fields.bits < 1024,
        ensures
            r == self.spec_encoded(),
    {
        self.paddr.bits() / 4096 * 1024 + self.fields.bits
    }
}

/// The number of the page of `vaddr` in the 48-bit address space, or `None`
/// if `vaddr` is not a legal Sv48 address: bits 63 to 47 must be equal.
pub open spec fn spec_vpn(vaddr: u64) -> Option<u64> {
    if vaddr < SV48_LOW_END {
        Some(vaddr / 4096)
    } else if vaddr >= SV48_HIGH_START {
        Some(((vaddr - 0xffff_0000_0000_0000) / 4096) as u64)
    } else {
        None
    }
}

/// The first page number after the half of the address space that the page
/// `vpn` lies in.
pub open spec fn half_end(vpn: u64) -> int {
    if vpn < 0x8_0000_0000 {
        0x8_0000_0000int
    } else {
        0x10_0000_0000int
    }
}

/// True if `count` pages from `vaddr` on are legal Sv48 addresses in one
/// half of the address space.
pub open spec fn range_valid(vaddr: u64, count: u64) -> bool {
    match spec_vpn(vaddr) {
        Some(vpn) => vpn + count <= half_end(vpn),
        None => false,
    }
}

/// The number of the page of `vaddr` in the 48-bit address space.
#[verifier::when_used_as_spec(spec_vpn)]
pub fn vpn_of(vaddr: u64) -> (r: Option<u64>)
    ensures
        r == spec_vpn(vaddr),
        r matches Some(v) ==> v < 0x10_0000_0000,
{
    if vaddr < SV48_LOW_END {
        Some(vaddr / 4096)
    } else if vaddr >= SV48_HIGH_START {
        Some((vaddr - 0xffff_0000_0000_0000) / 4096)
    } else {
        None
    }
}

/// The name of the table of the given level that the page `vpn` is
/// translated through. The table of level 1 holds the leaf entry of the
/// page, the table of level 3 hangs off the root.
pub open spec fn table_key(level: int, vpn: int) -> u64 {
    if level == 1 {
        (0x100_0000_0000 + vpn / 512) as u64
    } else if level == 2 {
        (0x200_0000_0000 + vpn / 0x4_0000) as u64
    } else {
        (0x300_0000_0000 + vpn / 0x800_0000) as u64
    }
}

/// True if `key` names one of the three tables that the page `vpn` is
/// translated through.
pub open spec fn is_page_key(key: u64, vpn: int) -> bool {
    key == table_key(1, vpn) || key == table_key(2, vpn) || key == table_key(3, vpn)
}

/// The names of the tables that the `count` pages from `vpn` on are
/// translated through.
pub open spec fn range_keys(vpn: int, count: int) -> Set<u64> {
    Set::new(|key: u64| exists|i: int| 0 <= i < count && #[trigger] is_page_key(key, vpn + i))
}

/// The number of tables that have to be created before the `count` pages
/// from `vpn` on can be mapped in a page table that has the tables `have`.
pub open spec fn missing_tables(have: Set<u64>, vpn: int, count: int) -> nat {
    range_keys(vpn, count).difference(have).len()
}

/// The physical pages that the pages from `vpn` up to `vpn + count` are
/// mapped to, in ascending order of the virtual pages. Pages that are not
/// mapped are passed over.
pub open spec fn mapped_pages(leaves: Map<u64, LeafPte>, vpn: int, count: int) -> Seq<PageAddr>
    decreases count,
{
    if count <= 0 {
        Seq::empty()
    } else {
        let rest = mapped_pages(leaves, vpn, count - 1);
        let last = (vpn + count - 1) as u64;
        if leaves.contains_key(last) {
            rest.push(leaves[last].paddr)
        } else {
            rest
        }
    }
}

/// An upper bound for the number of tables that have to be created to map
/// `num_pages` pages that follow each other, wherever they lie: on each of
/// the three levels the range can touch one table more than its size
/// suggests, at its start and at its end.
pub open spec fn spec_max_pte_pages(num_pages: u64) -> int {
    (num_pages / 512 + 2) + (num_pages / 0x4_0000 + 2) + (num_pages / 0x800_0000 + 2)
}

/// An upper bound for the number of tables that have to be created to map
/// `num_pages` pages that follow each other.
pub fn max_pte_pages(num_pages: u64) -> (r: u64)
    ensures
        r == spec_max_pte_pages(num_pages),
{
    (num_pages / 512 + 2) + (num_pages / 0x4_0000 + 2) + (num_pages / 0x800_0000 + 2)
}

/// A supply of frames for intermediate tables.
pub struct PtePagePool {
    pages: Vec<Page>,
    next: usize,
}

impl PtePagePool {
    /// The frames that are left, in the order in which they are handed out.
    pub closed spec fn view(&self) -> Seq<Page> {
        self.pages@.skip(self.next as int)
    }

    #[verifier::type_invariant]
    spec fn inv(&self) -> bool {
        self.next <= self.pages@.len()
    }

    /// A pool that hands out `pages` from the first to the last.
    pub fn from_pages(pages: Vec<Page>) -> (r: PtePagePool)
        ensures
            r@ == pages@,
    {
        PtePagePool { pages, next: 0 }
    }

    /// A pool that hands out the pages of `pages` in ascending order.
    pub fn from_sequential(pages: SequentialPages) -> (r: PtePagePool)
        requires
            pages.spec_len() <= usize::MAX,
        ensures
            r@.len() == pages.spec_len(),
            forall|i: int| 0 <= i < r@.len()
                ==> (#[trigger] r@[i]).addr.spec_bits() == pages.page_addrs()[i],
    {
        PtePagePool { pages: pages.pages(), next: 0 }
    }

    /// The number of frames that are left.
    pub fn len(&self) -> (r: usize)
        ensures
            r == self@.len(),
    {
        proof {
            use_type_invariant(self);
        }
        self.pages.len() - self.next
    }

    /// Hands out the next frame, if one is left.
    pub fn next(&mut self) -> (r: Option<Page>)
        ensures
            old(self)@.len() == 0 ==> r is None && final(self)@ == old(self)@,
            old(self)@.len() > 0 ==> r == Some(old(self)@[0]) && final(self)@ == old(self)@.skip(1),
    {
        proof {
            use_type_invariant(&*self);
        }
        if self.next < self.pages.len() {
            let page = self.pages[self.next];
            self.next = self.next + 1;
            proof {
                assert(self.pages@.skip(self.next as int) =~= old(self).pages@.skip(
                    old(self).next as int,
                ).skip(1));
            }
            Some(page)
        } else {
            None
        }
    }
}

fn map_has<V>(m: &HashMap<u64, V>, k: u64) -> (r: bool)
    ensures
        r == m@.contains_key(k),
{
    m.contains_key(&k)
}

fn map_put<V>(m: &mut HashMap<u64, V>, k: u64, v: V)
    ensures
        final(m)@ == old(m)@.insert(k, v),
{
    let _ = m.insert(k, v);
}

fn map_get<V: Copy>(m: &HashMap<u64, V>, k: u64) -> (r: Option<V>)
    ensures
        match r {
            Some(v) => m@.contains_key(k) && m@[k] == v,
            None => !m@.contains_key(k),
        },
{
    match m.get(&k) {
        Some(v) => Some(*v),
        None => None,
    }
}

fn map_del<V>(m: &mut HashMap<u64, V>, k: u64)
    ensures
        final(m)@ == old(m)@.remove(k),
{
    let _ = m.remove(&k);
}

/// The right to fill the leaf entries of a range of virtual pages whose
/// intermediate tables exist.
#[derive(Clone, Copy, Debug)]
pub struct FirstStageMapper {
    vaddr: PageAddr,
    count: u64,
}

impl FirstStageMapper {
    #[verifier::type_invariant]
    spec fn inv(&self) -> bool {
        range_valid(self.vaddr.spec_bits(), self.count)
    }

    /// The first virtual page of the range.
    pub closed spec fn spec_vaddr(&self) -> PageAddr {
        self.vaddr
    }

    /// The number of pages of the range.
    pub closed spec fn spec_count(&self) -> u64 {
        self.count
    }

    /// True if `vaddr` is a page of the range.
    pub open spec fn in_range(&self, vaddr: PageAddr) -> bool {
        self.spec_vaddr().spec_bits() <= vaddr.spec_bits() < self.spec_vaddr().spec_bits()
            + self.spec_count() * 4096
    }

    /// The first virtual page of the range.
    #[verifier::when_used_as_spec(spec_vaddr)]
    pub fn vaddr(&self) -> (r: PageAddr)
        ensures
            r == self.spec_vaddr(),
            range_valid(r.spec_bits(), self.spec_count()),
    {
        proof {
            use_type_invariant(self);
        }
        self.vaddr
    }

    /// The number of pages of the range.
    #[verifier::when_used_as_spec(spec_count)]
    pub fn count(&self) -> (r: u64)
        ensures
            r == self.spec_count(),
    {
        self.count
    }

    /// What `map_addr` answers.
    pub open spec fn map_addr_result(
        &self,
        table: &FirstStagePageTable,
        vaddr: PageAddr,
        paddr: PageAddr,
    ) -> Result<(), Error> {
        if !self.in_range(vaddr) {
            Err(Error::OutOfMapRange)
        } else if paddr.spec_bits() >= PHYS_ADDR_END {
            Err(Error::InvalidAddress)
        } else if !table.has_tables(spec_vpn(vaddr.spec_bits()).unwrap()) {
            Err(Error::TableMissing)
        } else {
            Ok(())
        }
    }

    /// Installs or replaces the leaf entry of the page `vaddr`: the page is
    /// mapped to `paddr` with the bits `fields`. Succeeds for every page of
    /// the range of the mapper, as long as `table` is the table that the
    /// mapper was made for.
    pub fn map_addr(
        &self,
        table: &mut FirstStagePageTable,
        vaddr: PageAddr,
        paddr: PageAddr,
        fields: PteFieldBits,
    ) -> (r: Result<(), Error>)
        requires
            old(table).wf(),
        ensures
            final(table).wf(),
            r == self.map_addr_result(old(table), vaddr, paddr),
            final(table).tables() == old(table).tables(),
            final(table).spec_root() == old(table).spec_root(),
            final(table).spec_owner() == old(table).spec_owner(),
            r is Ok ==> final(table)@ == old(table)@.insert(
                spec_vpn(vaddr.spec_bits()).unwrap(),
                LeafPte { paddr, fields },
            ),
            r is Err ==> final(table)@ == old(table)@,
    {
        proof {
            use_type_invariant(self);
        }
        let base: u64 = self.vaddr.bits();
        let v: u64 = vaddr.bits();
        if v < base || (v - base) / 4096 >= self.count {
            return Err(Error::OutOfMapRange);
        }
        if paddr.bits() >= PHYS_ADDR_END {
            return Err(Error::InvalidAddress);
        }
        let vpn: u64 = match vpn_of(v) {
            Some(vpn) => vpn,
            None => {
                proof {
                    assert(false);
                }
                return Err(Error::InvalidAddress);
            },
        };
        if !table.check_tables(vpn) {
            return Err(Error::TableMissing);
        }
        map_put(&mut table.leaves, vpn, LeafPte { paddr, fields });
        proof {
            assert forall|v: u64| #[trigger] table@.contains_key(v) implies v < 0x10_0000_0000
                && table.has_tables(v) && table@[v].paddr.spec_bits() < PHYS_ADDR_END by {
                if v != vpn {
                    assert(old(table)@.contains_key(v));
                    assert(old(table).has_tables(v));
                }
            }
        }
        Ok(())
    }
}

/// A first-stage Sv48 page table.
pub struct FirstStagePageTable {
    root: PageAddr,
    owner: PageOwnerId,
    tables: HashMap<u64, u64>,
    leaves: HashMap<u64, LeafPte>,
}

impl FirstStagePageTable {
    /// The leaf entries of the table, by the number of the virtual page.
    pub closed spec fn view(&self) -> Map<u64, LeafPte> {
        self.leaves@
    }

    /// The intermediate tables, by name, each with the address of its frame.
    pub closed spec fn tables(&self) -> Map<u64, u64> {
        self.tables@
    }

    /// The frame of the root table.
    pub closed spec fn spec_root(&self) -> PageAddr {
        self.root
    }

    /// The owner of the pages that the table maps.
    pub closed spec fn spec_owner(&self) -> PageOwnerId {
        self.owner
    }

    /// A page table has finitely many tables.
    pub proof fn lemma_tables_finite(&self)
        ensures
            self.tables().dom().finite(),
    {
    }

    /// True if the three tables exist that the page `vpn` is translated
    /// through.
    pub open spec fn has_tables(&self, vpn: u64) -> bool {
        &&& self.tables().contains_key(table_key(1, vpn as int))
        &&& self.tables().contains_key(table_key(2, vpn as int))
        &&& self.tables().contains_key(table_key(3, vpn as int))
    }

    /// True if the intermediate tables exist for every page of the range of
    /// `mapper`.
    pub open spec fn covers(&self, mapper: FirstStageMapper) -> bool {
        range_keys(
            spec_vpn(mapper.spec_vaddr().spec_bits()).unwrap() as int,
            mapper.spec_count() as int,
        ).subset_of(self.tables().dom())
    }

    /// The table is consistent: its root fits in the `satp` register, and
    /// every page that has a leaf entry has its intermediate tables and a
    /// physical address that fits in an entry.
    pub open spec fn wf(&self) -> bool {
        &&& self.spec_root().spec_bits() < PHYS_ADDR_END
        &&& forall|vpn: u64| #[trigger]
            self@.contains_key(vpn) ==> vpn < 0x10_0000_0000 && self.has_tables(vpn)
                && self@[vpn].paddr.spec_bits() < PHYS_ADDR_END
    }

    /// A page table without mappings whose root table lives in the frame
    /// `root`. The address of the frame must fit in the `satp` register.
    pub fn new(root: Page, owner: PageOwnerId) -> (r: Result<FirstStagePageTable, Error>)
        ensures
            r is Ok <==> root.addr.spec_bits() < PHYS_ADDR_END,
            r matches Err(e) ==> e == Error::InvalidAddress,
            r matches Ok(t) ==> t.wf() && t@ == Map::<u64, LeafPte>::empty() && t.tables()
                == Map::<u64, u64>::empty() && t.spec_root() == root.addr && t.spec_owner()
                == owner,
    {
        if root.addr.bits() >= PHYS_ADDR_END {
            return Err(Error::InvalidAddress);
        }
        Ok(
            FirstStagePageTable {
                root: root.addr,
                owner,
                tables: HashMap::new(),
                leaves: HashMap::new(),
            },
        )
    }

    /// The frame of the root table.
    #[verifier::when_used_as_spec(spec_root)]
    pub fn root(&self) -> (r: PageAddr)
        ensures
            r == self.spec_root(),
    {
        self.root
    }

    /// The owner of the pages that the table maps.
    pub fn page_owner_id(&self) -> (r: PageOwnerId)
        ensures
            r == self.spec_owner(),
    {
        self.owner
    }

    /// The value of the `satp` register that makes this table the active
    /// one: the mode Sv48 in bits 63 to 60, the address space identifier 0,
    /// and the page number of the root in bits 43 to 0.
    pub fn satp(&self) -> (r: u64)
        requires
            self.wf(),
        ensures
            r == SATP_MODE_SV48 * 0x1000_0000_0000_0000 + self.spec_root().spec_bits() / 4096,
    {
        SATP_MODE_SV48 * 0x1000_0000_0000_0000 + self.root.bits() / 4096
    }

    /// Tells whether the three tables exist that the page `vpn` is
    /// translated through.
    fn check_tables(&self, vpn: u64) -> (r: bool)
        requires
            vpn < 0x10_0000_0000,
        ensures
            r == self.has_tables(vpn),
    {
        map_has(&self.tables, 0x100_0000_0000 + vpn / 512) && map_has(
            &self.tables,
            0x200_0000_0000 + vpn / 0x4_0000,
        ) && map_has(&self.tables, 0x300_0000_0000 + vpn / 0x800_0000)
    }

    /// Where the virtual address `vaddr` is mapped to, and with which bits.
    pub fn translate(&self, vaddr: u64) -> (r: Option<(u64, PteFieldBits)>)
        requires
            self.wf(),
        ensures
            r == (match spec_vpn(vaddr) {
                Some(vpn) => if self@.contains_key(vpn) {
                    Some(
                        (
                            (self@[vpn].paddr.spec_bits() + vaddr % 4096) as u64,
                            self@[vpn].fields,
                        ),
                    )
                } else {
                    None
                },
                None => None,
            }),
    {
        match vpn_of(vaddr) {
            Some(vpn) => match map_get(&self.leaves, vpn) {
                Some(leaf) => {
                    assert(self@.contains_key(vpn));
                    Some((leaf.paddr.bits() + vaddr % 4096, leaf.fields))
                },
                None => None,
            },
            None => None,
        }
    }

    /// The reason for which `map_range` refuses a range before it creates
    /// any table, if there is one.
    pub open spec fn map_range_refusal(&self, vaddr: PageAddr, page_size: PageSize, count: u64) -> Option<
        Error,
    > {
        if page_size != PageSize::Size4k {
            Some(Error::PageSizeNotSupported(page_size))
        } else if !range_valid(vaddr.spec_bits(), count) {
            Some(Error::InvalidAddress)
        } else if exists|i: int|
            0 <= i < count && #[trigger] self@.contains_key(
                (spec_vpn(vaddr.spec_bits()).unwrap() + i) as u64,
            ) {
            Some(Error::MappingExists)
        } else {
            None
        }
    }

    /// Checks a range for `map_range` and `unmap_range`: `Ok` with the page
    /// number of `vaddr` if `count` pages of size `page_size` from `vaddr`
    /// on are a legal range of 4 KiB pages.
    fn check_range(vaddr: PageAddr, page_size: PageSize, count: u64) -> (r: Result<u64, Error>)
        ensures
            page_size != PageSize::Size4k ==> r == Err::<u64, Error>(
                Error::PageSizeNotSupported(page_size),
            ),
            page_size == PageSize::Size4k && !range_valid(vaddr.spec_bits(), count) ==> r == Err::<
                u64,
                Error,
            >(Error::InvalidAddress),
            page_size == PageSize::Size4k && range_valid(vaddr.spec_bits(), count) ==> r == Ok::<
                u64,
                Error,
            >(spec_vpn(vaddr.spec_bits()).unwrap()),
    {
        match page_size {
            PageSize::Size4k => {},
            _ => {
                return Err(Error::PageSizeNotSupported(page_size));
            },
        }
        let vpn: u64 = match vpn_of(vaddr.bits()) {
            Some(vpn) => vpn,
            None => {
                return Err(Error::InvalidAddress);
            },
        };
        let end: u64 = if vpn < 0x8_0000_0000 {
            0x8_0000_0000
        } else {
            0x10_0000_0000
        };
        if count > end - vpn {
            return Err(Error::InvalidAddress);
        }
        Ok(vpn)
    }

    /// Tells whether one of the `count` pages from `vpn` on has a leaf
    /// entry.
    fn any_mapped(&self, vpn: u64, count: u64) -> (r: bool)
        requires
            vpn + count <= 0x10_0000_0000,
        ensures
            r == exists|i: int| 0 <= i < count && #[trigger] self@.contains_key((vpn + i) as u64),
    {
        let mut i: u64 = 0;
        while i < count
            invariant
                i <= count,
                vpn + count <= 0x10_0000_0000,
                forall|j: int| 0 <= j < i ==> !#[trigger] self@.contains_key((vpn + j) as u64),
            decreases count - i,
        {
            if map_has(&self.leaves, vpn + i) {
                assert(self@.contains_key((vpn + i as int) as u64));
                return true;
            }
            i = i + 1;
        }
        false
    }

    /// The number of tables that `map_range` would have to create for the
    /// `count` pages from `vaddr` on. `None` if `map_range` refuses the
    /// range.
    pub fn missing_pte_pages(&self, vaddr: PageAddr, page_size: PageSize, count: u64) -> (r: Option<
        u64,
    >)
        requires
            self.wf(),
        ensures
            r is Some <==> self.map_range_refusal(vaddr, page_size, count) is None,
            r matches Some(n) ==> n == missing_tables(
                self.tables().dom(),
                spec_vpn(vaddr.spec_bits()).unwrap() as int,
                count as int,
            ),
            r matches Some(n) ==> n <= usize::MAX,
    {
        let vpn: u64 = match Self::check_range(vaddr, page_size, count) {
            Ok(vpn) => vpn,
            Err(_) => {
                return None;
            },
        };
        if self.any_mapped(vpn, count) {
            return None;
        }
        let mut scratch = self.tables.clone();
        let mut no_pages = PtePagePool::from_pages(Vec::new());
        let before: usize = scratch.len();
        let _ = ensure_tables(&mut scratch, vpn, count, &mut no_pages, true);
        let after: usize = scratch.len();
        proof {
            lemma_missing_tables(self.tables@.dom(), scratch@.dom(), vpn as int, count as int);
        }
        Some((after - before) as u64)
    }

    /// Prepares the mapping of the `count` pages of size `page_size` from
    /// `vaddr` on: creates the intermediate tables that the range needs and
    /// that do not exist yet, each in a frame from `pte_pages`, and returns
    /// the mapper for the range. Only 4 KiB pages are supported; the range
    /// must consist of legal addresses, and none of its pages may be mapped.
    /// If the pool runs out of frames, the tables that were created stay.
    pub fn map_range(
        &mut self,
        vaddr: PageAddr,
        page_size: PageSize,
        count: u64,
        pte_pages: &mut PtePagePool,
    ) -> (r: Result<FirstStageMapper, Error>)
        requires
            old(self).wf(),
        ensures
            final(self).wf(),
            final(self)@ == old(self)@,
            final(self).spec_root() == old(self).spec_root(),
            final(self).spec_owner() == old(self).spec_owner(),
            old(self).tables().submap_of(final(self).tables()),
            old(self).map_range_refusal(vaddr, page_size, count) matches Some(e) ==> r == Err::<
                FirstStageMapper,
                Error,
            >(e) && final(self).tables() == old(self).tables()
                && final(pte_pages)@ == old(pte_pages)@,
            old(self).map_range_refusal(vaddr, page_size, count) is None ==> {
                let vpn = spec_vpn(vaddr.spec_bits()).unwrap() as int;
                let need = missing_tables(old(self).tables().dom(), vpn, count as int);
                &&& need > old(pte_pages)@.len() ==> r == Err::<FirstStageMapper, Error>(
                    Error::InsufficientPtePages,
                ) && final(pte_pages)@.len() == 0
                &&& need <= old(pte_pages)@.len() ==> r is Ok && r->Ok_0.spec_vaddr() == vaddr
                    && r->Ok_0.spec_count() == count && final(self).covers(r->Ok_0)
                        && final(self).tables().dom() == old(self).tables().dom().union(range_keys(vpn, count as int))
                    && final(pte_pages)@ == old(pte_pages)@.skip(need as int)
            },
    {
        let vpn: u64 = match Self::check_range(vaddr, page_size, count) {
            Ok(vpn) => vpn,
            Err(e) => {
                return Err(e);
            },
        };
        if self.any_mapped(vpn, count) {
            return Err(Error::MappingExists);
        }
        let ghost old_tables = self.tables@;
        let ghost old_pool = pte_pages@;
        let ok = ensure_tables(&mut self.tables, vpn, count, pte_pages, false);
        proof {
            lemma_missing_tables_bound(
                old_tables.dom(),
                self.tables@.dom(),
                vpn as int,
                count as int,
                ok,
            );
            assert forall|v: u64| #[trigger] self@.contains_key(v) implies v < 0x10_0000_0000
                && self.has_tables(v) && self@[v].paddr.spec_bits() < PHYS_ADDR_END by {
                assert(old(self)@.contains_key(v));
                assert(old(self).has_tables(v));
            }
        }
        if ok {
            Ok(FirstStageMapper { vaddr, count })
        } else {
            Err(Error::InsufficientPtePages)
        }
    }

    /// Removes the leaf entries of the `count` pages of size `page_size`
    /// from `vaddr` on and returns the physical pages that they were mapped
    /// to, in ascending order of the virtual pages. Pages of the range that
    /// were not mapped are passed over. The caller has to flush the
    /// translations of the range before it hands the pages on.
    pub fn unmap_range(&mut self, vaddr: PageAddr, page_size: PageSize, count: u64) -> (r: Result<
        Vec<PageAddr>,
        Error,
    >)
        requires
            old(self).wf(),
        ensures
            final(self).wf(),
            final(self).tables() == old(self).tables(),
            final(self).spec_root() == old(self).spec_root(),
            final(self).spec_owner() == old(self).spec_owner(),
            page_size != PageSize::Size4k ==> r == Err::<Vec<PageAddr>, Error>(
                Error::PageSizeNotSupported(page_size),
            ),
            page_size == PageSize::Size4k && !range_valid(vaddr.spec_bits(), count) ==> r == Err::<
                Vec<PageAddr>,
                Error,
            >(Error::InvalidAddress),
            r is Err ==> final(self)@ == old(self)@,
            page_size == PageSize::Size4k && range_valid(vaddr.spec_bits(), count) ==> {
                let vpn = spec_vpn(vaddr.spec_bits()).unwrap() as int;
                &&& r is Ok
                &&& r->Ok_0@ == mapped_pages(old(self)@, vpn, count as int)
                &&& forall|k: u64|
                    final(self)@.contains_key(k) <==> old(self)@.contains_key(k) && !(vpn <= k
                        < vpn + count)
                &&& forall|k: u64| #[trigger]
                    final(self)@.contains_key(k) ==> final(self)@[k] == old(self)@[k]
            },
    {
        let vpn: u64 = match Self::check_range(vaddr, page_size, count) {
            Ok(vpn) => vpn,
            Err(e) => {
                return Err(e);
            },
        };
        let mut out: Vec<PageAddr> = Vec::new();
        let mut i: u64 = 0;
        while i < count
            invariant
                i <= count,
                vpn + count <= 0x10_0000_0000,
                self.tables@ == old(self).tables@,
                self.root == old(self).root,
                self.owner == old(self).owner,
                out@ == mapped_pages(old(self)@, vpn as int, i as int),
                forall|k: u64|
                    self@.contains_key(k) <==> old(self)@.contains_key(k) && !(vpn <= k < vpn + i),
                forall|k: u64| #[trigger] self@.contains_key(k) ==> self@[k] == old(self)@[k],
            decreases count - i,
        {
            let key: u64 = vpn + i;
            match map_get(&self.leaves, key) {
                Some(leaf) => {
                    out.push(leaf.paddr);
                    map_del(&mut self.leaves, key);
                },
                None => {},
            }
            i = i + 1;
        }
        proof {
            assert forall|v: u64| #[trigger] self@.contains_key(v) implies v < 0x10_0000_0000
                && self.has_tables(v) && self@[v].paddr.spec_bits() < PHYS_ADDR_END by {
                assert(old(self)@.contains_key(v));
                assert(old(self).has_tables(v));
            }
        }
        Ok(out)
    }
}

/// Creates the tables that the `count` pages from `vpn` on are translated
/// through and that `tables` does not hold yet. Each new table gets a frame
/// from `pool`; in a dry run no frame is taken and the tables are created
/// without one. Returns false if the pool ran out.
fn ensure_tables(
    tables: &mut HashMap<u64, u64>,
    vpn: u64,
    count: u64,
    pool: &mut PtePagePool,
    dry: bool,
) -> (ok: bool)
    requires
        vpn + count <= 0x10_0000_0000,
    ensures
        old(tables)@.submap_of(final(tables)@),
        final(tables)@.dom().subset_of(old(tables)@.dom().union(range_keys(vpn as int, count as int))),
        ok ==> range_keys(vpn as int, count as int).subset_of(final(tables)@.dom()),
        !ok ==> exists|k: u64|
            range_keys(vpn as int, count as int).contains(k) && !final(tables)@.dom().contains(k),
        dry ==> ok && final(pool)@ == old(pool)@,
        !dry ==> final(pool)@ == old(pool)@.skip(final(tables)@.len() - old(tables)@.len()),
        !dry ==> final(tables)@.len() - old(tables)@.len() <= old(pool)@.len(),
        !ok ==> final(pool)@.len() == 0,
        final(tables)@.len() >= old(tables)@.len(),
{
    let mut i: u64 = 0;
    while i < count
        invariant
            i <= count,
            vpn + count <= 0x10_0000_0000,
            old(tables)@.submap_of(tables@),
            tables@.dom().subset_of(old(tables)@.dom().union(range_keys(vpn as int, i as int))),
            range_keys(vpn as int, i as int).subset_of(tables@.dom()),
            dry ==> pool@ == old(pool)@,
            !dry ==> pool@ == old(pool)@.skip(tables@.len() - old(tables)@.len()),
            !dry ==> tables@.len() - old(tables)@.len() <= old(pool)@.len(),
            tables@.len() >= old(tables)@.len(),
        decreases count - i,
    {
        let page: u64 = vpn + i;
        let ghost before_page = tables@;
        let mut level: u8 = 3;
        while level >= 1
            invariant
                0 <= level <= 3,
                i < count,
                page == vpn + i,
                vpn + count <= 0x10_0000_0000,
                old(tables)@.submap_of(tables@),
                before_page.submap_of(tables@),
                tables@.dom().subset_of(
                    old(tables)@.dom().union(range_keys(vpn as int, i as int + 1)),
                ),
                forall|l: int| level < l <= 3 ==> tables@.dom().contains(table_key(l, page as int)),
                dry ==> pool@ == old(pool)@,
                !dry ==> pool@ == old(pool)@.skip(tables@.len() - old(tables)@.len()),
                !dry ==> tables@.len() - old(tables)@.len() <= old(pool)@.len(),
                tables@.len() >= old(tables)@.len(),
            decreases level,
        {
            let key: u64 = if level == 1 {
                0x100_0000_0000 + page / 512
            } else if level == 2 {
                0x200_0000_0000 + page / 0x4_0000
            } else {
                0x300_0000_0000 + page / 0x800_0000
            };
            assert(key == table_key(level as int, page as int));
            proof {
                assert(is_page_key(key, vpn as int + i as int));
                assert(range_keys(vpn as int, i as int + 1).contains(key));
                assert(range_keys(vpn as int, count as int).contains(key));
            }
            if !map_has(tables, key) {
                let frame: u64 = if dry {
                    0
                } else {
                    let ghost pool_before = pool@;
                    match pool.next() {
                        Some(p) => {
                            proof {
                                assert(pool_before.skip(1) =~= old(pool)@.skip(
                                    tables@.len() - old(tables)@.len() + 1,
                                ));
                            }
                            p.addr.bits()
                        },
                        None => {
                            return false;
                        },
                    }
                };
                let ghost before = tables@;
                map_put(tables, key, frame);
                proof {
                    assert(tables@.dom() =~= before.dom().insert(key));
                    assert(tables@.len() == before.len() + 1);
                    assert forall|k: u64| #[trigger] before.dom().contains(k) implies tables@.dom().contains(
                        k,
                    ) && tables@[k] == before[k] by {}
                    assert(before.submap_of(tables@));
                    assert forall|k: u64| #[trigger] old(tables)@.dom().contains(
                        k,
                    ) implies tables@.dom().contains(k) && tables@[k] == old(tables)@[k] by {
                        assert(before.dom().contains(k));
                    }
                    assert forall|k: u64| #[trigger] before_page.dom().contains(
                        k,
                    ) implies tables@.dom().contains(k) && tables@[k] == before_page[k] by {
                        assert(before.dom().contains(k));
                    }
                }
            }
            level = level - 1;
        }
        proof {
            assert forall|k: u64| range_keys(vpn as int, i as int + 1).contains(
                k,
            ) implies tables@.dom().contains(k) by {
                let j = choose|j: int| 0 <= j < i + 1 && #[trigger] is_page_key(k, vpn + j);
                if j < i {
                    assert(range_keys(vpn as int, i as int).contains(k));
                    assert(before_page.dom().contains(k));
                }
            }
        }
        i = i + 1;
    }
    true
}

/// The keys of a range are finitely many.
pub proof fn lemma_range_keys_finite(vpn: int, count: int)
    ensures
        range_keys(vpn, count).finite(),
    decreases count,
{
    if count <= 0 {
        assert(range_keys(vpn, count) =~= Set::<u64>::empty());
    } else {
        lemma_range_keys_finite(vpn, count - 1);
        let last = vpn + count - 1;
        let step = range_keys(vpn, count - 1).insert(table_key(1, last)).insert(
            table_key(2, last),
        ).insert(table_key(3, last));
        assert forall|k: u64| range_keys(vpn, count).contains(k) implies step.contains(k) by {
            let j = choose|j: int| 0 <= j < count && #[trigger] is_page_key(k, vpn + j);
            if j < count - 1 {
                assert(range_keys(vpn, count - 1).contains(k));
            }
        }
        assert forall|k: u64| step.contains(k) implies range_keys(vpn, count).contains(k) by {
            if range_keys(vpn, count - 1).contains(k) {
                let j = choose|j: int| 0 <= j < count - 1 && #[trigger] is_page_key(k, vpn + j);
                assert(is_page_key(k, vpn + j));
            } else {
                assert(is_page_key(k, vpn + (count - 1)));
            }
        }
        assert(range_keys(vpn, count) =~= step);
    }
}

/// After all tables of a range have been created, the number of new tables
/// is the number of tables that were missing.
proof fn lemma_missing_tables(have: Set<u64>, now: Set<u64>, vpn: int, count: int)
    requires
        have.finite(),
        now.finite(),
        have.subset_of(now),
        now.subset_of(have.union(range_keys(vpn, count))),
        range_keys(vpn, count).subset_of(now),
    ensures
        now.len() - have.len() == missing_tables(have, vpn, count),
        now == have.union(range_keys(vpn, count)),
{
    lemma_range_keys_finite(vpn, count);
    let keys = range_keys(vpn, count);
    assert(now =~= have.union(keys));
    let extra = keys.difference(have);
    assert(have.disjoint(extra));
    assert(have.union(extra) =~= now);
    vstd::set_lib::lemma_set_disjoint_lens(have, extra);
}

/// Whether the creation of the tables of a range succeeded tells how the
/// number of missing tables compares with the number of new tables.
proof fn lemma_missing_tables_bound(have: Set<u64>, now: Set<u64>, vpn: int, count: int, ok: bool)
    requires
        have.finite(),
        now.finite(),
        have.subset_of(now),
        now.subset_of(have.union(range_keys(vpn, count))),
        ok ==> range_keys(vpn, count).subset_of(now),
        !ok ==> exists|k: u64| range_keys(vpn, count).contains(k) && !now.contains(k),
    ensures
        ok ==> now.len() - have.len() == missing_tables(have, vpn, count) && now == have.union(
            range_keys(vpn, count),
        ),
        !ok ==> now.len() - have.len() < missing_tables(have, vpn, count),
{
    lemma_range_keys_finite(vpn, count);
    if ok {
        lemma_missing_tables(have, now, vpn, count);
    } else {
        let keys = range_keys(vpn, count);
        let k = choose|k: u64| keys.contains(k) && !now.contains(k);
        let extra = keys.difference(have);
        let made = now.difference(have);
        assert(have.disjoint(made));
        assert(have.union(made) =~= now);
        vstd::set_lib::lemma_set_disjoint_lens(have, made);
        assert(made.subset_of(extra.remove(k)));
        assert(extra.contains(k));
        vstd::set_lib::lemma_len_subset(made, extra.remove(k));
    }
}

} // verus!
