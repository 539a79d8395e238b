//! The address space of the hypervisor itself.
//!
//! Every CPU gets a page table of its own. All of them map the same shared
//! regions, which stem from the memory map and are mapped at their physical
//! addresses. In addition each maps the private regions, the segments of the
//! user-mode task, to physical pages that belong to that table alone, and
//! has a small window of slots into which pages of guests can be mapped for
//! the duration of one call of the task.

use crate::mem_map::{HwMemMap, HwMemRegion, HwMemRegionType, HwReservedMemType};
use crate::page_table::{
    lemma_range_keys_finite, mapped_pages, missing_tables, range_keys, range_valid,
    spec_max_pte_pages, spec_vpn, FirstStageMapper, FirstStagePageTable, LeafPte, PteFieldBits,
    PteLeafPerms, PtePagePool, PHYS_ADDR_END, SV48_LOW_END,
};
use crate::page_tracking::{claims, AllocModel, HypPageAlloc};
use crate::pages::{Page, PageAddr, PageOwnerId, PageSize, SequentialPages, PAGE_SIZE_4K};
use crate::riscv_elf::{ElfMap, ElfSegment, ElfSegmentPerms};
use crate::umode_mem::{is_valid_umode_range, spec_is_valid_umode_range};
use arrayvec::ArrayVec;
use vstd::prelude::*;

verus! {

/// Maximum number of regions unique to every page table (private).
pub const MAX_PRIVATE_REGIONS: usize = 32;

/// Maximum number of regions shared across all page tables.
pub const MAX_SHARED_REGIONS: usize = 32;

/// The size in bytes of a slot for dynamic mappings.
pub const UMODE_MAPPING_SLOT_SIZE: u64 = 0x40_0000;

/// The number of slots available for dynamic mappings.
pub const UMODE_MAPPING_SLOTS: u64 = 2;

/// Start of the area of the slots.
pub const UMODE_MAPPINGS_START: u64 = 0xffff_ffff_0840_0000;

/// Size of the area of the slots.
pub const UMODE_MAPPINGS_SIZE: u64 = 0x80_0000;

/// The number of pages of a slot.
pub const SLOT_PAGES: u64 = 1024;

/// The number of pages of the area of the slots.
pub const SLOT_AREA_PAGES: u64 = 2048;

/// The page number of the first page of the area of the slots.
pub const SLOT_AREA_VPN: u64 = 0xf_fff0_8400;

/// Errors returned by creating or modifying hypervisor mappings.
#[derive(Clone, Copy, Debug, PartialEq, Eq, Structural)]
pub enum Error {
    /// A segment of the task is not page aligned.
    ElfUnalignedSegment,
    /// A segment of the task is not in the address window of the task.
    ElfInvalidAddress,
    /// Invalid slot number.
    InvalidSlot,
    /// Not enough space in the slot.
    OutOfMap,
    /// Could not create a mapper for the slot.
    MapperCreationFailed,
    /// Could not map into the slot.
    MapFailed,
    /// Could not unmap the slot.
    UnmapFailed,
}

/// A region that every page table maps at its physical address.
#[derive(Clone, Copy, Debug, PartialEq, Eq, Structural)]
pub struct SharedRegion {
    /// Where the region starts in the address space of the hypervisor.
    pub vaddr: PageAddr,
    /// Where the region starts in physical memory.
    pub paddr: PageAddr,
    /// The number of pages of the region.
    pub page_count: u64,
    /// The bits of the leaf entries of the region.
    pub pte_fields: PteFieldBits,
}

/// The permissions with which a region of the memory map is mapped, or
/// `None` for a region that is not mapped.
pub open spec fn region_perms(region_type: HwMemRegionType) -> Option<PteLeafPerms> {
    match region_type {
        HwMemRegionType::Available => Some(PteLeafPerms::RW),
        HwMemRegionType::Reserved(HwReservedMemType::FirmwareReserved) => None,
        HwMemRegionType::Reserved(HwReservedMemType::HypervisorImage) => Some(PteLeafPerms::RWX),
        HwMemRegionType::Reserved(HwReservedMemType::HostKernelImage) => Some(PteLeafPerms::R),
        HwMemRegionType::Reserved(HwReservedMemType::HostInitramfsImage) => Some(PteLeafPerms::R),
        HwMemRegionType::Reserved(HwReservedMemType::HypervisorHeap) => Some(PteLeafPerms::RW),
        HwMemRegionType::Reserved(HwReservedMemType::HypervisorPerCpu) => Some(PteLeafPerms::RW),
        HwMemRegionType::Reserved(HwReservedMemType::PageMap) => Some(PteLeafPerms::RW),
        HwMemRegionType::Mmio => Some(PteLeafPerms::RW),
    }
}

impl SharedRegion {
    /// The page number of the first page of the region.
    pub open spec fn vpn(&self) -> int {
        spec_vpn(self.vaddr.spec_bits()).unwrap() as int
    }

    /// The region lies in the lower half of the address space, where a
    /// virtual address can equal a physical one.
    pub open spec fn wf(&self) -> bool {
        &&& self.page_count > 0
        &&& self.vaddr.spec_bits() == self.paddr.spec_bits()
        &&& self.vaddr.spec_bits() + self.page_count * 4096 <= SV48_LOW_END
    }

    /// True if `k` is the number of a page of the region.
    pub open spec fn holds(&self, k: int) -> bool {
        self.vpn() <= k < self.vpn() + self.page_count
    }

    /// The leaf entry of the page `k` of the region.
    pub open spec fn is_leaf_of(&self, k: int, leaf: LeafPte) -> bool {
        leaf.paddr.spec_bits() == k * 4096 && leaf.fields == self.pte_fields
    }

    /// What `from_hw_mem_region` answers.
    pub open spec fn matches_region(r: HwMemRegion, out: Option<SharedRegion>) -> bool {
        match region_perms(r.region_type) {
            None => out is None,
            Some(perms) => out matches Some(s) && s.vaddr == r.base && s.paddr == r.base
                && s.page_count == PageSize::spec_num_4k_pages(r.size) && s.pte_fields
                == PteFieldBits::spec_leaf_with_perms(perms),
        }
    }

    /// The shared region for a region of the memory map: available memory,
    /// the heap, the per-CPU areas, the page map and device memory are
    /// mapped readable and writable, the image of the hypervisor readable,
    /// writable and executable, the images of the host read only. Memory
    /// that is reserved for the firmware is not mapped.
    pub fn from_hw_mem_region(r: &HwMemRegion) -> (out: Option<SharedRegion>)
        ensures
            Self::matches_region(*r, out),
    {
        let perms = match r.region_type() {
            HwMemRegionType::Available => PteLeafPerms::RW,
            HwMemRegionType::Reserved(HwReservedMemType::FirmwareReserved) => {
                // No need to map regions reserved for firmware use.
                return None;
            },
            HwMemRegionType::Reserved(HwReservedMemType::HypervisorImage) => PteLeafPerms::RWX,
            HwMemRegionType::Reserved(HwReservedMemType::HostKernelImage) => PteLeafPerms::R,
            HwMemRegionType::Reserved(HwReservedMemType::HostInitramfsImage) => PteLeafPerms::R,
            HwMemRegionType::Reserved(HwReservedMemType::HypervisorHeap) => PteLeafPerms::RW,
            HwMemRegionType::Reserved(HwReservedMemType::HypervisorPerCpu) => PteLeafPerms::RW,
            HwMemRegionType::Reserved(HwReservedMemType::PageMap) => PteLeafPerms::RW,
            HwMemRegionType::Mmio => PteLeafPerms::RW,
        };
        Some(
            SharedRegion {
                // The virtual address equals the physical one.
                vaddr: r.base(),
                paddr: r.base(),
                page_count: PageSize::num_4k_pages(r.size()),
                pte_fields: PteFieldBits::leaf_with_perms(perms),
            },
        )
    }
}

/// A region that every page table maps to physical pages of its own: a
/// segment of the user-mode task.
#[derive(Clone, Copy, Debug)]
pub struct PrivateRegion {
    /// Where the region starts.
    pub vaddr: PageAddr,
    /// The number of bytes of the region.
    pub size: usize,
    /// The bits of the leaf entries of the region.
    pub pte_fields: PteFieldBits,
    /// The bytes that the region starts with.
    pub data: Option<&'static [u8]>,
}

/// The permissions with which a segment is mapped.
pub open spec fn segment_perms(perms: ElfSegmentPerms) -> PteLeafPerms {
    match perms {
        ElfSegmentPerms::R => PteLeafPerms::UR,
        ElfSegmentPerms::RW => PteLeafPerms::URW,
        ElfSegmentPerms::RX => PteLeafPerms::URX,
    }
}

impl PrivateRegion {
    /// The region starts at a page boundary and lies in the address window
    /// of the task.
    pub open spec fn wf(&self) -> bool {
        &&& self.vaddr.spec_bits() as int % 4096 == 0
        &&& spec_is_valid_umode_range(self.vaddr.spec_bits(), self.size)
    }

    /// The page number of the first page of the region.
    pub open spec fn vpn(&self) -> int {
        spec_vpn(self.vaddr.spec_bits()).unwrap() as int
    }

    /// The number of pages of the region.
    pub open spec fn spec_page_count(&self) -> u64 {
        PageSize::spec_num_4k_pages(self.size as u64)
    }

    /// True if `k` is the number of a page of the region.
    pub open spec fn holds(&self, k: int) -> bool {
        self.vpn() <= k < self.vpn() + self.spec_page_count()
    }

    /// The bytes that the region starts with.
    pub open spec fn spec_data(&self) -> Seq<u8> {
        match self.data {
            Some(d) => d@,
            None => Seq::empty(),
        }
    }

    /// The number of bytes of the pages of the region.
    pub open spec fn mapped_size(&self) -> int {
        self.spec_page_count() * 4096
    }

    /// The number of bytes that are copied from the data of the region.
    pub open spec fn copied(&self) -> int {
        if self.spec_data().len() < self.size {
            self.spec_data().len() as int
        } else {
            self.size as int
        }
    }

    /// The contents of the pages of the region in their initial state: the
    /// data of the region, as far as it fits in the region, followed by
    /// zeroes up to the end of the last page.
    pub open spec fn image(&self) -> Seq<u8> {
        Seq::new(
            self.mapped_size() as nat,
            |i: int|
                if i < self.copied() {
                    self.spec_data()[i]
                } else {
                    0u8
                },
        )
    }

    /// True if the task can write to the region.
    pub open spec fn spec_is_user_writable(&self) -> bool {
        self.pte_fields == PteFieldBits::spec_leaf_with_perms(PteLeafPerms::URW)
    }

    /// What `from_umode_elf_segment` answers for a segment at `vaddr` of
    /// `size` bytes.
    pub open spec fn segment_result(vaddr: u64, size: usize) -> Option<Error> {
        if vaddr as int % 4096 != 0 {
            Some(Error::ElfUnalignedSegment)
        } else if !spec_is_valid_umode_range(vaddr, size) {
            Some(Error::ElfInvalidAddress)
        } else {
            None
        }
    }

    /// The private region for a segment of the task. The segment must
    /// start at a page boundary and lie in the address window of the task.
    pub fn from_umode_elf_segment(seg: &ElfSegment<'static>) -> (r: Result<PrivateRegion, Error>)
        ensures
            match r {
                Ok(p) => Self::segment_result(seg@.vaddr, seg@.size) is None && p.wf()
                    && p.vaddr.spec_bits() == seg@.vaddr && p.size == seg@.size && p.pte_fields
                    == PteFieldBits::spec_leaf_with_perms(segment_perms(seg@.perms)) && (
                match p.data {
                    Some(d) => seg@.data == Some(d@),
                    None => seg@.data is None,
                }),
                Err(e) => Self::segment_result(seg@.vaddr, seg@.size) == Some(e),
            },
    {
        // The segment has to start at a page of its own, so that every page
        // has the permissions of one segment.
        let vaddr = match PageAddr::new(seg.vaddr()) {
            Some(a) => a,
            None => {
                return Err(Error::ElfUnalignedSegment);
            },
        };
        if !is_valid_umode_range(seg.vaddr(), seg.size()) {
            return Err(Error::ElfInvalidAddress);
        }
        let pte_perms = match seg.perms() {
            ElfSegmentPerms::R => PteLeafPerms::UR,
            ElfSegmentPerms::RW => PteLeafPerms::URW,
            ElfSegmentPerms::RX => PteLeafPerms::URX,
        };
        Ok(
            PrivateRegion {
                vaddr,
                size: seg.size(),
                pte_fields: PteFieldBits::leaf_with_perms(pte_perms),
                data: seg.data(),
            },
        )
    }

    /// The number of pages of the region.
    #[verifier::when_used_as_spec(spec_page_count)]
    pub fn page_count(&self) -> (r: u64)
        ensures
            r == self.spec_page_count(),
    {
        PageSize::num_4k_pages(self.size as u64)
    }

    /// True if the task can write to the region.
    #[verifier::when_used_as_spec(spec_is_user_writable)]
    pub fn is_user_writable(&self) -> (r: bool)
        ensures
            r == self.spec_is_user_writable(),
    {
        self.pte_fields.bits == PteLeafPerms::URW.bits() + 1
    }

    /// Puts the pages of the region back into their initial state.
    /// `window` is the memory of the pages of the region. Afterwards it
    /// starts with the data of the region, as far as the data fits in the
    /// region, and is zero from there on.
    pub fn restore(&self, window: &mut [u8])
        requires
            old(window)@.len() == self.mapped_size(),
        ensures
            final(window)@ == self.image(),
    {
        let n: usize = window.len();
        let mut copied: usize = 0;
        // Copy the data at the beginning if it is present.
        match self.data {
            Some(data) => {
                // In case the data is bigger than the region, write up to
                // the end of the region only.
                let len: usize = if self.size < data.len() {
                    self.size
                } else {
                    data.len()
                };
                while copied < len
                    invariant
                        copied <= len,
                        len == self.copied(),
                        len <= data@.len(),
                        self.data == Some(data),
                        window@.len() == n,
                        n == self.mapped_size(),
                        forall|j: int| 0 <= j < copied ==> window@[j] == data@[j],
                    decreases len - copied,
                {
                    window[copied] = data[copied];
                    copied = copied + 1;
                }
            },
            None => {},
        }
        // Clear from the end of the copy to the end of the mapped area.
        let mut i: usize = copied;
        while i < n
            invariant
                copied <= i <= n,
                copied == self.copied(),
                window@.len() == n,
                n == self.mapped_size(),
                forall|j: int| 0 <= j < copied ==> window@[j] == self.spec_data()[j],
                forall|j: int| copied <= j < i ==> window@[j] == 0,
            decreases n - i,
        {
            window[i] = 0;
            i = i + 1;
        }
        proof {
            assert(window@ =~= self.image());
        }
    }
}

/// The contents of a private region that the task can write to are its
/// initial contents again after `restore`: the first bytes, as many as the
/// region and its data both have, are the data, and the rest up to the end
/// of the last page is zero.
pub proof fn lemma_restored_image(region: PrivateRegion, i: int)
    requires
        0 <= i < region.mapped_size(),
    ensures
        region.image().len() == PageSize::Size4k.spec_round_up(region.size as u64),
        i < region.size && i < region.spec_data().len() ==> region.image()[i]
            == region.spec_data()[i],
        i >= region.size || i >= region.spec_data().len() ==> region.image()[i] == 0,
{
}

/// Maps the pages of the range of `mapper` to the physical pages from
/// `paddr` on, one after the other, with the bits `fields`.
pub fn fill_range(
    table: &mut FirstStagePageTable,
    mapper: &FirstStageMapper,
    paddr: PageAddr,
    fields: PteFieldBits,
)
    requires
        old(table).wf(),
        old(table).covers(*mapper),
        paddr.spec_bits() + mapper.spec_count() * 4096 <= PHYS_ADDR_END,
    ensures
        final(table).wf(),
        final(table).tables() == old(table).tables(),
        final(table).spec_root() == old(table).spec_root(),
        final(table).spec_owner() == old(table).spec_owner(),
        forall|k: u64|
            final(table)@.contains_key(k) <==> old(table)@.contains_key(k)
                || in_mapper(*mapper, k as int),
        forall|k: u64|
            in_mapper(*mapper, k as int) ==> (#[trigger] final(table)@[k]).paddr.spec_bits()
                == paddr.spec_bits() + (k - mapper_vpn(*mapper)) * 4096 && final(table)@[k].fields
                == fields,
        forall|k: u64|
            old(table)@.contains_key(k) && !in_mapper(*mapper, k as int)
                ==> #[trigger] final(table)@[k]
                == old(table)@[k],
{
    let vaddr = mapper.vaddr();
    let count: u64 = mapper.count();
    let v0: u64 = vaddr.bits();
    let p0: u64 = paddr.bits();
    let ghost vpn0 = mapper_vpn(*mapper);
    let mut i: u64 = 0;
    while i < count
        invariant
            i <= count,
            count == mapper.spec_count(),
            v0 == mapper.spec_vaddr().spec_bits(),
            p0 == paddr.spec_bits(),
            vpn0 == mapper_vpn(*mapper),
            range_valid(v0, count),
            v0 as int % 4096 == 0,
            p0 as int % 4096 == 0,
            p0 + count * 4096 <= PHYS_ADDR_END,
            table.wf(),
            table.covers(*mapper),
            table.tables() == old(table).tables(),
            table.spec_root() == old(table).spec_root(),
            table.spec_owner() == old(table).spec_owner(),
            forall|k: u64|
                table@.contains_key(k) <==> old(table)@.contains_key(k) || (vpn0 <= k < vpn0 + i),
            forall|k: u64|
                vpn0 <= k < vpn0 + i ==> (#[trigger] table@[k]).paddr.spec_bits() == p0 + (k - vpn0)
                    * 4096 && table@[k].fields == fields,
            forall|k: u64|
                old(table)@.contains_key(k) && !(vpn0 <= k < vpn0 + i) ==> #[trigger] table@[k]
                    == old(table)@[k],
        decreases count - i,
    {
        let va = PageAddr::new(v0 + i * 4096);
        let pa = PageAddr::new(p0 + i * 4096);
        match (va, pa) {
            (Some(va), Some(pa)) => {
                proof {
                    let key = (vpn0 + i) as u64;
                    assert(spec_vpn(va.spec_bits()) == Some(key));
                    assert(crate::page_table::is_page_key(
                        crate::page_table::table_key(1, vpn0 + i),
                        vpn0 + i,
                    ));
                    assert(crate::page_table::is_page_key(
                        crate::page_table::table_key(2, vpn0 + i),
                        vpn0 + i,
                    ));
                    assert(crate::page_table::is_page_key(
                        crate::page_table::table_key(3, vpn0 + i),
                        vpn0 + i,
                    ));
                    assert(range_keys(vpn0, count as int).contains(
                        crate::page_table::table_key(1, vpn0 + i),
                    ));
                    assert(range_keys(vpn0, count as int).contains(
                        crate::page_table::table_key(2, vpn0 + i),
                    ));
                    assert(range_keys(vpn0, count as int).contains(
                        crate::page_table::table_key(3, vpn0 + i),
                    ));
                    assert(table.has_tables(key));
                }
                let r = mapper.map_addr(table, va, pa, fields);
                assert(r is Ok);
            },
            _ => {
                assert(false);
            },
        }
        i = i + 1;
    }
}

/// The page number of the first page of the range of `mapper`.
pub open spec fn mapper_vpn(mapper: FirstStageMapper) -> int {
    spec_vpn(mapper.spec_vaddr().spec_bits()).unwrap() as int
}

/// True if `k` is the number of a page of the range of `mapper`.
pub open spec fn in_mapper(mapper: FirstStageMapper, k: int) -> bool {
    mapper_vpn(mapper) <= k < mapper_vpn(mapper) + mapper.spec_count()
}

/// The state of a slot for dynamic mappings.
#[derive(Clone, Copy, Debug, PartialEq, Eq, Structural)]
pub enum SlotState {
    /// Nothing is mapped in the slot.
    Free,
    /// A mapper for the first `num_pages` pages of the slot has been handed
    /// out, and some of these pages may be mapped.
    Mapped {
        /// The number of pages that the mapper was made for.
        num_pages: u64,
    },
}

/// The page number of the first page of the slot `slot`.
pub open spec fn slot_vpn(slot: u64) -> int {
    SLOT_AREA_VPN + slot * SLOT_PAGES
}

/// The virtual address of the slot `slot`.
pub open spec fn slot_va(slot: u64) -> int {
    UMODE_MAPPINGS_START + slot * UMODE_MAPPING_SLOT_SIZE
}

/// The reason for which no mapper is handed out for `num_pages` pages of
/// the slot `slot` in state `state`, if there is one.
pub open spec fn slot_mapper_refusal(state: SlotState, slot: u64, num_pages: u64) -> Option<Error> {
    if num_pages > SLOT_PAGES {
        Some(Error::OutOfMap)
    } else if slot >= UMODE_MAPPING_SLOTS {
        Some(Error::InvalidSlot)
    } else if state != SlotState::Free {
        Some(Error::MapperCreationFailed)
    } else {
        None
    }
}

/// The reason for which `num_pages` pages of the slot `slot` in state
/// `state` are not unmapped, if there is one.
pub open spec fn slot_unmap_refusal(state: SlotState, slot: u64, num_pages: u64) -> Option<Error> {
    if slot >= UMODE_MAPPING_SLOTS {
        Some(Error::InvalidSlot)
    } else if num_pages > SLOT_PAGES {
        Some(Error::OutOfMap)
    } else if state != (SlotState::Mapped { num_pages }) {
        Some(Error::UnmapFailed)
    } else {
        None
    }
}

/// A slot that has been unmapped is free, and a mapper can be made for a
/// free slot for every number of pages up to the capacity of the slot.
pub proof fn lemma_slot_is_free_after_unmap(state: SlotState, slot: u64, n: u64, m: u64)
    requires
        slot_unmap_refusal(state, slot, n) is None,
        m <= SLOT_PAGES,
    ensures
        slot_mapper_refusal(SlotState::Free, slot, m) is None,
{
}

/// A page table that contains hypervisor mappings.
pub struct HypPageTable {
    sv48: FirstStagePageTable,
    pte_pages: PtePagePool,
    slot0: SlotState,
    slot1: SlotState,
    backing: Vec<SequentialPages>,
}

impl HypPageTable {
    /// The page table proper.
    pub closed spec fn table(&self) -> FirstStagePageTable {
        self.sv48
    }

    /// The frames that are left for the tables of the slots.
    pub closed spec fn pool(&self) -> Seq<Page> {
        self.pte_pages@
    }

    /// The state of the slot `slot`.
    pub closed spec fn slot_state(&self, slot: u64) -> SlotState {
        if slot == 0 {
            self.slot0
        } else {
            self.slot1
        }
    }

    /// For each private region, the physical pages that back it in this
    /// page table.
    pub closed spec fn backing(&self) -> Seq<SequentialPages> {
        self.backing@
    }

    /// The slot `slot` is consistent: no page is mapped outside of the
    /// range that a mapper was made for, and the tables of that range
    /// exist.
    pub open spec fn slot_wf(&self, slot: u64) -> bool {
        match self.slot_state(slot) {
            SlotState::Free => forall|k: u64|
                slot_vpn(slot) <= k < slot_vpn(slot) + SLOT_PAGES
                    ==> !#[trigger] self.table()@.contains_key(
                    k,
                ),
            SlotState::Mapped { num_pages } => {
                &&& num_pages <= SLOT_PAGES
                &&& forall|k: u64|
                    slot_vpn(slot) + num_pages <= k < slot_vpn(slot) + SLOT_PAGES
                        ==> !#[trigger] self.table()@.contains_key(k)
                &&& range_keys(slot_vpn(slot), num_pages as int).subset_of(
                    self.table().tables().dom(),
                )
            },
        }
    }

    /// The page table is consistent: both slots are, and the pool holds a
    /// frame for every table of the area of the slots that does not exist
    /// yet.
    pub open spec fn wf(&self) -> bool {
        &&& self.table().wf()
        &&& self.slot_wf(0)
        &&& self.slot_wf(1)
        &&& self.pool().len() >= missing_tables(
            self.table().tables().dom(),
            SLOT_AREA_VPN as int,
            SLOT_AREA_PAGES as int,
        )
    }

    /// Return the value of the `satp` register for this page table.
    pub fn satp(&self) -> (r: u64)
        requires
            self.wf(),
        ensures
            r == 9 * 0x1000_0000_0000_0000 + self.table().spec_root().spec_bits() / 4096,
    {
        self.sv48.satp()
    }

    /// The page table proper.
    pub fn page_table(&self) -> (r: &FirstStagePageTable)
        ensures
            *r == self.table(),
    {
        &self.sv48
    }

    /// The physical pages that back the private region at position `i`.
    pub fn private_backing(&self, i: usize) -> (r: Option<SequentialPages>)
        ensures
            r is Some <==> i < self.backing().len(),
            r matches Some(p) ==> p == self.backing()[i as int],
    {
        if i < self.backing.len() {
            Some(self.backing[i])
        } else {
            None
        }
    }

    /// The state of the slot `slot`.
    pub fn slot(&self, slot: u64) -> (r: Option<SlotState>)
        ensures
            r is Some <==> slot < UMODE_MAPPING_SLOTS,
            r matches Some(s) ==> s == self.slot_state(slot),
    {
        if slot == 0 {
            Some(self.slot0)
        } else if slot == 1 {
            Some(self.slot1)
        } else {
            None
        }
    }

    /// Returns the virtual address of the slot `slot`.
    pub fn umode_slot_va(&self, slot: u64) -> (r: Result<PageAddr, Error>)
        ensures
            slot >= UMODE_MAPPING_SLOTS ==> r == Err::<PageAddr, Error>(Error::InvalidSlot),
            slot < UMODE_MAPPING_SLOTS ==> r is Ok && r->Ok_0.spec_bits() == slot_va(slot),
    {
        if slot < UMODE_MAPPING_SLOTS {
            match PageAddr::new(UMODE_MAPPINGS_START + slot * UMODE_MAPPING_SLOT_SIZE) {
                Some(a) => Ok(a),
                None => {
                    proof {
                        assert(false);
                    }
                    Err(Error::InvalidSlot)
                },
            }
        } else {
            Err(Error::InvalidSlot)
        }
    }

    /// Restore the mappings of the task to their initial state: each
    /// region of `hyp_map` that the task can write to gets its image again.
    /// `windows` holds the contents of the private regions of this page
    /// table, in the order of the regions.
    pub fn restore_umode(&self, hyp_map: &HypMap, windows: &mut Vec<Vec<u8>>)
        requires
            old(windows)@.len() == hyp_map.private().len(),
            forall|i: int|
                0 <= i < hyp_map.private().len() && (
                #[trigger] hyp_map.private()[i]).spec_is_user_writable() ==> old(windows)@[i]@.len()
                    == hyp_map.private()[i].mapped_size(),
        ensures
            final(windows)@.len() == old(windows)@.len(),
            forall|i: int|
                0 <= i < hyp_map.private().len() ==> (#[trigger] final(windows)@[i])@ == (
                if hyp_map.private()[i].spec_is_user_writable() {
                    hyp_map.private()[i].image()
                } else {
                    old(windows)@[i]@
                }),
    {
        hyp_map.restore_umode_private_regions(windows)
    }

    /// Returns a mapper for the first `num_pages` pages of the slot `slot`.
    /// If `writable` is true, the mapper maps pages so that the task can
    /// read and write them, otherwise so that it can read them. The slot
    /// must be free; it stays taken until it is unmapped.
    pub fn umode_slot_mapper(&mut self, slot: u64, num_pages: u64, writable: bool) -> (r: Result<
        UmodeSlotMapper,
        Error,
    >)
        requires
            old(self).wf(),
        ensures
            final(self).wf(),
            final(self).table()@ == old(self).table()@,
            final(self).table().spec_root() == old(self).table().spec_root(),
            final(self).backing() == old(self).backing(),
            match slot_mapper_refusal(old(self).slot_state(slot), slot, num_pages) {
                Some(e) => r == Err::<UmodeSlotMapper, Error>(e)
                    && final(self).slot_state(0) == old(self).slot_state(0)
                    && final(self).slot_state(1) == old(self).slot_state(1),
                None => r is Ok && r->Ok_0.spec_slot() == slot && r->Ok_0.spec_count() == num_pages
                    && r->Ok_0.spec_vaddr().spec_bits() == slot_va(slot) && r->Ok_0.spec_perms()
                    == PteFieldBits::spec_leaf_with_perms(
                    if writable {
                        PteLeafPerms::URW
                    } else {
                        PteLeafPerms::UR
                    },
                ) && final(self).slot_state(slot) == (SlotState::Mapped { num_pages })
                    && final(self).slot_state((1 - slot) as u64) == old(self).slot_state((1 - slot) as u64),
            },
    {
        if num_pages > SLOT_PAGES {
            return Err(Error::OutOfMap);
        }
        let vaddr = match self.umode_slot_va(slot) {
            Ok(a) => a,
            Err(e) => {
                return Err(e);
            },
        };
        let state = if slot == 0 {
            self.slot0
        } else {
            self.slot1
        };
        match state {
            SlotState::Free => {},
            _ => {
                return Err(Error::MapperCreationFailed);
            },
        }
        let ghost have = self.sv48.tables().dom();
        proof {
            self.sv48.lemma_tables_finite();
            lemma_slot_vpn(slot);
            assert(old(self).slot_wf(slot));
            lemma_slot_need(have, slot, num_pages);
        }
        let mapper = match self.sv48.map_range(
            vaddr,
            PageSize::Size4k,
            num_pages,
            &mut self.pte_pages,
        ) {
            Ok(m) => m,
            Err(_) => {
                proof {
                    assert(false);
                }
                return Err(Error::MapperCreationFailed);
            },
        };
        let perms = if writable {
            PteFieldBits::leaf_with_perms(PteLeafPerms::URW)
        } else {
            PteFieldBits::leaf_with_perms(PteLeafPerms::UR)
        };
        if slot == 0 {
            self.slot0 = SlotState::Mapped { num_pages };
        } else {
            self.slot1 = SlotState::Mapped { num_pages };
        }
        proof {
            let other = (1 - slot) as u64;
            assert(old(self).slot_wf(other));
            assert(self.slot_wf(other));
            assert(self.slot_wf(slot));
        }
        Ok(UmodeSlotMapper { slot, vaddr, mapper, perms })
    }

    /// Unmaps the first `num_pages` pages of the slot `slot` and returns
    /// the physical pages that were mapped there, in ascending order of
    /// their virtual addresses. `num_pages` must be the number of pages
    /// that the mapper of the slot was made for. The slot is free
    /// afterwards. The caller has to flush the translations of the slot
    /// before it hands the pages back to their owner.
    pub fn unmap_umode_slot(&mut self, slot: u64, num_pages: u64) -> (r: Result<
        Vec<PageAddr>,
        Error,
    >)
        requires
            old(self).wf(),
        ensures
            final(self).wf(),
            final(self).table().spec_root() == old(self).table().spec_root(),
            final(self).backing() == old(self).backing(),
            final(self).pool() == old(self).pool(),
            match slot_unmap_refusal(old(self).slot_state(slot), slot, num_pages) {
                Some(e) => r == Err::<Vec<PageAddr>, Error>(e)
                    && final(self).slot_state(0) == old(self).slot_state(0)
                    && final(self).slot_state(1) == old(self).slot_state(1)
                    && final(self).table()@ == old(self).table()@,
                None => r is Ok && r->Ok_0@ == mapped_pages(
                    old(self).table()@,
                    slot_vpn(slot),
                    num_pages as int,
                ) && final(self).slot_state(slot) == SlotState::Free && final(self).slot_state(
                    (1 - slot) as u64,
                ) == old(self).slot_state((1 - slot) as u64) && (forall|k: u64|
                    final(self).table()@.contains_key(k) <==> old(self).table()@.contains_key(k)
                        && !(slot_vpn(slot) <= k < slot_vpn(slot) + num_pages))
                            && (forall|k: u64| #[trigger]
                    final(self).table()@.contains_key(k)
                        ==> final(self).table()@[k] == old(self).table()@[k]),
            },
    {
        let vaddr = match self.umode_slot_va(slot) {
            Ok(a) => a,
            Err(e) => {
                return Err(e);
            },
        };
        if num_pages > SLOT_PAGES {
            return Err(Error::OutOfMap);
        }
        let state = if slot == 0 {
            self.slot0
        } else {
            self.slot1
        };
        match state {
            SlotState::Mapped { num_pages: n } => {
                if n != num_pages {
                    return Err(Error::UnmapFailed);
                }
            },
            SlotState::Free => {
                return Err(Error::UnmapFailed);
            },
        }
        proof {
            lemma_slot_vpn(slot);
            assert(old(self).slot_wf(slot));
        }
        let pages = match self.sv48.unmap_range(vaddr, PageSize::Size4k, num_pages) {
            Ok(p) => p,
            Err(_) => {
                proof {
                    assert(false);
                }
                return Err(Error::UnmapFailed);
            },
        };
        if slot == 0 {
            self.slot0 = SlotState::Free;
        } else {
            self.slot1 = SlotState::Free;
        }
        proof {
            let other = (1 - slot) as u64;
            assert(old(self).slot_wf(other));
            assert(self.slot_wf(other));
            assert(self.slot_wf(slot));
        }
        Ok(pages)
    }
}

/// Where the slots lie in the address space.
pub proof fn lemma_slot_vpn(slot: u64)
    requires
        slot < UMODE_MAPPING_SLOTS,
    ensures
        spec_vpn(slot_va(slot) as u64) == Some(slot_vpn(slot) as u64),
        slot_va(slot) <= u64::MAX,
        slot_va(slot) % 4096 == 0,
        forall|n: u64| n <= SLOT_PAGES ==> #[trigger] range_valid(slot_va(slot) as u64, n),
{
}

/// The tables of a part of a slot are tables of the area of the slots: a
/// pool that covers the area covers the part, and it still covers the area
/// when the tables of the part have been created.
proof fn lemma_slot_need(have: Set<u64>, slot: u64, num_pages: u64)
    requires
        slot < UMODE_MAPPING_SLOTS,
        num_pages <= SLOT_PAGES,
        have.finite(),
    ensures
        missing_tables(have, slot_vpn(slot), num_pages as int) <= missing_tables(
            have,
            SLOT_AREA_VPN as int,
            SLOT_AREA_PAGES as int,
        ),
        missing_tables(
            have.union(range_keys(slot_vpn(slot), num_pages as int)),
            SLOT_AREA_VPN as int,
            SLOT_AREA_PAGES as int,
        ) == missing_tables(have, SLOT_AREA_VPN as int, SLOT_AREA_PAGES as int) - missing_tables(
            have,
            slot_vpn(slot),
            num_pages as int,
        ),
{
    let part = range_keys(slot_vpn(slot), num_pages as int);
    let area = range_keys(SLOT_AREA_VPN as int, SLOT_AREA_PAGES as int);
    lemma_range_keys_finite(slot_vpn(slot), num_pages as int);
    lemma_range_keys_finite(SLOT_AREA_VPN as int, SLOT_AREA_PAGES as int);
    assert forall|k: u64| part.contains(k) implies area.contains(k) by {
        let i = choose|i: int|
            0 <= i < num_pages && #[trigger] crate::page_table::is_page_key(k, slot_vpn(slot) + i);
        assert(crate::page_table::is_page_key(k, SLOT_AREA_VPN + (slot * SLOT_PAGES + i)));
    }
    let part_missing = part.difference(have);
    let area_missing = area.difference(have);
    let rest = area.difference(have.union(part));
    assert(part_missing.subset_of(area_missing));
    vstd::set_lib::lemma_len_subset(part_missing, area_missing);
    assert(part_missing.disjoint(rest));
    assert(part_missing.union(rest) =~= area_missing);
    vstd::set_lib::lemma_set_disjoint_lens(part_missing, rest);
}

/// Represents a mapper for a slot. Only pages of guests can be mapped with
/// it.
#[derive(Clone, Copy, Debug)]
pub struct UmodeSlotMapper {
    slot: u64,
    vaddr: PageAddr,
    mapper: FirstStageMapper,
    perms: PteFieldBits,
}

impl UmodeSlotMapper {
    #[verifier::type_invariant]
    spec fn inv(&self) -> bool {
        &&& self.slot < UMODE_MAPPING_SLOTS
        &&& self.vaddr.spec_bits() == slot_va(self.slot)
        &&& self.mapper.spec_vaddr() == self.vaddr
        &&& self.mapper.spec_count() <= SLOT_PAGES
    }

    /// The slot that the mapper maps into.
    pub closed spec fn spec_slot(&self) -> u64 {
        self.slot
    }

    /// The first virtual page that the mapper can map.
    pub closed spec fn spec_vaddr(&self) -> PageAddr {
        self.vaddr
    }

    /// The number of pages that the mapper can map.
    pub closed spec fn spec_count(&self) -> u64 {
        self.mapper.spec_count()
    }

    /// The bits of the leaf entries that the mapper creates.
    pub closed spec fn spec_perms(&self) -> PteFieldBits {
        self.perms
    }

    /// True if `vaddr` is a page that the mapper can map.
    pub open spec fn in_range(&self, vaddr: PageAddr) -> bool {
        self.spec_vaddr().spec_bits() <= vaddr.spec_bits() < self.spec_vaddr().spec_bits()
            + self.spec_count() * 4096
    }

    /// Returns the first virtual page that the mapper can map.
    #[verifier::when_used_as_spec(spec_vaddr)]
    pub fn vaddr(&self) -> (r: PageAddr)
        ensures
            r == self.spec_vaddr(),
    {
        self.vaddr
    }

    /// True if `map_addr` maps the page `vaddr` to `paddr` in `table`: the
    /// page lies in the range of the mapper, the physical address fits in a
    /// page table entry, and the slot is still in the state in which the
    /// mapper was handed out.
    pub open spec fn can_map(&self, table: &HypPageTable, vaddr: PageAddr, paddr: PageAddr) -> bool {
        &&& self.in_range(vaddr)
        &&& paddr.spec_bits() < PHYS_ADDR_END
        &&& table.slot_state(self.spec_slot())
            == (SlotState::Mapped { num_pages: self.spec_count() })
    }

    /// Maps the page `paddr` of a guest at the address `vaddr` in the range
    /// of this mapper. The caller guarantees that the page is owned by a
    /// guest and has been shared with the hypervisor.
    pub fn map_addr(&self, table: &mut HypPageTable, vaddr: PageAddr, paddr: PageAddr) -> (r: Result<
        (),
        Error,
    >)
        requires
            old(table).wf(),
        ensures
            final(table).wf(),
            final(table).slot_state(0) == old(table).slot_state(0),
            final(table).slot_state(1) == old(table).slot_state(1),
            final(table).pool() == old(table).pool(),
            final(table).backing() == old(table).backing(),
            final(table).table().spec_root() == old(table).table().spec_root(),
            final(table).table().tables() == old(table).table().tables(),
            self.can_map(old(table), vaddr, paddr) ==> r is Ok
                && final(table).table()@ == old(table).table()@.insert(
                spec_vpn(vaddr.spec_bits()).unwrap(),
                LeafPte { paddr, fields: self.spec_perms() },
            ),
            !self.can_map(old(table), vaddr, paddr) ==> r == Err::<(), Error>(Error::MapFailed)
                && final(table).table()@ == old(table).table()@,
    {
        proof {
            use_type_invariant(self);
            lemma_slot_vpn(self.slot);
        }
        let state = if self.slot == 0 {
            table.slot0
        } else {
            table.slot1
        };
        match state {
            SlotState::Mapped { num_pages } => {
                if num_pages != self.mapper.count() {
                    return Err(Error::MapFailed);
                }
            },
            SlotState::Free => {
                return Err(Error::MapFailed);
            },
        }
        let ghost vpn0 = slot_vpn(self.slot);
        let ghost count = self.mapper.spec_count();
        proof {
            assert(old(table).slot_wf(self.slot));
            if self.mapper.in_range(vaddr) {
                let key = spec_vpn(vaddr.spec_bits()).unwrap();
                let i = key - vpn0;
                assert(0 <= i < count);
                assert(crate::page_table::is_page_key(
                    crate::page_table::table_key(1, vpn0 + i),
                    vpn0 + i,
                ));
                assert(crate::page_table::is_page_key(
                    crate::page_table::table_key(2, vpn0 + i),
                    vpn0 + i,
                ));
                assert(crate::page_table::is_page_key(
                    crate::page_table::table_key(3, vpn0 + i),
                    vpn0 + i,
                ));
                assert(range_keys(vpn0, count as int).contains(
                    crate::page_table::table_key(1, vpn0 + i),
                ));
                assert(range_keys(vpn0, count as int).contains(
                    crate::page_table::table_key(2, vpn0 + i),
                ));
                assert(range_keys(vpn0, count as int).contains(
                    crate::page_table::table_key(3, vpn0 + i),
                ));
                assert(old(table).table().has_tables(key));
            }
        }
        match self.mapper.map_addr(&mut table.sv48, vaddr, paddr, self.perms) {
            Ok(()) => {
                proof {
                    let other = (1 - self.slot) as u64;
                    assert(old(table).slot_wf(other));
                    assert(table.slot_wf(other));
                    assert(table.slot_wf(self.slot));
                }
                Ok(())
            },
            Err(_) => Err(Error::MapFailed),
        }
    }
}

/// What the construction of a page table has used up so far: the state of
/// the boot allocator and the tables that exist.
pub struct BuildState {
    /// The boot allocator.
    pub alloc: AllocModel,
    /// The names of the tables that exist.
    pub keys: Set<u64>,
}

/// The state of a construction that has got as far as `sv48` with the
/// allocator `hyp_mem`.
pub open spec fn build_state(sv48: FirstStagePageTable, hyp_mem: HypPageAlloc) -> BuildState {
    BuildState { alloc: hyp_mem.model(), keys: sv48.tables().dom() }
}

/// True if every frame that the allocator can hand out fits in a page
/// table entry.
pub open spec fn frames_fit(m: AllocModel) -> bool {
    m.base as int % 4096 == 0 && m.addr_of(m.fm.len() as int) <= PHYS_ADDR_END
}

/// True if the shared region `r` can be mapped in state `s`: a frame can
/// be taken for each of its tables that is missing.
pub open spec fn shared_ok(s: BuildState, r: SharedRegion) -> bool {
    s.alloc.can_singles(missing_tables(s.keys, r.vpn(), r.page_count as int))
}

/// The state after the shared region `r` has been mapped in state `s`.
pub open spec fn after_shared(s: BuildState, r: SharedRegion) -> BuildState {
    BuildState {
        alloc: s.alloc.after_singles(missing_tables(s.keys, r.vpn(), r.page_count as int)),
        keys: s.keys.union(range_keys(r.vpn(), r.page_count as int)),
    }
}

/// True if the private region `p` can be mapped in state `s`: its pages
/// can be taken in one piece, and then a frame for each of its tables that
/// is missing.
pub open spec fn private_ok(s: BuildState, p: PrivateRegion) -> bool {
    &&& s.alloc.can_take(p.spec_page_count() as int, PAGE_SIZE_4K)
    &&& s.alloc.after_take(p.spec_page_count() as int, PAGE_SIZE_4K).can_singles(
        missing_tables(s.keys, p.vpn(), p.spec_page_count() as int),
    )
}

/// The state after the private region `p` has been mapped in state `s`.
pub open spec fn after_private(s: BuildState, p: PrivateRegion) -> BuildState {
    BuildState {
        alloc: s.alloc.after_take(p.spec_page_count() as int, PAGE_SIZE_4K).after_singles(
            missing_tables(s.keys, p.vpn(), p.spec_page_count() as int),
        ),
        keys: s.keys.union(range_keys(p.vpn(), p.spec_page_count() as int)),
    }
}

/// The address of the first of the physical pages that the private region
/// `p` gets when it is mapped in state `s`.
pub open spec fn private_base(s: BuildState, p: PrivateRegion) -> int {
    s.alloc.addr_of(s.alloc.take_index(p.spec_page_count() as int, PAGE_SIZE_4K))
}

impl SharedRegion {
    /// Maps this region into a page table. The frames for new tables come
    /// from `hyp_mem`. No page of the region may be mapped yet.
    pub fn map(&self, sv48: &mut FirstStagePageTable, hyp_mem: &mut HypPageAlloc)
        requires
            old(sv48).wf(),
            old(hyp_mem).wf(),
            self.wf(),
            frames_fit(old(hyp_mem).model()),
            forall|k: u64| self.holds(k as int) ==> !#[trigger] old(sv48)@.contains_key(k),
            shared_ok(build_state(*old(sv48), *old(hyp_mem)), *self),
        ensures
            final(sv48).wf(),
            final(hyp_mem).wf(),
            frames_fit(final(hyp_mem).model()),
            build_state(*final(sv48), *final(hyp_mem)) == after_shared(
                build_state(*old(sv48), *old(hyp_mem)),
                *self,
            ),
            final(sv48).spec_root() == old(sv48).spec_root(),
            final(sv48).spec_owner() == old(sv48).spec_owner(),
            forall|k: u64|
                final(sv48)@.contains_key(k) <==> old(sv48)@.contains_key(k)
                    || self.holds(k as int),
            forall|k: u64| self.holds(k as int)
                ==> self.is_leaf_of(k as int, #[trigger] final(sv48)@[k]),
            forall|k: u64|
                old(sv48)@.contains_key(k) ==> #[trigger] final(sv48)@[k] == old(sv48)@[k],
            old(hyp_mem).spec_next() <= final(hyp_mem).spec_next(),
            claims(
                old(hyp_mem).pages_view(),
                final(hyp_mem).pages_view(),
                old(hyp_mem).spec_next(),
                final(hyp_mem).spec_next(),
            ),
    {
        proof {
            old(sv48).lemma_tables_finite();
            assert forall|i: int| 0 <= i < self.page_count implies !#[trigger] old(sv48)@.contains_key(
                (self.vpn() + i) as u64,
            ) by {
                assert(self.holds(self.vpn() + i));
            }
        }
        let need: u64 = match sv48.missing_pte_pages(self.vaddr, PageSize::Size4k, self.page_count) {
            Some(n) => n,
            None => {
                proof {
                    assert(false);
                }
                0
            },
        };
        proof {
            crate::page_tracking::lemma_singles_shape(hyp_mem.model(), need as nat);
        }
        let frames = hyp_mem.take_singles(need as usize);
        let mut pool = PtePagePool::from_pages(frames);
        let mapper = match sv48.map_range(self.vaddr, PageSize::Size4k, self.page_count, &mut pool) {
            Ok(m) => m,
            Err(_) => {
                proof {
                    assert(false);
                }
                return ;
            },
        };
        let v: u64 = self.vaddr.bits();
        let ghost mid = *sv48;
        fill_range(sv48, &mapper, self.paddr, self.pte_fields);
        proof {
            assert(mapper_vpn(mapper) == self.vpn());
            assert(self.vpn() * 4096 == v);
            assert forall|k: u64| sv48@.contains_key(k) <==> old(sv48)@.contains_key(k)
                || self.holds(k as int) by {
                assert(in_mapper(mapper, k as int) == self.holds(k as int));
                assert(mid@.contains_key(k) == old(sv48)@.contains_key(k));
            }
            assert forall|k: u64| self.holds(k as int) implies self.is_leaf_of(
                k as int,
                #[trigger] sv48@[k],
            ) by {
                assert(in_mapper(mapper, k as int));
            }
            assert(build_state(*sv48, *hyp_mem).keys =~= after_shared(
                build_state(*old(sv48), *old(hyp_mem)),
                *self,
            ).keys);
        }
    }
}

impl PrivateRegion {
    /// Maps this region into a page table and returns the physical pages
    /// that back it; they are taken from `hyp_mem`, and so are the frames
    /// for new tables. No page of the region may be mapped yet. The pages
    /// have to be filled with the image of the region.
    pub fn map(&self, sv48: &mut FirstStagePageTable, hyp_mem: &mut HypPageAlloc) -> (pages:
        SequentialPages)
        requires
            old(sv48).wf(),
            old(hyp_mem).wf(),
            self.wf(),
            frames_fit(old(hyp_mem).model()),
            forall|k: u64| self.holds(k as int) ==> !#[trigger] old(sv48)@.contains_key(k),
            private_ok(build_state(*old(sv48), *old(hyp_mem)), *self),
        ensures
            final(sv48).wf(),
            final(hyp_mem).wf(),
            frames_fit(final(hyp_mem).model()),
            build_state(*final(sv48), *final(hyp_mem)) == after_private(
                build_state(*old(sv48), *old(hyp_mem)),
                *self,
            ),
            pages.spec_base().spec_bits() == private_base(
                build_state(*old(sv48), *old(hyp_mem)),
                *self,
            ),
            pages.spec_len() == self.spec_page_count(),
            final(sv48).spec_root() == old(sv48).spec_root(),
            final(sv48).spec_owner() == old(sv48).spec_owner(),
            forall|k: u64|
                final(sv48)@.contains_key(k) <==> old(sv48)@.contains_key(k)
                    || self.holds(k as int),
            forall|k: u64|
                self.holds(k as int) ==> (#[trigger] final(sv48)@[k]).paddr.spec_bits()
                    == pages.spec_base().spec_bits() + (k - self.vpn()) * 4096
                        && final(sv48)@[k].fields
                    == self.pte_fields,
            forall|k: u64|
                old(sv48)@.contains_key(k) ==> #[trigger] final(sv48)@[k] == old(sv48)@[k],
            old(hyp_mem).spec_next() <= final(hyp_mem).spec_next(),
            claims(
                old(hyp_mem).pages_view(),
                final(hyp_mem).pages_view(),
                old(hyp_mem).spec_next(),
                final(hyp_mem).spec_next(),
            ),
    {
        // Allocate first.
        let page_count: u64 = self.page_count();
        let ghost m0 = hyp_mem.model();
        let ghost pages0 = hyp_mem.pages_view();
        let ghost next0 = hyp_mem.spec_next();
        proof {
            old(sv48).lemma_tables_finite();
            hyp_mem.lemma_wf();
            crate::page_tracking::lemma_first_fit(
                m0.fm,
                m0.base,
                m0.next,
                page_count as int,
                PAGE_SIZE_4K,
            );
            assert forall|i: int| 0 <= i < page_count implies !#[trigger] old(sv48)@.contains_key(
                (self.vpn() + i) as u64,
            ) by {
                assert(self.holds(self.vpn() + i));
            }
        }
        let pages = hyp_mem.take_pages_for_hyp_state(page_count as usize);
        let ghost pages1 = hyp_mem.pages_view();
        let ghost next1 = hyp_mem.spec_next();
        // Map the pages in the page table.
        let need: u64 = match sv48.missing_pte_pages(self.vaddr, PageSize::Size4k, page_count) {
            Some(n) => n,
            None => {
                proof {
                    assert(false);
                }
                0
            },
        };
        proof {
            crate::page_tracking::lemma_singles_shape(hyp_mem.model(), need as nat);
        }
        let frames = hyp_mem.take_singles(need as usize);
        let mut pool = PtePagePool::from_pages(frames);
        let mapper = match sv48.map_range(self.vaddr, PageSize::Size4k, page_count, &mut pool) {
            Ok(m) => m,
            Err(_) => {
                proof {
                    assert(false);
                }
                return pages;
            },
        };
        let ghost mid = *sv48;
        fill_range(sv48, &mapper, pages.base(), self.pte_fields);
        proof {
            assert(mapper_vpn(mapper) == self.vpn());
            assert forall|k: u64| sv48@.contains_key(k) <==> old(sv48)@.contains_key(k)
                || self.holds(k as int) by {
                assert(in_mapper(mapper, k as int) == self.holds(k as int));
                assert(mid@.contains_key(k) == old(sv48)@.contains_key(k));
            }
            assert forall|k: u64| self.holds(k as int) implies (#[trigger] sv48@[k]).paddr.spec_bits()
                == pages.spec_base().spec_bits() + (k - self.vpn()) * 4096 && sv48@[k].fields
                == self.pte_fields by {
                assert(in_mapper(mapper, k as int));
            }
            assert(build_state(*sv48, *hyp_mem).keys =~= after_private(
                build_state(*old(sv48), *old(hyp_mem)),
                *self,
            ).keys);
            crate::page_tracking::lemma_claims_chain(
                pages0,
                pages1,
                hyp_mem.pages_view(),
                next0,
                next1,
                hyp_mem.spec_next(),
            );
        }
        pages
    }
}

/// The regions of a shared list, `v`, in the order in which they were
/// pushed.
pub uninterp spec fn shared_items(v: ArrayVec<SharedRegion, 32>) -> Seq<SharedRegion>;

/// The regions of a private list, `v`, in the order in which they were
/// pushed.
pub uninterp spec fn private_items(v: ArrayVec<PrivateRegion, 32>) -> Seq<PrivateRegion>;

/// `ArrayVec::new` of the crate arrayvec: a new list is empty.
#[verifier::external_body]
fn shared_new() -> (v: ArrayVec<SharedRegion, 32>)
    ensures
        shared_items(v).len() == 0,
{
    ArrayVec::new()
}

/// `ArrayVec::push` of the crate arrayvec: the element is appended. The
/// call panics on a full list, so the list must hold less than 32 regions.
#[verifier::external_body]
fn shared_push(v: &mut ArrayVec<SharedRegion, 32>, region: SharedRegion)
    requires
        shared_items(*old(v)).len() < MAX_SHARED_REGIONS,
    ensures
        shared_items(*final(v)) == shared_items(*old(v)).push(region),
{
    v.push(region)
}

/// `ArrayVec::len` of the crate arrayvec: the number of elements.
#[verifier::external_body]
fn shared_len(v: &ArrayVec<SharedRegion, 32>) -> (n: usize)
    ensures
        n == shared_items(*v).len(),
{
    v.len()
}

/// `ArrayVec::as_slice` of the crate arrayvec, indexed: the element at
/// position `i`, which must exist.
#[verifier::external_body]
fn shared_get(v: &ArrayVec<SharedRegion, 32>, i: usize) -> (region: SharedRegion)
    requires
        i < shared_items(*v).len(),
    ensures
        region == shared_items(*v)[i as int],
{
    v.as_slice()[i]
}

/// `ArrayVec::new` of the crate arrayvec: a new list is empty.
#[verifier::external_body]
fn private_new() -> (v: ArrayVec<PrivateRegion, 32>)
    ensures
        private_items(v).len() == 0,
{
    ArrayVec::new()
}

/// `ArrayVec::push` of the crate arrayvec: the element is appended. The
/// call panics on a full list, so the list must hold less than 32 regions.
#[verifier::external_body]
fn private_push(v: &mut ArrayVec<PrivateRegion, 32>, region: PrivateRegion)
    requires
        private_items(*old(v)).len() < MAX_PRIVATE_REGIONS,
    ensures
        private_items(*final(v)) == private_items(*old(v)).push(region),
{
    v.push(region)
}

/// `ArrayVec::len` of the crate arrayvec: the number of elements.
#[verifier::external_body]
fn private_len(v: &ArrayVec<PrivateRegion, 32>) -> (n: usize)
    ensures
        n == private_items(*v).len(),
{
    v.len()
}

/// `ArrayVec::as_slice` of the crate arrayvec, indexed: the element at
/// position `i`, which must exist.
#[verifier::external_body]
fn private_get(v: &ArrayVec<PrivateRegion, 32>, i: usize) -> (region: PrivateRegion)
    requires
        i < private_items(*v).len(),
    ensures
        region == private_items(*v)[i as int],
{
    v.as_slice()[i]
}

/// The shared regions for the regions of a memory map, in the order of the
/// memory map. Regions that are reserved for the firmware are left out.
pub open spec fn shared_of(regions: Seq<HwMemRegion>) -> Seq<SharedRegion>
    decreases regions.len(),
{
    if regions.len() == 0 {
        Seq::empty()
    } else {
        let rest = shared_of(regions.drop_last());
        match region_perms(regions.last().region_type) {
            None => rest,
            Some(perms) => rest.push(
                SharedRegion {
                    vaddr: regions.last().base,
                    paddr: regions.last().base,
                    page_count: PageSize::spec_num_4k_pages(regions.last().size),
                    pte_fields: PteFieldBits::spec_leaf_with_perms(perms),
                },
            ),
        }
    }
}

/// The error of the first of the segments from position `i` on that cannot
/// be a private region, if there is one.
pub open spec fn first_bad_segment(segments: Seq<crate::riscv_elf::SegmentModel>, i: int) -> Option<
    Error,
>
    decreases segments.len() - i,
{
    if i < 0 || i >= segments.len() {
        None
    } else {
        match PrivateRegion::segment_result(segments[i].vaddr, segments[i].size) {
            Some(e) => Some(e),
            None => first_bad_segment(segments, i + 1),
        }
    }
}

/// True if `k` is the number of a page of one of the first `n` of the
/// shared regions `regions`.
pub open spec fn in_shared(regions: Seq<SharedRegion>, n: int, k: int) -> bool {
    exists|a: int| 0 <= a < n && (#[trigger] regions[a]).holds(k)
}

/// True if `k` is the number of a page of one of the first `n` of the
/// private regions `regions`.
pub open spec fn in_private(regions: Seq<PrivateRegion>, n: int, k: int) -> bool {
    exists|a: int| 0 <= a < n && (#[trigger] regions[a]).holds(k)
}

/// The number of frames that a page table keeps for the tables of its
/// slots.
pub const SLOT_POOL_PAGES: u64 = 10;

/// A set of global mappings of the hypervisor that can be used to create
/// page tables.
pub struct HypMap {
    shared_regions: ArrayVec<SharedRegion, 32>,
    private_regions: ArrayVec<PrivateRegion, 32>,
}

impl HypMap {
    /// The shared regions, in ascending order of their addresses.
    pub closed spec fn shared(&self) -> Seq<SharedRegion> {
        shared_items(self.shared_regions)
    }

    /// The private regions, in the order of the segments of the task.
    pub closed spec fn private(&self) -> Seq<PrivateRegion> {
        private_items(self.private_regions)
    }

    /// The map is consistent: the shared regions are mapped at their
    /// physical addresses, they ascend and do not overlap, and the private
    /// regions lie in the address window of the task.
    pub open spec fn wf(&self) -> bool {
        &&& self.shared().len() <= MAX_SHARED_REGIONS
        &&& self.private().len() <= MAX_PRIVATE_REGIONS
        &&& forall|i: int| 0 <= i < self.private().len() ==> (#[trigger] self.private()[i]).wf()
        &&& forall|i: int|
            0 <= i < self.shared().len() ==> (#[trigger] self.shared()[i]).vaddr
                == self.shared()[i].paddr
        &&& forall|i: int, j: int|
            0 <= i < j < self.shared().len() ==> (#[trigger] self.shared()[i]).paddr.spec_bits()
                + self.shared()[i].page_count * 4096 <= (
            #[trigger] self.shared()[j]).paddr.spec_bits()
    }

    /// True if a page table can be made of the map: every shared region
    /// lies in the lower half of the address space, and no two private
    /// regions share a page.
    pub open spec fn mappable(&self) -> bool {
        &&& forall|i: int| 0 <= i < self.shared().len() ==> (#[trigger] self.shared()[i]).wf()
        &&& forall|i: int, j: int|
            0 <= i < j < self.private().len() ==> (#[trigger] self.private()[i]).vpn()
                + self.private()[i].spec_page_count() <= (#[trigger] self.private()[j]).vpn()
                || self.private()[j].vpn() + self.private()[j].spec_page_count()
                <= self.private()[i].vpn()
    }

    /// Creates the map of the hypervisor from the memory map and the image
    /// of the user-mode task. All shared regions come from the memory map,
    /// all private regions from the segments of the task. Fails with the
    /// error of the first segment that is not aligned to a page or lies
    /// outside of the address window of the task.
    pub fn init(mem_map: &HwMemMap, umode_elf: &ElfMap<'static>) -> (r: Result<HypMap, Error>)
        requires
            mem_map.wf(),
            umode_elf.wf(),
        ensures
            match r {
                Ok(map) => {
                    &&& map.wf()
                    &&& map.shared() == shared_of(mem_map@)
                    &&& first_bad_segment(umode_elf@.segments, 0) is None
                    &&& map.private().len() == umode_elf@.segments.len()
                    &&& forall|i: int|
                        0 <= i < map.private().len() ==> {
                            let p = #[trigger] map.private()[i];
                            let seg = umode_elf@.segments[i];
                            &&& p.vaddr.spec_bits() == seg.vaddr
                            &&& p.size == seg.size
                            &&& p.pte_fields == PteFieldBits::spec_leaf_with_perms(
                                segment_perms(seg.perms),
                            )
                            &&& seg.data == (match p.data {
                                Some(d) => Some(d@),
                                None => None,
                            })
                        }
                },
                Err(e) => first_bad_segment(umode_elf@.segments, 0) == Some(e),
            },
    {
        let regions = mem_map.regions();
        let mut shared_regions = shared_new();
        let n: usize = regions.len();
        let mut k: usize = 0;
        proof {
            assert(regions@.take(0) =~= Seq::<HwMemRegion>::empty());
        }
        while k < n
            invariant
                k <= n,
                n == regions@.len(),
                regions@ == mem_map@,
                crate::mem_map::regions_wf(regions@),
                shared_items(shared_regions) == shared_of(regions@.take(k as int)),
                shared_items(shared_regions).len() <= k,
                forall|i: int|
                    0 <= i < shared_items(shared_regions).len() ==> (#[trigger] shared_items(
                        shared_regions,
                    )[i]).vaddr == shared_items(shared_regions)[i].paddr,
                forall|i: int, j: int|
                    0 <= i < j < shared_items(shared_regions).len() ==> (#[trigger] shared_items(
                        shared_regions,
                    )[i]).paddr.spec_bits() + shared_items(shared_regions)[i].page_count * 4096 <= (
                    #[trigger] shared_items(shared_regions)[j]).paddr.spec_bits(),
                forall|i: int|
                    0 <= i < shared_items(shared_regions).len() && k < n
                        ==> (#[trigger] shared_items(
                        shared_regions,
                    )[i]).paddr.spec_bits() + shared_items(shared_regions)[i].page_count * 4096
                        <= regions@[k as int].base.spec_bits(),
            decreases n - k,
        {
            let region = regions[k];
            let ghost before = shared_items(shared_regions);
            proof {
                assert(regions@.take(k as int + 1).drop_last() =~= regions@.take(k as int));
                assert(regions@.take(k as int + 1).last() == regions@[k as int]);
                assert(regions@[k as int].wf());
                if k + 1 < n {
                    assert(regions@[k as int].spec_end() <= regions@[k as int + 1].base.spec_bits());
                }
            }
            match SharedRegion::from_hw_mem_region(&region) {
                Some(s) => {
                    shared_push(&mut shared_regions, s);
                    proof {
                        PageAddr::lemma_same_bits(s.vaddr, region.base);
                    }
                },
                None => {},
            }
            k = k + 1;
        }
        proof {
            assert(regions@.take(n as int) =~= regions@);
        }
        let mut private_regions = private_new();
        let count: usize = umode_elf.num_segments();
        let mut i: usize = 0;
        while i < count
            invariant
                i <= count,
                count == umode_elf@.segments.len(),
                count == umode_elf.segment_seq().len(),
                count <= 8,
                umode_elf.wf(),
                private_items(private_regions).len() == i,
                first_bad_segment(umode_elf@.segments, 0) == first_bad_segment(
                    umode_elf@.segments,
                    i as int,
                ),
                forall|j: int|
                    0 <= j < i ==> {
                        let p = #[trigger] private_items(private_regions)[j];
                        let seg = umode_elf@.segments[j];
                        &&& p.wf()
                        &&& p.vaddr.spec_bits() == seg.vaddr
                        &&& p.size == seg.size
                        &&& p.pte_fields == PteFieldBits::spec_leaf_with_perms(
                            segment_perms(seg.perms),
                        )
                        &&& seg.data == (match p.data {
                            Some(d) => Some(d@),
                            None => None,
                        })
                    },
            decreases count - i,
        {
            let seg = match umode_elf.segment(i) {
                Some(s) => s,
                None => {
                    proof {
                        assert(false);
                    }
                    return Err(Error::ElfInvalidAddress);
                },
            };
            let ghost before = private_items(private_regions);
            match PrivateRegion::from_umode_elf_segment(seg) {
                Ok(p) => {
                    private_push(&mut private_regions, p);
                    proof {
                        assert forall|j: int| 0 <= j < i implies private_items(private_regions)[j]
                            == before[j] by {}
                    }
                },
                Err(e) => {
                    return Err(e);
                },
            }
            i = i + 1;
        }
        Ok(HypMap { shared_regions, private_regions })
    }

    /// The number of shared regions.
    pub fn num_shared_regions(&self) -> (r: usize)
        ensures
            r == self.shared().len(),
    {
        shared_len(&self.shared_regions)
    }

    /// The shared region at position `i`.
    pub fn shared_region(&self, i: usize) -> (r: Option<SharedRegion>)
        ensures
            r is Some <==> i < self.shared().len(),
            r matches Some(s) ==> s == self.shared()[i as int],
    {
        if i < shared_len(&self.shared_regions) {
            Some(shared_get(&self.shared_regions, i))
        } else {
            None
        }
    }

    /// The number of private regions.
    pub fn num_private_regions(&self) -> (r: usize)
        ensures
            r == self.private().len(),
    {
        private_len(&self.private_regions)
    }

    /// The private region at position `i`.
    pub fn private_region(&self, i: usize) -> (r: Option<PrivateRegion>)
        ensures
            r is Some <==> i < self.private().len(),
            r matches Some(p) ==> p == self.private()[i as int],
    {
        if i < private_len(&self.private_regions) {
            Some(private_get(&self.private_regions, i))
        } else {
            None
        }
    }

    /// Puts the private regions that the task can write to back into their
    /// initial state. `windows` holds, for each private region, the memory
    /// of its pages; the memory of the regions that the task cannot write
    /// to is not looked at.
    pub fn restore_umode_private_regions(&self, windows: &mut Vec<Vec<u8>>)
        requires
            old(windows)@.len() == self.private().len(),
            forall|i: int|
                0 <= i < self.private().len()
                    && (#[trigger] self.private()[i]).spec_is_user_writable()
                    ==> old(windows)@[i]@.len() == self.private()[i].mapped_size(),
        ensures
            final(windows)@.len() == old(windows)@.len(),
            forall|i: int|
                0 <= i < self.private().len() ==> (#[trigger] final(windows)@[i])@ == (
                if self.private()[i].spec_is_user_writable() {
                    self.private()[i].image()
                } else {
                    old(windows)@[i]@
                }),
    {
        let n: usize = private_len(&self.private_regions);
        let mut i: usize = 0;
        while i < n
            invariant
                i <= n,
                n == self.private().len(),
                windows@.len() == n,
                old(windows)@.len() == n,
                forall|j: int|
                    0 <= j < n && (#[trigger] self.private()[j]).spec_is_user_writable()
                        ==> old(windows)@[j]@.len() == self.private()[j].mapped_size(),
                forall|j: int|
                    0 <= j < i ==> (#[trigger] windows@[j])@ == (
                    if self.private()[j].spec_is_user_writable() {
                        self.private()[j].image()
                    } else {
                        old(windows)@[j]@
                    }),
                forall|j: int| i <= j < n ==> #[trigger] windows@[j] == old(windows)@[j],
            decreases n - i,
        {
            let region = private_get(&self.private_regions, i);
            if region.is_user_writable() {
                assert(self.private()[i as int].spec_is_user_writable());
                assert(windows@[i as int] == old(windows)@[i as int]);
                assert(windows@[i as int]@.len() == region.mapped_size());
                let ghost before = windows@;
                region.restore(windows[i].as_mut_slice());
                proof {
                    assert forall|j: int| i < j < n implies #[trigger] windows@[j]
                        == old(windows)@[j] by {
                        assert(windows@[j] == before[j]);
                    }
                    assert forall|j: int| 0 <= j < i implies (#[trigger] windows@[j])@ == (
                    if self.private()[j].spec_is_user_writable() {
                        self.private()[j].image()
                    } else {
                        old(windows)@[j]@
                    }) by {
                        assert(windows@[j] == before[j]);
                    }
                }
            }
            i = i + 1;
        }
    }
}

impl HypMap {
    /// The state of the construction of a page table after the first `i`
    /// shared regions have been mapped, one after the other, from the state
    /// `s0` on.
    pub open spec fn state_after_shared(&self, s0: BuildState, i: int) -> BuildState
        decreases i,
    {
        if i <= 0 {
            s0
        } else {
            after_shared(self.state_after_shared(s0, i - 1), self.shared()[i - 1])
        }
    }

    /// True if the first `i` shared regions can be mapped, one after the
    /// other, from the state `s0` on.
    pub open spec fn shared_feasible(&self, s0: BuildState, i: int) -> bool
        decreases i,
    {
        i <= 0 || (self.shared_feasible(s0, i - 1) && shared_ok(
            self.state_after_shared(s0, i - 1),
            self.shared()[i - 1],
        ))
    }

    /// The state of the construction of a page table after the first `i`
    /// private regions have been mapped, one after the other, from the
    /// state `s0` on.
    pub open spec fn state_after_private(&self, s0: BuildState, i: int) -> BuildState
        decreases i,
    {
        if i <= 0 {
            s0
        } else {
            after_private(self.state_after_private(s0, i - 1), self.private()[i - 1])
        }
    }

    /// True if the first `i` private regions can be mapped, one after the
    /// other, from the state `s0` on.
    pub open spec fn private_feasible(&self, s0: BuildState, i: int) -> bool
        decreases i,
    {
        i <= 0 || (self.private_feasible(s0, i - 1) && private_ok(
            self.state_after_private(s0, i - 1),
            self.private()[i - 1],
        ))
    }

    /// The state of the construction when the root table has its frame.
    pub open spec fn start_state(m: AllocModel) -> BuildState {
        BuildState { alloc: m.after_next(), keys: Set::empty() }
    }

    /// The state of the construction when all shared regions are mapped.
    pub open spec fn shared_done(&self, m: AllocModel) -> BuildState {
        self.state_after_shared(Self::start_state(m), self.shared().len() as int)
    }

    /// The state of the construction when all regions are mapped.
    pub open spec fn private_done(&self, m: AllocModel) -> BuildState {
        self.state_after_private(self.shared_done(m), self.private().len() as int)
    }

    /// True if the allocator `m` has the memory that a new page table
    /// needs: a frame for the root table, then for each shared region the
    /// frames of its tables, then for each private region its pages and the
    /// frames of its tables, and last the frames for the tables of the
    /// slots. All the frames must fit in a page table entry.
    pub open spec fn can_build(&self, m: AllocModel) -> bool {
        &&& frames_fit(m)
        &&& m.can_next()
        &&& self.shared_feasible(Self::start_state(m), self.shared().len() as int)
        &&& self.private_feasible(self.shared_done(m), self.private().len() as int)
        &&& self.private_done(m).alloc.can_take(SLOT_POOL_PAGES as int, PAGE_SIZE_4K)
    }

    /// The allocator after a page table has been made.
    pub open spec fn built_alloc(&self, m: AllocModel) -> AllocModel {
        self.private_done(m).alloc.after_take(SLOT_POOL_PAGES as int, PAGE_SIZE_4K)
    }

    /// Create a new page table based on this map. The table is built from
    /// pages of `hyp_mem`: the root table first, then the shared regions,
    /// each mapped at its physical address, then the private regions, each
    /// mapped to fresh pages, and last a pool of frames for the tables of
    /// the slots. The fresh pages of a private region have to be filled
    /// with the image of the region.
    pub fn new_page_table(&self, hyp_mem: &mut HypPageAlloc) -> (r: HypPageTable)
        requires
            self.wf(),
            self.mappable(),
            old(hyp_mem).wf(),
            self.can_build(old(hyp_mem).model()),
        ensures
            r.wf(),
            r.slot_state(0) == SlotState::Free,
            r.slot_state(1) == SlotState::Free,
            r.pool().len() == SLOT_POOL_PAGES,
            r.table().spec_root().spec_bits() == old(hyp_mem).model().addr_of(
                old(hyp_mem).model().next,
            ),
            final(hyp_mem).wf(),
            final(hyp_mem).model() == self.built_alloc(old(hyp_mem).model()),
            old(hyp_mem).spec_next() <= final(hyp_mem).spec_next(),
            claims(
                old(hyp_mem).pages_view(),
                final(hyp_mem).pages_view(),
                old(hyp_mem).spec_next(),
                final(hyp_mem).spec_next(),
            ),
            forall|k: u64|
                r.table()@.contains_key(k) <==> in_shared(
                    self.shared(),
                    self.shared().len() as int,
                    k as int,
                ) || in_private(self.private(), self.private().len() as int, k as int),
            forall|a: int, k: u64|
                0 <= a < self.shared().len() && (#[trigger] self.shared()[a]).holds(k as int)
                    ==> self.shared()[a].is_leaf_of(k as int, #[trigger] r.table()@[k]),
            r.backing().len() == self.private().len(),
            forall|a: int|
                0 <= a < self.private().len()
                    ==> (#[trigger] r.backing()[a]).spec_base().spec_bits()
                    == private_base(
                    self.state_after_private(self.shared_done(old(hyp_mem).model()), a),
                    self.private()[a],
                ) && r.backing()[a].spec_len() == self.private()[a].spec_page_count(),
            forall|a: int, k: u64|
                0 <= a < self.private().len() && (#[trigger] self.private()[a]).holds(k as int)
                    ==> (
                #[trigger] r.table()@[k]).paddr.spec_bits()
                    == r.backing()[a].spec_base().spec_bits() + (
                k - self.private()[a].vpn()) * 4096 && r.table()@[k].fields
                    == self.private()[a].pte_fields,
    {
        let ghost m0 = hyp_mem.model();
        let ghost pages0 = hyp_mem.pages_view();
        let ghost next0 = hyp_mem.spec_next();
        let ghost s0 = Self::start_state(m0);
        proof {
            hyp_mem.lemma_wf();
        }
        // Create an empty page table.
        let root_page = hyp_mem.next_page();
        let mut sv48 = match FirstStagePageTable::new(root_page, PageOwnerId::hypervisor()) {
            Ok(t) => t,
            Err(_) => {
                proof {
                    assert(false);
                }
                vstd::pervasive::unreached()
            },
        };
        let ghost pages_root = hyp_mem.pages_view();
        proof {
            assert(build_state(sv48, *hyp_mem).keys =~= s0.keys);
            crate::page_tracking::lemma_first_free(m0.fm, next0 + 1);
            assert forall|j: int| next0 + 1 <= j < hyp_mem.spec_next() && 0 <= j
                < pages0.len() implies !(#[trigger] pages0[j]).spec_is_free() by {
                assert(m0.fm[j] == pages0[j].spec_is_free());
            }
            crate::page_tracking::lemma_claims_extend(
                pages0,
                pages_root,
                next0,
                next0 + 1,
                hyp_mem.spec_next(),
            );
        }
        // Map the regions shared across all page tables.
        let ns: usize = shared_len(&self.shared_regions);
        let mut i: usize = 0;
        while i < ns
            invariant
                i <= ns,
                ns == self.shared().len(),
                self.wf(),
                self.mappable(),
                sv48.wf(),
                hyp_mem.wf(),
                frames_fit(hyp_mem.model()),
                s0 == Self::start_state(m0),
                self.shared_feasible(s0, ns as int),
                build_state(sv48, *hyp_mem) == self.state_after_shared(s0, i as int),
                sv48.spec_root().spec_bits() == m0.addr_of(m0.next),
                next0 <= hyp_mem.spec_next(),
                claims(pages0, hyp_mem.pages_view(), next0, hyp_mem.spec_next()),
                forall|k: u64| sv48@.contains_key(k) <==> in_shared(self.shared(), i as int, k as int),
                forall|a: int, k: u64|
                    0 <= a < i && (#[trigger] self.shared()[a]).holds(k as int)
                        ==> self.shared()[a].is_leaf_of(k as int, #[trigger] sv48@[k]),
            decreases ns - i,
        {
            let region = shared_get(&self.shared_regions, i);
            let ghost before = sv48;
            let ghost pages_before = hyp_mem.pages_view();
            let ghost next_before = hyp_mem.spec_next();
            proof {
                self.lemma_shared_prefix(s0, i as int + 1, ns as int);
                assert(self.shared()[i as int].wf());
                assert forall|k: u64| region.holds(k as int) implies !#[trigger] sv48@.contains_key(
                    k,
                ) by {
                    if sv48@.contains_key(k) {
                        let a = choose|a: int| 0 <= a < i
                            && (#[trigger] self.shared()[a]).holds(k as int);
                        assert(self.shared()[a].wf());
                        assert(self.shared()[a].paddr.spec_bits() + self.shared()[a].page_count * 4096
                            <= self.shared()[i as int].paddr.spec_bits());
                    }
                }
            }
            region.map(&mut sv48, hyp_mem);
            proof {
                crate::page_tracking::lemma_claims_chain(
                    pages0,
                    pages_before,
                    hyp_mem.pages_view(),
                    next0,
                    next_before,
                    hyp_mem.spec_next(),
                );
                assert forall|k: u64| sv48@.contains_key(k) <==> in_shared(
                    self.shared(),
                    i as int + 1,
                    k as int,
                ) by {
                    if in_shared(self.shared(), i as int + 1, k as int) {
                        let a = choose|a: int|
                            0 <= a < i + 1 && (#[trigger] self.shared()[a]).holds(k as int);
                        if a < i {
                            assert(in_shared(self.shared(), i as int, k as int));
                        }
                    }
                    if before@.contains_key(k) {
                        let a = choose|a: int| 0 <= a < i
                            && (#[trigger] self.shared()[a]).holds(k as int);
                        assert(self.shared()[a].holds(k as int));
                    }
                    if region.holds(k as int) {
                        assert(self.shared()[i as int].holds(k as int));
                    }
                }
                assert forall|a: int, k: u64|
                    0 <= a < i + 1 && (#[trigger] self.shared()[a]).holds(
                        k as int,
                    ) implies self.shared()[a].is_leaf_of(k as int, #[trigger] sv48@[k]) by {
                    if a < i {
                        assert(in_shared(self.shared(), i as int, k as int));
                        assert(before@.contains_key(k));
                    }
                }
            }
            i = i + 1;
        }
        // Map the regions unique to a page table.
        let ghost s1 = self.state_after_shared(s0, ns as int);
        let np: usize = private_len(&self.private_regions);
        let mut backing: Vec<SequentialPages> = Vec::new();
        let mut j: usize = 0;
        while j < np
            invariant
                j <= np,
                np == self.private().len(),
                ns == self.shared().len(),
                self.wf(),
                self.mappable(),
                sv48.wf(),
                hyp_mem.wf(),
                frames_fit(hyp_mem.model()),
                self.private_feasible(s1, np as int),
                build_state(sv48, *hyp_mem) == self.state_after_private(s1, j as int),
                sv48.spec_root().spec_bits() == m0.addr_of(m0.next),
                next0 <= hyp_mem.spec_next(),
                claims(pages0, hyp_mem.pages_view(), next0, hyp_mem.spec_next()),
                forall|k: u64|
                    sv48@.contains_key(k) <==> in_shared(self.shared(), ns as int, k as int)
                        || in_private(self.private(), j as int, k as int),
                forall|a: int, k: u64|
                    0 <= a < ns && (#[trigger] self.shared()[a]).holds(k as int)
                        ==> self.shared()[a].is_leaf_of(k as int, #[trigger] sv48@[k]),
                backing@.len() == j,
                forall|a: int|
                    0 <= a < j ==> (#[trigger] backing@[a]).spec_base().spec_bits() == private_base(
                        self.state_after_private(s1, a),
                        self.private()[a],
                    ) && backing@[a].spec_len() == self.private()[a].spec_page_count(),
                forall|a: int, k: u64|
                    0 <= a < j && (#[trigger] self.private()[a]).holds(k as int) ==> (
                    #[trigger] sv48@[k]).paddr.spec_bits()
                        == backing@[a].spec_base().spec_bits() + (k
                        - self.private()[a].vpn()) * 4096 && sv48@[k].fields
                        == self.private()[a].pte_fields,
            decreases np - j,
        {
            let region = private_get(&self.private_regions, j);
            let ghost before = sv48;
            let ghost backing_before = backing@;
            let ghost pages_before = hyp_mem.pages_view();
            let ghost next_before = hyp_mem.spec_next();
            proof {
                self.lemma_private_prefix(s1, j as int + 1, np as int);
                assert(self.private()[j as int].wf());
                assert forall|k: u64| region.holds(k as int) implies !#[trigger] sv48@.contains_key(
                    k,
                ) by {
                    if in_shared(self.shared(), ns as int, k as int) {
                        let a = choose|a: int| 0 <= a < ns
                            && (#[trigger] self.shared()[a]).holds(k as int);
                        assert(self.shared()[a].wf());
                    }
                    if in_private(self.private(), j as int, k as int) {
                        let a = choose|a: int| 0 <= a < j
                            && (#[trigger] self.private()[a]).holds(k as int);
                        assert(self.private()[a].vpn() + self.private()[a].spec_page_count()
                            <= self.private()[j as int].vpn() || self.private()[j as int].vpn()
                            + self.private()[j as int].spec_page_count() <= self.private()[a].vpn());
                    }
                }
            }
            let pages = region.map(&mut sv48, hyp_mem);
            backing.push(pages);
            proof {
                crate::page_tracking::lemma_claims_chain(
                    pages0,
                    pages_before,
                    hyp_mem.pages_view(),
                    next0,
                    next_before,
                    hyp_mem.spec_next(),
                );
                assert forall|k: u64|
                    sv48@.contains_key(k) <==> in_shared(self.shared(), ns as int, k as int)
                        || in_private(self.private(), j as int + 1, k as int) by {
                    if in_private(self.private(), j as int + 1, k as int) {
                        let a = choose|a: int|
                            0 <= a < j + 1 && (#[trigger] self.private()[a]).holds(k as int);
                        if a < j {
                            assert(in_private(self.private(), j as int, k as int));
                        }
                    }
                    if in_private(self.private(), j as int, k as int) {
                        let a = choose|a: int| 0 <= a < j
                            && (#[trigger] self.private()[a]).holds(k as int);
                        assert(self.private()[a].holds(k as int));
                    }
                    if region.holds(k as int) {
                        assert(self.private()[j as int].holds(k as int));
                    }
                }
                assert forall|a: int, k: u64|
                    0 <= a < ns && (#[trigger] self.shared()[a]).holds(
                        k as int,
                    ) implies self.shared()[a].is_leaf_of(k as int, #[trigger] sv48@[k]) by {
                    assert(in_shared(self.shared(), ns as int, k as int));
                    assert(before@.contains_key(k));
                }
                assert forall|a: int, k: u64|
                    0 <= a < j + 1 && (#[trigger] self.private()[a]).holds(k as int) implies (
                #[trigger] sv48@[k]).paddr.spec_bits() == backing@[a].spec_base().spec_bits() + (k
                    - self.private()[a].vpn()) * 4096 && sv48@[k].fields
                    == self.private()[a].pte_fields by {
                    if a < j {
                        assert(in_private(self.private(), j as int, k as int));
                        assert(before@.contains_key(k));
                        assert(backing@[a] == backing_before[a]);
                    }
                }
                assert forall|a: int| 0 <= a < j + 1 implies (
                #[trigger] backing@[a]).spec_base().spec_bits() == private_base(
                    self.state_after_private(s1, a),
                    self.private()[a],
                ) && backing@[a].spec_len() == self.private()[a].spec_page_count() by {
                    if a < j {
                        assert(backing@[a] == backing_before[a]);
                    }
                }
            }
            j = j + 1;
        }
        // Set frames aside for the tables of the slots.
        let ghost pages_before = hyp_mem.pages_view();
        let ghost next_before = hyp_mem.spec_next();
        let pool_pages = hyp_mem.take_pages_for_hyp_state(SLOT_POOL_PAGES as usize);
        let pte_pages = PtePagePool::from_sequential(pool_pages);
        let table = HypPageTable {
            sv48,
            pte_pages,
            slot0: SlotState::Free,
            slot1: SlotState::Free,
            backing,
        };
        proof {
            crate::page_tracking::lemma_claims_chain(
                pages0,
                pages_before,
                hyp_mem.pages_view(),
                next0,
                next_before,
                hyp_mem.spec_next(),
            );
            sv48.lemma_tables_finite();
            lemma_area_keys_bound(sv48.tables().dom());
            assert forall|k: u64|
                SLOT_AREA_VPN <= k < SLOT_AREA_VPN + SLOT_AREA_PAGES implies !#[trigger] sv48@.contains_key(
                k,
            ) by {
                if in_shared(self.shared(), ns as int, k as int) {
                    let a = choose|a: int| 0 <= a < ns
                        && (#[trigger] self.shared()[a]).holds(k as int);
                    assert(self.shared()[a].wf());
                }
                if in_private(self.private(), np as int, k as int) {
                    let a = choose|a: int| 0 <= a < np
                        && (#[trigger] self.private()[a]).holds(k as int);
                    assert(self.private()[a].wf());
                }
            }
            assert(table.slot_wf(0));
            assert(table.slot_wf(1));
        }
        table
    }

    /// A construction that can go through `n` shared regions can go through
    /// the first `i` of them.
    proof fn lemma_shared_prefix(&self, s0: BuildState, i: int, n: int)
        requires
            0 <= i <= n,
            self.shared_feasible(s0, n),
        ensures
            self.shared_feasible(s0, i),
        decreases n - i,
    {
        if i < n {
            self.lemma_shared_prefix(s0, i + 1, n);
        }
    }

    /// A construction that can go through `n` private regions can go
    /// through the first `i` of them.
    proof fn lemma_private_prefix(&self, s0: BuildState, i: int, n: int)
        requires
            0 <= i <= n,
            self.private_feasible(s0, n),
        ensures
            self.private_feasible(s0, i),
        decreases n - i,
    {
        if i < n {
            self.lemma_private_prefix(s0, i + 1, n);
        }
    }
}

/// The area of the slots is translated through six tables: four of level
/// 1, one of level 2 and one of level 3. So at most six tables are
/// missing for it, whatever tables exist.
pub proof fn lemma_area_keys_bound(have: Set<u64>)
    requires
        have.finite(),
    ensures
        missing_tables(have, SLOT_AREA_VPN as int, SLOT_AREA_PAGES as int) <= 6,
        6 <= SLOT_POOL_PAGES,
        SLOT_POOL_PAGES == spec_max_pte_pages(SLOT_AREA_PAGES),
{
    let area = range_keys(SLOT_AREA_VPN as int, SLOT_AREA_PAGES as int);
    lemma_range_keys_finite(SLOT_AREA_VPN as int, SLOT_AREA_PAGES as int);
    let base = SLOT_AREA_VPN as int;
    let s1 = Set::<u64>::empty().insert(crate::page_table::table_key(1, base));
    let s2 = s1.insert(crate::page_table::table_key(1, base + 512));
    let s3 = s2.insert(crate::page_table::table_key(1, base + 1024));
    let s4 = s3.insert(crate::page_table::table_key(1, base + 1536));
    let s5 = s4.insert(crate::page_table::table_key(2, base));
    let s6 = s5.insert(crate::page_table::table_key(3, base));
    assert(s1.len() <= 1);
    assert(s2.len() <= 2);
    assert(s3.len() <= 3);
    assert(s4.len() <= 4);
    assert(s5.len() <= 5);
    assert(s6.len() <= 6);
    assert forall|k: u64| area.contains(k) implies s6.contains(k) by {
        let i = choose|i: int|
            0 <= i < SLOT_AREA_PAGES && #[trigger] crate::page_table::is_page_key(k, base + i);
        assert(0 <= i < 2048);
    }
    let missing = area.difference(have);
    assert(missing.subset_of(s6));
    vstd::set_lib::lemma_len_subset(missing, s6);
}

} // verus!
