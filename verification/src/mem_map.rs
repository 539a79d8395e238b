//! The inventory of physical memory that the firmware hands to the hypervisor.
//!
//! A `HwMemMap` is built once, region by region, and is then only read. Its
//! regions are page-aligned, do not overlap and are kept sorted by base
//! address.

use crate::pages::{PageAddr, PAGE_SIZE_4K};
use vstd::prelude::*;

verus! {

/// The most regions that a memory map can hold.
pub const MAX_HW_MEM_REGIONS: usize = 32;

/// What a reserved region is reserved for.
#[derive(Clone, Copy, Debug, PartialEq, Eq, Structural)]
pub enum HwReservedMemType {
    /// Memory that only the firmware may touch.
    FirmwareReserved,
    /// The hypervisor's own code and data.
    HypervisorImage,
    /// The kernel image of the host VM.
    HostKernelImage,
    /// The initial RAM disk of the host VM.
    HostInitramfsImage,
    /// The array of per-page ownership records.
    PageMap,
    /// The hypervisor's heap.
    HypervisorHeap,
    /// The per-CPU areas of the hypervisor.
    HypervisorPerCpu,
}

/// The kind of a region of the memory map.
#[derive(Clone, Copy, Debug, PartialEq, Eq, Structural)]
pub enum HwMemRegionType {
    /// RAM that nobody uses yet.
    Available,
    /// RAM that is set aside for the given purpose.
    Reserved(HwReservedMemType),
    /// Device memory.
    Mmio,
}

/// Why a region was refused.
#[derive(Clone, Copy, Debug, PartialEq, Eq, Structural)]
pub enum Error {
    /// The base or the size of the region is not a multiple of 4 KiB.
    UnalignedRegion,
    /// The region is empty or reaches past the end of the address space.
    InvalidRegionSize,
    /// The region shares a byte with a region that is already in the map.
    OverlappingRegion,
    /// The map is full.
    OutOfSpace,
}

/// One region of physical memory.
#[derive(Clone, Copy, Debug, PartialEq, Eq, Structural)]
pub struct HwMemRegion {
    /// Where the region starts.
    pub base: PageAddr,
    /// Its size in bytes.
    pub size: u64,
    /// What the region holds.
    pub region_type: HwMemRegionType,
}

impl HwMemRegion {
    /// The first address after the region, as an unbounded integer.
    pub open spec fn spec_end(&self) -> int {
        self.base.spec_bits() + self.size
    }

    /// A region that a memory map can hold: not empty, a whole number of
    /// pages, and inside the address space.
    pub open spec fn wf(&self) -> bool {
        &&& self.size > 0
        &&& self.base.spec_bits() as int % 4096 == 0
        &&& self.size as int % 4096 == 0
        &&& self.spec_end() <= u64::MAX
    }

    /// Where the region starts.
    pub fn base(&self) -> (r: PageAddr)
        ensures
            r == self.base,
    {
        self.base
    }

    /// The size of the region in bytes.
    pub fn size(&self) -> (r: u64)
        ensures
            r == self.size,
    {
        self.size
    }

    /// What the region holds.
    pub fn region_type(&self) -> (r: HwMemRegionType)
        ensures
            r == self.region_type,
    {
        self.region_type
    }
}

/// True if `regions` is a legal content of a memory map: every region is well
/// formed, and each one ends before the next begins.
pub open spec fn regions_wf(regions: Seq<HwMemRegion>) -> bool {
    &&& regions.len() <= MAX_HW_MEM_REGIONS
    &&& forall|i: int| 0 <= i < regions.len() ==> (#[trigger] regions[i]).wf()
    &&& forall|i: int, j: int|
        0 <= i < j < regions.len() ==> (#[trigger] regions[i]).spec_end() <= (
        #[trigger] regions[j]).base.spec_bits()
}

/// True if the bytes `[base, base + size)` meet the region `r`.
pub open spec fn overlaps(r: HwMemRegion, base: u64, size: u64) -> bool {
    base < r.spec_end() && r.base.spec_bits() < base + size
}

/// True if the bytes `[base, base + size)` meet one of `regions`.
pub open spec fn overlaps_any(regions: Seq<HwMemRegion>, base: u64, size: u64) -> bool {
    exists|i: int| 0 <= i < regions.len() && overlaps(#[trigger] regions[i], base, size)
}

/// The position at which a region that starts at `base` belongs in `regions`:
/// the number of regions that start below it.
pub open spec fn insert_position(regions: Seq<HwMemRegion>, base: u64) -> int
    decreases regions.len(),
{
    if regions.len() == 0 {
        0
    } else if regions.last().base.spec_bits() < base {
        regions.len() as int
    } else {
        insert_position(regions.drop_last(), base)
    }
}

/// A memory map under construction.
pub struct HwMemMapBuilder {
    regions: Vec<HwMemRegion>,
}

impl HwMemMapBuilder {
    /// The regions added so far, in ascending order of address.
    pub closed spec fn view(&self) -> Seq<HwMemRegion> {
        self.regions@
    }

    /// The builder holds a legal set of regions.
    pub open spec fn wf(&self) -> bool {
        regions_wf(self@)
    }

    /// A builder that holds no region.
    pub fn new() -> (r: HwMemMapBuilder)
        ensures
            r.wf(),
            r@.len() == 0,
    {
        HwMemMapBuilder { regions: Vec::new() }
    }

    /// Adds the region of `size` bytes at `base`. The region must consist of
    /// whole pages and must not meet a region added before.
    pub fn add_region(self, base: u64, size: u64, region_type: HwMemRegionType) -> (r: Result<
        HwMemMapBuilder,
        Error,
    >)
        requires
            self.wf(),
        ensures
            match r {
                Ok(b) => {
                    &&& b.wf()
                    &&& base as int % 4096 == 0 && size as int % 4096 == 0
                    &&& size > 0 && base + size <= u64::MAX
                    &&& !overlaps_any(self@, base, size)
                    &&& self@.len() < MAX_HW_MEM_REGIONS
                    &&& b@.len() == self@.len() + 1
                    &&& b@
                        == self@.insert(insert_position(self@, base), b@[insert_position(self@, base)])
                    &&& b@[insert_position(self@, base)].base.spec_bits() == base
                    &&& b@[insert_position(self@, base)].size == size
                    &&& b@[insert_position(self@, base)].region_type == region_type
                },
                Err(e) => {
                    &&& e == add_region_error(self@, base, size)
                    &&& add_region_refused(self@, base, size)
                },
            },
    {
        let addr = PageAddr::new(base);
        if addr.is_none() || size % PAGE_SIZE_4K != 0 {
            return Err(Error::UnalignedRegion);
        }
        if size == 0 || size > u64::MAX - base {
            return Err(Error::InvalidRegionSize);
        }
        let found = find_position(&self.regions, base, size);
        let pos: usize = match found {
            Some(p) => p,
            None => {
                return Err(Error::OverlappingRegion);
            },
        };
        if self.regions.len() >= MAX_HW_MEM_REGIONS {
            return Err(Error::OutOfSpace);
        }
        let region = HwMemRegion { base: addr.unwrap(), size, region_type };
        let ghost old_regions = self.regions@;
        let mut regions = self.regions;
        regions.insert(pos, region);
        proof {
            lemma_insert_keeps_wf(old_regions, region);
        }
        Ok(HwMemMapBuilder { regions })
    }

    /// Ends construction.
    pub fn build(self) -> (r: HwMemMap)
        requires
            self.wf(),
        ensures
            r.wf(),
            r@ == self@,
    {
        HwMemMap { regions: self.regions }
    }
}

/// True if the region of `size` bytes at `base` cannot be added to `regions`.
pub open spec fn add_region_refused(regions: Seq<HwMemRegion>, base: u64, size: u64) -> bool {
    ||| base as int % 4096 != 0
    ||| size as int % 4096 != 0
    ||| size == 0
    ||| base + size > u64::MAX
    ||| overlaps_any(regions, base, size)
    ||| regions.len() >= MAX_HW_MEM_REGIONS
}

/// The error with which a refused region is refused: the first test that it
/// fails, in the order alignment, size, overlap, space.
pub open spec fn add_region_error(regions: Seq<HwMemRegion>, base: u64, size: u64) -> Error {
    if base as int % 4096 != 0 || size as int % 4096 != 0 {
        Error::UnalignedRegion
    } else if size == 0 || base + size > u64::MAX {
        Error::InvalidRegionSize
    } else if overlaps_any(regions, base, size) {
        Error::OverlappingRegion
    } else {
        Error::OutOfSpace
    }
}

/// Finds where a region belongs, or `None` if it meets a region of the map.
fn find_position(regions: &Vec<HwMemRegion>, base: u64, size: u64) -> (r: Option<usize>)
    requires
        regions_wf(regions@),
        size > 0,
        base + size <= u64::MAX,
    ensures
        r is None <==> overlaps_any(regions@, base, size),
        r matches Some(p) ==> p == insert_position(regions@, base) && p <= regions@.len(),
{
    let end: u64 = base + size;
    let n: usize = regions.len();
    let mut pos: usize = 0;
    let mut i: usize = 0;
    while i < n
        invariant
            i <= n,
            n == regions@.len(),
            regions_wf(regions@),
            end == base + size,
            pos <= i,
            pos == insert_position(regions@.take(i as int), base),
            forall|j: int| 0 <= j < i ==> !overlaps(#[trigger] regions@[j], base, size),
        decreases n - i,
    {
        let r = &regions[i];
        let r_base: u64 = r.base.bits();
        assert(regions@[i as int].wf());
        let r_end: u64 = r_base + r.size;
        if base < r_end && r_base < end {
            assert(overlaps(regions@[i as int], base, size));
            return None;
        }
        proof {
            let before = regions@.take(i as int);
            let after = regions@.take(i as int + 1);
            assert(after.drop_last() == before);
            assert(after.last() == regions@[i as int]);
        }
        if r_base < base {
            pos = i + 1;
        }
        i = i + 1;
    }
    proof {
        assert(regions@.take(n as int) == regions@);
    }
    Some(pos)
}

proof fn lemma_insert_keeps_wf(regions: Seq<HwMemRegion>, region: HwMemRegion)
    requires
        regions_wf(regions),
        regions.len() < MAX_HW_MEM_REGIONS,
        region.wf(),
        !overlaps_any(regions, region.base.spec_bits(), region.size),
    ensures
        0 <= insert_position(regions, region.base.spec_bits()) <= regions.len(),
        regions_wf(regions.insert(insert_position(regions, region.base.spec_bits()), region)),
{
    let base = region.base.spec_bits();
    let p = insert_position(regions, base);
    lemma_insert_position_splits(regions, base, region.size);
    let out = regions.insert(p, region);
    assert forall|a: int, b: int| 0 <= a < b < out.len() implies (#[trigger] out[a]).spec_end() <= (
    #[trigger] out[b]).base.spec_bits() by {
        if a < p && b > p {
            assert(out[a] == regions[a]);
            assert(out[b] == regions[b - 1]);
        } else if a < p && b == p {
            assert(out[a] == regions[a]);
        } else if a == p {
            assert(out[b] == regions[b - 1]);
        } else if b < p {
            assert(out[a] == regions[a]);
            assert(out[b] == regions[b]);
        } else {
            assert(out[a] == regions[a - 1]);
            assert(out[b] == regions[b - 1]);
        }
    }
    assert forall|a: int| 0 <= a < out.len() implies (#[trigger] out[a]).wf() by {
        if a < p {
            assert(out[a] == regions[a]);
        } else if a > p {
            assert(out[a] == regions[a - 1]);
        }
    }
}

proof fn lemma_insert_position_bound(regions: Seq<HwMemRegion>, base: u64)
    ensures
        0 <= insert_position(regions, base) <= regions.len(),
    decreases regions.len(),
{
    if regions.len() > 0 && !(regions.last().base.spec_bits() < base) {
        lemma_insert_position_bound(regions.drop_last(), base);
    }
}

proof fn lemma_insert_position_splits(regions: Seq<HwMemRegion>, base: u64, size: u64)
    requires
        regions_wf(regions),
        size > 0,
        base + size <= u64::MAX,
        !overlaps_any(regions, base, size),
    ensures
        0 <= insert_position(regions, base) <= regions.len(),
        forall|j: int|
            0 <= j < insert_position(regions, base) ==> (#[trigger] regions[j]).spec_end() <= base,
        forall|j: int|
            insert_position(regions, base) <= j < regions.len() ==> base + size <= (
            #[trigger] regions[j]).base.spec_bits(),
    decreases regions.len(),
{
    if regions.len() == 0 {
    } else {
        let last = regions.last();
        assert(!overlaps(regions[regions.len() - 1], base, size));
        if last.base.spec_bits() < base {
            assert forall|j: int| 0 <= j < regions.len() implies (
            #[trigger] regions[j]).spec_end() <= base by {
                assert(!overlaps(regions[j], base, size));
                if j < regions.len() - 1 {
                    assert(regions[j].spec_end() <= regions[regions.len() - 1].base.spec_bits());
                }
            }
        } else {
            let rest = regions.drop_last();
            assert(regions_wf(rest)) by {
                assert forall|i: int| 0 <= i < rest.len() implies (#[trigger] rest[i]).wf() by {
                    assert(rest[i] == regions[i]);
                }
                assert forall|i: int, j: int| 0 <= i < j < rest.len() implies (
                #[trigger] rest[i]).spec_end() <= (#[trigger] rest[j]).base.spec_bits() by {
                    assert(rest[i] == regions[i]);
                    assert(rest[j] == regions[j]);
                }
            }
            assert(!overlaps_any(rest, base, size)) by {
                if overlaps_any(rest, base, size) {
                    let k = choose|k: int| 0 <= k < rest.len()
                        && overlaps(#[trigger] rest[k], base, size);
                    assert(rest[k] == regions[k]);
                    assert(overlaps(regions[k], base, size));
                }
            }
            lemma_insert_position_splits(rest, base, size);
            assert forall|j: int| 0 <= j < insert_position(regions, base) implies (
            #[trigger] regions[j]).spec_end() <= base by {
                assert(rest[j] == regions[j]);
            }
            assert forall|j: int| insert_position(regions, base) <= j < regions.len() implies base
                + size <= (#[trigger] regions[j]).base.spec_bits() by {
                if j < rest.len() {
                    assert(rest[j] == regions[j]);
                }
            }
        }
    }
}

/// The finished memory map: immutable, sorted by address, free of overlaps.
pub struct HwMemMap {
    regions: Vec<HwMemRegion>,
}

impl HwMemMap {
    /// The regions of the map, in ascending order of address.
    pub closed spec fn view(&self) -> Seq<HwMemRegion> {
        self.regions@
    }

    /// The map holds a legal set of regions.
    pub open spec fn wf(&self) -> bool {
        regions_wf(self@)
    }

    /// The number of regions.
    pub fn len(&self) -> (r: usize)
        ensures
            r == self@.len(),
    {
        self.regions.len()
    }

    /// The region at position `i`, counting from the lowest address.
    pub fn get(&self, i: usize) -> (r: Option<HwMemRegion>)
        ensures
            r is Some <==> i < self@.len(),
            r matches Some(region) ==> region == self@[i as int],
    {
        if i < self.regions.len() {
            Some(self.regions[i])
        } else {
            None
        }
    }

    /// The regions of the map, in ascending order of address.
    pub fn regions(&self) -> (r: &Vec<HwMemRegion>)
        ensures
            r@ == self@,
    {
        &self.regions
    }
}

} // verus!
