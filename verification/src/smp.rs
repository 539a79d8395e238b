//! Per-CPU state: the area of memory that each CPU gets, and what a CPU keeps
//! in it.
use vstd::prelude::*;

use crate::hyp_map::{HypMap, HypPageTable, SlotState};
use crate::page_tracking::{AllocModel, HypPageAlloc};
use crate::pages::{PageAddr, SequentialPages, PAGE_SIZE_4K};
use crate::umode::UmodeTask;

verus! {

/// The number of pages of a CPU's area: the stack of the CPU, with the
/// `PerCpu` structure at its top.
pub const PER_CPU_PAGES: u64 = 0x80;

/// The size of a CPU's area in bytes.
pub const PER_CPU_BYTES: u64 = 0x8_0000;

/// Where the areas of the CPUs lie: one after the other from `base` on, in the
/// order of the CPUs' numbers.
#[derive(Clone, Copy, Debug, PartialEq, Eq)]
pub struct PerCpuLayout {
    base: PageAddr,
    num_cpus: u64,
    struct_size: u64,
}

impl PerCpuLayout {
    #[verifier::type_invariant]
    pub closed spec fn fits(self) -> bool {
        &&& self.struct_size <= PER_CPU_BYTES
        &&& self.base.spec_bits() + self.num_cpus as int * PER_CPU_BYTES <= u64::MAX
    }

    /// The address of the first area.
    pub closed spec fn spec_base(&self) -> PageAddr {
        self.base
    }

    /// The number of CPUs that have an area.
    pub closed spec fn spec_num_cpus(&self) -> u64 {
        self.num_cpus
    }

    /// The size of the structure at the top of each area.
    pub closed spec fn spec_struct_size(&self) -> u64 {
        self.struct_size
    }

    /// The number of pages that the areas of `num_cpus` CPUs take.
    pub open spec fn spec_total_pages(num_cpus: u64) -> int {
        num_cpus as int * PER_CPU_PAGES
    }

    /// The number of pages that the areas of `num_cpus` CPUs take, or `None`
    /// if it does not fit in 64 bits.
    pub fn total_pages(num_cpus: u64) -> (r: Option<u64>)
        ensures
            r is Some <==> Self::spec_total_pages(num_cpus) <= u64::MAX,
            r matches Some(n) ==> n == Self::spec_total_pages(num_cpus),
    {
        if num_cpus > u64::MAX / PER_CPU_PAGES {
            None
        } else {
            Some(num_cpus * PER_CPU_PAGES)
        }
    }

    /// The layout of `num_cpus` areas from `base` on, each with a structure of
    /// `struct_size` bytes at its top. `None` if the structure is larger than
    /// an area, or if the areas end beyond the address space.
    pub fn new(base: PageAddr, num_cpus: u64, struct_size: u64) -> (r: Option<PerCpuLayout>)
        ensures
            r is Some <==> struct_size <= PER_CPU_BYTES && base.spec_bits() + num_cpus as int
                * PER_CPU_BYTES <= u64::MAX,
            r matches Some(l) ==> l.spec_base() == base && l.spec_num_cpus() == num_cpus
                && l.spec_struct_size() == struct_size,
    {
        if struct_size > PER_CPU_BYTES || num_cpus > (u64::MAX - base.bits()) / PER_CPU_BYTES {
            None
        } else {
            assert(num_cpus as int * PER_CPU_BYTES <= u64::MAX - base.spec_bits()) by (nonlinear_arith)
                requires
                    num_cpus <= (u64::MAX - base.spec_bits()) / PER_CPU_BYTES as int,
            ;
            Some(PerCpuLayout { base, num_cpus, struct_size })
        }
    }

    /// The address of the first area.
    pub fn base(&self) -> (r: PageAddr)
        ensures
            r == self.spec_base(),
    {
        self.base
    }

    /// The number of CPUs that have an area.
    pub fn num_cpus(&self) -> (r: u64)
        ensures
            r == self.spec_num_cpus(),
    {
        self.num_cpus
    }

    /// The address at which the area of `cpu_id` ends.
    pub open spec fn spec_area_end(&self, cpu_id: u64) -> int {
        self.spec_base().spec_bits() + (1 + cpu_id) * PER_CPU_BYTES
    }

    /// The address of the `PerCpu` structure of `cpu_id`: it lies at the top
    /// of the CPU's area.
    pub open spec fn spec_ptr_for_cpu(&self, cpu_id: u64) -> int {
        self.spec_area_end(cpu_id) - self.spec_struct_size()
    }

    /// The address of the `PerCpu` structure of `cpu_id`.
    pub fn ptr_for_cpu(&self, cpu_id: u64) -> (r: u64)
        requires
            cpu_id < self.spec_num_cpus(),
        ensures
            r == self.spec_ptr_for_cpu(cpu_id),
            self.spec_base().spec_bits() + cpu_id * PER_CPU_BYTES <= r,
    {
        proof {
            use_type_invariant(self);
            assert((1 + cpu_id) * PER_CPU_BYTES <= self.num_cpus * PER_CPU_BYTES)
                by (nonlinear_arith)
                requires
                    cpu_id < self.num_cpus,
            ;
            assert((1 + cpu_id) * PER_CPU_BYTES == cpu_id * PER_CPU_BYTES + PER_CPU_BYTES)
                by (nonlinear_arith);
        }
        let end: u64 = self.base.bits() + (1 + cpu_id) * PER_CPU_BYTES;
        end - self.struct_size
    }

    /// The pages of the area of `cpu_id`, which hold the stack of a
    /// secondary CPU.
    pub fn stack_pages(&self, cpu_id: u64) -> (r: SequentialPages)
        requires
            cpu_id < self.spec_num_cpus(),
        ensures
            r.spec_base().spec_bits() == self.spec_base().spec_bits() + cpu_id * PER_CPU_BYTES,
            r.spec_len() == PER_CPU_PAGES,
    {
        proof {
            use_type_invariant(self);
            assert((1 + cpu_id) * PER_CPU_BYTES <= self.num_cpus * PER_CPU_BYTES)
                by (nonlinear_arith)
                requires
                    cpu_id < self.num_cpus,
            ;
            assert((1 + cpu_id) * PER_CPU_BYTES == cpu_id * PER_CPU_BYTES + PER_CPU_BYTES)
                by (nonlinear_arith);
            assert(cpu_id * PER_CPU_BYTES == (cpu_id * PER_CPU_PAGES) * 4096) by (nonlinear_arith);
        }
        let first: Option<PageAddr> = self.base.checked_add_pages(cpu_id * PER_CPU_PAGES);
        let run: Option<SequentialPages> = SequentialPages::new(first.unwrap(), PER_CPU_PAGES);
        run.unwrap()
    }

    /// The CPU whose area holds `addr`, if there is one.
    pub fn cpu_of_addr(&self, addr: u64) -> (r: Option<u64>)
        ensures
            r is Some <==> self.spec_base().spec_bits() <= addr < self.spec_base().spec_bits()
                + self.spec_num_cpus() * PER_CPU_BYTES,
            r matches Some(c) ==> c < self.spec_num_cpus() && self.spec_area_end(c)
                - PER_CPU_BYTES <= addr < self.spec_area_end(c),
    {
        proof {
            use_type_invariant(self);
        }
        let base: u64 = self.base.bits();
        if addr < base {
            return None;
        }
        let c: u64 = (addr - base) / PER_CPU_BYTES;
        proof {
            let d = (addr - base) as int;
            let n = self.num_cpus as int;
            assert(c * PER_CPU_BYTES <= d < (c + 1) * PER_CPU_BYTES) by (nonlinear_arith)
                requires
                    c == d / PER_CPU_BYTES as int,
                    d >= 0,
            ;
            if c < n {
                assert((c + 1) * PER_CPU_BYTES <= n * PER_CPU_BYTES) by (nonlinear_arith)
                    requires
                        c < n,
                ;
            } else {
                assert(n * PER_CPU_BYTES <= c * PER_CPU_BYTES) by (nonlinear_arith)
                    requires
                        n <= c,
                ;
            }
            assert((1 + c) * PER_CPU_BYTES - PER_CPU_BYTES == c * PER_CPU_BYTES)
                by (nonlinear_arith);
        }
        if c < self.num_cpus {
            Some(c)
        } else {
            None
        }
    }
}

/// Per-CPU data. The structure sits at the top of the CPU's area, and the
/// CPU's thread pointer holds its address.
pub struct PerCpu {
    cpu_id: u64,
    page_table: HypPageTable,
    umode_task: Option<UmodeTask>,
    online: bool,
    stack_top: u64,
}

/// Whether `n` page tables can be built one after the other, from an allocator
/// in the state `m`.
pub open spec fn can_build_tables(map: &HypMap, m: AllocModel, n: nat) -> bool
    decreases n,
{
    n == 0 || (map.can_build(m) && can_build_tables(map, map.built_alloc(m), (n - 1) as nat))
}

/// The allocator after `n` page tables have been built.
pub open spec fn after_tables(map: &HypMap, m: AllocModel, n: nat) -> AllocModel
    decreases n,
{
    if n == 0 {
        m
    } else {
        after_tables(map, map.built_alloc(m), (n - 1) as nat)
    }
}

/// A CPU more can be served where the CPUs before it could.
pub proof fn lemma_tables_step(map: &HypMap, m: AllocModel, n: nat, total: nat)
    requires
        can_build_tables(map, m, total),
        n < total,
    ensures
        can_build_tables(map, m, n),
        map.can_build(after_tables(map, m, n)),
        after_tables(map, m, n + 1) == map.built_alloc(after_tables(map, m, n)),
    decreases n,
{
    if n > 0 {
        lemma_tables_step(map, map.built_alloc(m), (n - 1) as nat, (total - 1) as nat);
        assert(after_tables(map, m, n + 1) == after_tables(map, map.built_alloc(m), n));
    } else {
        assert(after_tables(map, m, 1) == after_tables(map, map.built_alloc(m), 0));
    }
}

/// The top of the stack of the CPU `cpu_id`: the top of the stack area for
/// the boot CPU, whose structure lies elsewhere; below the structure for the
/// other CPUs.
pub open spec fn spec_stack_top(cpu_id: u64, boot_cpu: u64, hyp_stack_top: u64, struct_size: u64) -> int {
    if cpu_id == boot_cpu {
        hyp_stack_top as int
    } else {
        hyp_stack_top - struct_size
    }
}

impl PerCpu {
    /// The number of this CPU.
    pub closed spec fn spec_cpu_id(&self) -> u64 {
        self.cpu_id
    }

    /// Whether this CPU has been marked as online.
    pub closed spec fn spec_is_online(&self) -> bool {
        self.online
    }

    /// The top of the stack of this CPU.
    pub closed spec fn spec_stack_top(&self) -> u64 {
        self.stack_top
    }

    /// The page table of this CPU.
    pub closed spec fn spec_page_table(&self) -> HypPageTable {
        self.page_table
    }

    /// The task of this CPU, once it has been set.
    pub closed spec fn spec_umode_task(&self) -> Option<UmodeTask> {
        self.umode_task
    }

    /// The state of the CPU `cpu_id`, which is not online yet and has no
    /// task.
    pub fn new(cpu_id: u64, page_table: HypPageTable, stack_top: u64) -> (r: PerCpu)
        ensures
            r.spec_cpu_id() == cpu_id,
            r.spec_page_table() == page_table,
            r.spec_stack_top() == stack_top,
            !r.spec_is_online(),
            r.spec_umode_task() is None,
    {
        PerCpu { cpu_id, page_table, umode_task: None, online: false, stack_top }
    }

    /// Takes the memory of the areas of `num_cpus` CPUs from `hyp_mem`, and
    /// makes the state of each CPU, with a page table of its own. The boot
    /// CPU is marked as online. Returns the layout of the areas and the
    /// states in the order of the CPUs' numbers.
    pub fn init(
        boot_cpu: u64,
        num_cpus: u64,
        struct_size: u64,
        hyp_stack_top: u64,
        hyp_map: &HypMap,
        hyp_mem: &mut HypPageAlloc,
    ) -> (r: (PerCpuLayout, Vec<PerCpu>))
        requires
            boot_cpu < num_cpus,
            struct_size <= PER_CPU_BYTES,
            struct_size <= hyp_stack_top,
            PerCpuLayout::spec_total_pages(num_cpus) <= usize::MAX,
            hyp_map.wf(),
            hyp_map.mappable(),
            old(hyp_mem).wf(),
            old(hyp_mem).model().can_take(PerCpuLayout::spec_total_pages(num_cpus), PAGE_SIZE_4K),
            can_build_tables(
                hyp_map,
                old(hyp_mem).model().after_take(
                    PerCpuLayout::spec_total_pages(num_cpus),
                    PAGE_SIZE_4K,
                ),
                num_cpus as nat,
            ),
        ensures
            final(hyp_mem).wf(),
            final(hyp_mem).model() == after_tables(
                hyp_map,
                old(hyp_mem).model().after_take(
                    PerCpuLayout::spec_total_pages(num_cpus),
                    PAGE_SIZE_4K,
                ),
                num_cpus as nat,
            ),
            r.0.spec_num_cpus() == num_cpus,
            r.0.spec_struct_size() == struct_size,
            r.0.spec_base().spec_bits() == old(hyp_mem).model().addr_of(
                old(hyp_mem).model().take_index(
                    PerCpuLayout::spec_total_pages(num_cpus),
                    PAGE_SIZE_4K,
                ),
            ),
            r.1@.len() == num_cpus,
            forall|i: int|
                0 <= i < num_cpus ==> {
                    let cpu = #[trigger] r.1@[i];
                    &&& cpu.spec_cpu_id() == i
                    &&& cpu.spec_is_online() == (i == boot_cpu)
                    &&& cpu.spec_umode_task() is None
                    &&& cpu.spec_stack_top() == spec_stack_top(
                        i as u64,
                        boot_cpu,
                        hyp_stack_top,
                        struct_size,
                    )
                    &&& cpu.spec_page_table().wf()
                    &&& cpu.spec_page_table().slot_state(0) == SlotState::Free
                    &&& cpu.spec_page_table().slot_state(1) == SlotState::Free
                },
    {
        let total: u64 = num_cpus * PER_CPU_PAGES;
        let pcpu_pages = hyp_mem.take_pages_for_hyp_state(total as usize);
        let base: PageAddr = pcpu_pages.base();
        let count: u64 = pcpu_pages.len();
        proof {
            assert(num_cpus as int * PER_CPU_BYTES == count as int * 4096) by (nonlinear_arith)
                requires
                    count == num_cpus * PER_CPU_PAGES,
            ;
        }
        let layout = PerCpuLayout::new(base, num_cpus, struct_size).unwrap();
        let ghost start = hyp_mem.model();
        let mut cpus: Vec<PerCpu> = Vec::new();
        let mut i: u64 = 0;
        while i < num_cpus
            invariant
                i <= num_cpus,
                boot_cpu < num_cpus,
                struct_size <= hyp_stack_top,
                hyp_map.wf(),
                hyp_map.mappable(),
                hyp_mem.wf(),
                can_build_tables(hyp_map, start, num_cpus as nat),
                hyp_mem.model() == after_tables(hyp_map, start, i as nat),
                cpus@.len() == i,
                forall|k: int|
                    0 <= k < i ==> {
                        let cpu = #[trigger] cpus@[k];
                        &&& cpu.spec_cpu_id() == k
                        &&& cpu.spec_is_online() == (k == boot_cpu)
                        &&& cpu.spec_umode_task() is None
                        &&& cpu.spec_stack_top() == spec_stack_top(
                            k as u64,
                            boot_cpu,
                            hyp_stack_top,
                            struct_size,
                        )
                        &&& cpu.spec_page_table().wf()
                        &&& cpu.spec_page_table().slot_state(0) == SlotState::Free
                        &&& cpu.spec_page_table().slot_state(1) == SlotState::Free
                    },
            decreases num_cpus - i,
        {
            proof {
                lemma_tables_step(hyp_map, start, i as nat, num_cpus as nat);
            }
            let stack_top: u64 = if i == boot_cpu {
                hyp_stack_top
            } else {
                hyp_stack_top - struct_size
            };
            let page_table = hyp_map.new_page_table(hyp_mem);
            let mut pcpu = PerCpu::new(i, page_table, stack_top);
            if i == boot_cpu {
                pcpu.set_online();
            }
            cpus.push(pcpu);
            i = i + 1;
        }
        (layout, cpus)
    }

    /// Returns the number of this CPU.
    pub fn cpu_id(&self) -> (r: u64)
        ensures
            r == self.spec_cpu_id(),
    {
        self.cpu_id
    }

    /// Marks this CPU as online. A CPU that is online stays so.
    pub fn set_online(&mut self)
        ensures
            final(self).spec_is_online(),
            final(self).spec_cpu_id() == old(self).spec_cpu_id(),
            final(self).spec_stack_top() == old(self).spec_stack_top(),
            final(self).spec_page_table() == old(self).spec_page_table(),
            final(self).spec_umode_task() == old(self).spec_umode_task(),
    {
        self.online = true;
    }

    /// Whether this CPU has been marked as online.
    pub fn is_online(&self) -> (r: bool)
        ensures
            r == self.spec_is_online(),
    {
        self.online
    }

    /// Returns the top of the stack for this CPU.
    pub fn stack_top(&self) -> (r: u64)
        ensures
            r == self.spec_stack_top(),
    {
        self.stack_top
    }

    /// Sets the task of this CPU. The task is set once: a later call changes
    /// nothing.
    pub fn set_umode_task(&mut self, umode_task: UmodeTask)
        ensures
            final(self).spec_umode_task() == match old(self).spec_umode_task() {
                Some(t) => Some(t),
                None => Some(umode_task),
            },
            final(self).spec_is_online() == old(self).spec_is_online(),
            final(self).spec_cpu_id() == old(self).spec_cpu_id(),
            final(self).spec_stack_top() == old(self).spec_stack_top(),
            final(self).spec_page_table() == old(self).spec_page_table(),
    {
        if self.umode_task.is_none() {
            self.umode_task = Some(umode_task);
        }
    }

    /// Whether the task of this CPU has been set.
    pub fn has_umode_task(&self) -> (r: bool)
        ensures
            r == self.spec_umode_task() is Some,
    {
        self.umode_task.is_some()
    }

    /// Get the task of this CPU. Must be called after `set_umode_task` has
    /// been called for this CPU.
    pub fn umode_task_mut(&mut self) -> (r: &mut UmodeTask)
        requires
            old(self).spec_umode_task() is Some,
        ensures
            *r == old(self).spec_umode_task()->Some_0,
            final(self).spec_umode_task() == Some(*final(r)),
            final(self).spec_is_online() == old(self).spec_is_online(),
            final(self).spec_cpu_id() == old(self).spec_cpu_id(),
            final(self).spec_stack_top() == old(self).spec_stack_top(),
            final(self).spec_page_table() == old(self).spec_page_table(),
    {
        match &mut self.umode_task {
            Some(task) => task,
            None => vstd::pervasive::unreached(),
        }
    }

    /// Takes the task of this CPU out of its state, to run it. The task
    /// can be set again when it has been run.
    pub fn take_umode_task(&mut self) -> (r: Option<UmodeTask>)
        ensures
            r == old(self).spec_umode_task(),
            final(self).spec_umode_task() is None,
            final(self).spec_is_online() == old(self).spec_is_online(),
            final(self).spec_cpu_id() == old(self).spec_cpu_id(),
            final(self).spec_stack_top() == old(self).spec_stack_top(),
            final(self).spec_page_table() == old(self).spec_page_table(),
    {
        self.umode_task.take()
    }

    /// The page table of this CPU.
    pub fn page_table(&self) -> (r: &HypPageTable)
        ensures
            *r == self.spec_page_table(),
    {
        &self.page_table
    }

    /// The page table of this CPU, to map and unmap the slots.
    pub fn page_table_mut(&mut self) -> (r: &mut HypPageTable)
        ensures
            *r == old(self).spec_page_table(),
            final(self).spec_page_table() == *final(r),
            final(self).spec_umode_task() == old(self).spec_umode_task(),
            final(self).spec_is_online() == old(self).spec_is_online(),
            final(self).spec_cpu_id() == old(self).spec_cpu_id(),
            final(self).spec_stack_top() == old(self).spec_stack_top(),
    {
        &mut self.page_table
    }
}

} // verus!
