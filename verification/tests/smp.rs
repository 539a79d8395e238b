use salus::hyp_map::{HypMap, SlotState, UMODE_MAPPINGS_START};
use salus::iommu::{Capabilities, Error as IommuError, Iommu, RegisterWindow};
use salus::mem_map::{HwMemMap, HwMemMapBuilder, HwMemRegionType, HwReservedMemType};
use salus::page_tracking::HypPageAlloc;
use salus::pages::{PageAddr, PageOwnerId};
use salus::riscv_elf::ElfMap;
use salus::smp::{PerCpu, PerCpuLayout, PER_CPU_BYTES, PER_CPU_PAGES};
use salus::umode::{
    GprIndex, LoggedRegister, UmodeCpuArchState, UmodeStart, UmodeTask, LOGGED_REGISTERS,
};
use salus::umode_mem::UMODE_VA_START;

fn boot_mem_map() -> HwMemMap {
    HwMemMapBuilder::new()
        .add_region(
            0x8000_0000,
            0x20_0000,
            HwMemRegionType::Reserved(HwReservedMemType::HypervisorImage),
        )
        .unwrap()
        .add_region(0x8020_0000, 0x400_0000, HwMemRegionType::Available)
        .unwrap()
        .build()
}

fn small_elf() -> ElfMap<'static> {
    let mut b = vec![0u8; 0x100];
    b[0..4].copy_from_slice(&[0x7f, b'E', b'L', b'F']);
    b[4] = 2;
    b[5] = 1;
    b[6] = 1;
    b[18..20].copy_from_slice(&0xf3u16.to_le_bytes());
    b[20..24].copy_from_slice(&1u32.to_le_bytes());
    b[32..40].copy_from_slice(&64u64.to_le_bytes());
    b[54..56].copy_from_slice(&56u16.to_le_bytes());
    b[56..58].copy_from_slice(&1u16.to_le_bytes());
    b[64..68].copy_from_slice(&1u32.to_le_bytes());
    b[68..72].copy_from_slice(&6u32.to_le_bytes());
    b[80..88].copy_from_slice(&UMODE_VA_START.to_le_bytes());
    b[104..112].copy_from_slice(&0x3000u64.to_le_bytes());
    let bytes: &'static [u8] = Box::leak(b.into_boxed_slice());
    ElfMap::new(bytes).unwrap()
}

#[test]
fn per_cpu_areas_follow_each_other() {
    assert_eq!(PER_CPU_PAGES, 0x80);
    assert_eq!(PER_CPU_BYTES, 0x80 * 4096);
    assert_eq!(PerCpuLayout::total_pages(3), Some(0x180));
    assert_eq!(PerCpuLayout::total_pages(u64::MAX / 0x80 + 1), None);
    let base = PageAddr::new(0x8100_0000).unwrap();
    let layout = PerCpuLayout::new(base, 4, 0x340).unwrap();
    assert_eq!(layout.base(), base);
    assert_eq!(layout.num_cpus(), 4);
    assert_eq!(layout.ptr_for_cpu(0), 0x8100_0000 + 0x8_0000 - 0x340);
    assert_eq!(layout.ptr_for_cpu(3), 0x8100_0000 + 4 * 0x8_0000 - 0x340);
    let stack = layout.stack_pages(2);
    assert_eq!(stack.base().bits(), 0x8100_0000 + 2 * 0x8_0000);
    assert_eq!(stack.len(), 0x80);
    assert_eq!(layout.cpu_of_addr(layout.ptr_for_cpu(1)), Some(1));
    assert_eq!(layout.cpu_of_addr(0x8100_0000), Some(0));
    assert_eq!(layout.cpu_of_addr(0x8100_0000 + 4 * 0x8_0000 - 1), Some(3));
    assert_eq!(layout.cpu_of_addr(0x8100_0000 + 4 * 0x8_0000), None);
    assert_eq!(layout.cpu_of_addr(0x80ff_ffff), None);
    assert!(PerCpuLayout::new(base, 4, 0x8_0001).is_none());
    assert!(PerCpuLayout::new(PageAddr::new(u64::MAX - 0xfff).unwrap(), 1, 8).is_none());
}

#[test]
fn every_cpu_gets_its_own_state() {
    let hyp_map = HypMap::init(&boot_mem_map(), &small_elf()).unwrap();
    let mut hyp_mem = HypPageAlloc::new(boot_mem_map());
    let first = hyp_mem.next_page_addr();
    let (layout, mut cpus) = PerCpu::init(1, 3, 0x400, 0x8020_0000, &hyp_map, &mut hyp_mem);
    assert_eq!(layout.base(), first);
    assert_eq!(layout.num_cpus(), 3);
    assert_eq!(cpus.len(), 3);
    for (i, cpu) in cpus.iter().enumerate() {
        assert_eq!(cpu.cpu_id(), i as u64);
        assert_eq!(cpu.is_online(), i == 1);
        assert!(!cpu.has_umode_task());
        let top = if i == 1 { 0x8020_0000 } else { 0x8020_0000 - 0x400 };
        assert_eq!(cpu.stack_top(), top);
        assert_eq!(cpu.page_table().slot(0), Some(SlotState::Free));
        // The page tables come after the areas of all CPUs.
        let root = cpu.page_table().page_table().root().bits();
        assert!(root >= first.bits() + 3 * PER_CPU_BYTES);
        // The areas are mapped like the rest of the memory of the hypervisor.
        assert!(cpu.page_table().page_table().translate(layout.ptr_for_cpu(i as u64)).is_some());
    }
    assert_ne!(
        cpus[0].page_table().page_table().root(),
        cpus[2].page_table().page_table().root()
    );
    // The areas belong to the hypervisor.
    let info = hyp_mem.page_info(layout.stack_pages(2).base()).unwrap();
    assert_eq!(info.owners, vec![PageOwnerId::hypervisor()]);

    cpus[0].set_online();
    cpus[0].set_online();
    assert!(cpus[0].is_online());
    let start = |entry| UmodeStart { entry, cpu_id: 0, shared_base: 0, shared_size: 0 };
    cpus[0].set_umode_task(UmodeTask::setup_this_cpu(start(0x10)));
    assert!(cpus[0].has_umode_task());
    // The task is set once.
    cpus[0].set_umode_task(UmodeTask::setup_this_cpu(start(0x20)));
    assert_eq!(cpus[0].umode_task_mut().activate().unwrap().arch_state().umode_regs.sepc, 0x10);
    let task = cpus[0].take_umode_task().unwrap();
    assert!(task.is_active());
    assert!(!cpus[0].has_umode_task());
    // The slots of one CPU are its own.
    let mapper = cpus[0].page_table_mut().umode_slot_mapper(0, 1, true).unwrap();
    assert_eq!(mapper.vaddr().bits(), UMODE_MAPPINGS_START);
    assert_eq!(cpus[0].page_table().slot(0), Some(SlotState::Mapped { num_pages: 1 }));
    assert_eq!(cpus[1].page_table().slot(0), Some(SlotState::Free));
}

#[test]
fn registers_are_logged_in_a_fixed_order() {
    let mut state = UmodeCpuArchState::init_state(UmodeStart {
        entry: 0x1000,
        cpu_id: 7,
        shared_base: 0x2000,
        shared_size: 0x3000,
    });
    state.trap_csrs.scause = 13;
    state.trap_csrs.stval = 0xdead;
    state.umode_regs.gprs.set_reg(GprIndex::SP, 0x99);
    state.umode_regs.gprs.set_reg(GprIndex::T0, 0x55);
    let log = state.logged_registers();
    assert_eq!(log.len(), LOGGED_REGISTERS);
    assert_eq!(log[0], (LoggedRegister::Sepc, 0x1000));
    assert_eq!(log[1], (LoggedRegister::Sstatus, 0));
    assert_eq!(log[2], (LoggedRegister::Scause, 13));
    assert_eq!(log[3], (LoggedRegister::Stval, 0xdead));
    assert_eq!(log[4], (LoggedRegister::Gpr(GprIndex::RA), 0));
    assert_eq!(log[5].0, LoggedRegister::Gpr(GprIndex::GP));
    assert_eq!(log[8].0, LoggedRegister::Gpr(GprIndex::S1));
    assert_eq!(log[9], (LoggedRegister::Gpr(GprIndex::A0), 7));
    assert_eq!(log[10], (LoggedRegister::Gpr(GprIndex::A1), 0x2000));
    assert_eq!(log[11], (LoggedRegister::Gpr(GprIndex::A2), 0x3000));
    assert_eq!(log[16].0, LoggedRegister::Gpr(GprIndex::A7));
    assert_eq!(log[17].0, LoggedRegister::Gpr(GprIndex::S2));
    assert_eq!(log[26].0, LoggedRegister::Gpr(GprIndex::S11));
    assert_eq!(log[27], (LoggedRegister::Gpr(GprIndex::T0), 0x55));
    assert_eq!(log[33].0, LoggedRegister::Gpr(GprIndex::T6));
    assert_eq!(log[34], (LoggedRegister::Gpr(GprIndex::SP), 0x99));
    assert!(log.iter().all(|r| r.0 != LoggedRegister::Gpr(GprIndex::Zero)));
}

#[test]
fn iommu_must_pass_the_probe() {
    let window = |base, size| Some(RegisterWindow { base, size });
    assert_eq!(Iommu::locate(None, 0x1000), Err(IommuError::MissingRegisters));
    assert_eq!(
        Iommu::locate(window(0x4000_0000, 0x800), 0x1000),
        Err(IommuError::InvalidRegisterSize(0x800))
    );
    assert_eq!(
        Iommu::locate(window(0x4000_0800, 0x1000), 0x1000),
        Err(IommuError::MisalignedRegisters)
    );
    // The size is looked at first.
    assert_eq!(
        Iommu::locate(window(0x4000_0800, 0x10), 0x1000),
        Err(IommuError::InvalidRegisterSize(0x10))
    );
    assert_eq!(Iommu::locate(window(0x4000_0000, 0x2000), 0x1000), Ok(0x4000_0000));
    let caps = |sv48x4, msi_flat| Capabilities { version: 0x10, sv48x4, msi_flat };
    assert_eq!(
        Iommu::probe_from(0x4000_0000, caps(false, false)),
        Err(IommuError::MissingGStageSupport)
    );
    assert_eq!(
        Iommu::probe_from(0x4000_0000, caps(false, true)),
        Err(IommuError::MissingGStageSupport)
    );
    assert_eq!(
        Iommu::probe_from(0x4000_0000, caps(true, false)),
        Err(IommuError::MissingMsiSupport)
    );
    let iommu = Iommu::probe_from(0x4000_0000, caps(true, true)).unwrap();
    assert_eq!(iommu.version(), 0x10);
    assert_eq!(iommu.regs_base(), 0x4000_0000);
}
