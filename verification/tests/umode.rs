use salus::u_mode_api::{Error as UmodeApiError, HypCall, TryIntoRegisters, UmodeRequest};
use salus::umode::{
    Error, GeneralPurposeRegisters, GprIndex, TaskStep, UmodeActiveTask, UmodeStart, UmodeTask,
};

fn start() -> UmodeStart {
    UmodeStart {
        entry: 0xffff_ffff_0000_0100,
        cpu_id: 3,
        shared_base: 0xffff_ffff_0400_0000,
        shared_size: 0x2000,
    }
}

fn active() -> (UmodeTask, UmodeActiveTask) {
    let mut task = UmodeTask::setup_this_cpu(start());
    let run = task.activate().unwrap();
    (task, run)
}

fn ecall(run: &mut UmodeActiveTask, call: HypCall) -> TaskStep {
    let mut arch = run.arch_state();
    let mut a = arch.umode_regs.gprs.a_regs();
    call.to_registers(&mut a);
    arch.umode_regs.gprs.set_a_regs(&a);
    run.set_arch_state(arch);
    run.handle_trap(8, 0)
}

#[test]
fn task_starts_from_its_initial_state() {
    let (_, run) = active();
    let arch = run.arch_state();
    assert_eq!(arch.umode_regs.sepc, 0xffff_ffff_0000_0100);
    assert_eq!(arch.umode_regs.sstatus, 0);
    assert_eq!(arch.umode_regs.gprs.reg(GprIndex::A0), 3);
    assert_eq!(arch.umode_regs.gprs.reg(GprIndex::A1), 0xffff_ffff_0400_0000);
    assert_eq!(arch.umode_regs.gprs.reg(GprIndex::A2), 0x2000);
    for (i, r) in arch.umode_regs.gprs.regs.iter().enumerate() {
        if !(10..13).contains(&i) {
            assert_eq!(*r, 0);
        }
    }
    assert_eq!(arch.hyp_regs.gprs.regs, [0; 32]);
    assert_eq!(arch.trap_csrs.scause, 0);
}

#[test]
fn a_task_is_activated_once_at_a_time() {
    let mut task = UmodeTask::setup_this_cpu(start());
    assert!(!task.is_active());
    let run = task.activate().unwrap();
    assert!(task.is_active());
    assert_eq!(task.activate().err(), Some(Error::TaskBusy));
    assert_eq!(task.reset(), Err(Error::TaskBusy));
    task.deactivate(run);
    assert!(!task.is_active());
    assert!(task.activate().is_ok());
}

#[test]
fn reset_brings_the_registers_back() {
    let (mut task, mut run) = active();
    run.set_request(&UmodeRequest::memcopy(0x1000, 0x3000, 0x1000).unwrap());
    assert_eq!(ecall(&mut run, HypCall::PutChar(b'!')), TaskStep::Continue(Some(b'!')));
    assert_eq!(run.arch_state().umode_regs.sepc, start().entry + 4);
    task.deactivate(run);
    assert_eq!(task.reset(), Ok(()));
    let run = task.activate().unwrap();
    let arch = run.arch_state();
    assert_eq!(arch.umode_regs.sepc, start().entry);
    assert_eq!(arch.umode_regs.gprs.a_regs(), [3, 0xffff_ffff_0400_0000, 0x2000, 0, 0, 0, 0, 0]);
    assert_eq!(arch.trap_csrs.scause, 0);
}

#[test]
fn requests_are_written_into_the_argument_registers() {
    let (_, mut run) = active();
    run.set_request(&UmodeRequest::get_evidence(0x10, 0x20, 0x30, 0x40));
    let arch = run.arch_state();
    assert_eq!(arch.umode_regs.gprs.a_regs(), [4, 0x10, 0x20, 0x30, 0x40, 0, 0, 0]);
    assert_eq!(arch.umode_regs.gprs.reg(GprIndex::S1), 0);
    assert_eq!(arch.umode_regs.sepc, start().entry);
}

#[test]
fn putchar_is_answered_and_the_task_goes_on() {
    let (_, mut run) = active();
    assert_eq!(ecall(&mut run, HypCall::PutChar(b'x')), TaskStep::Continue(Some(b'x')));
    let arch = run.arch_state();
    assert_eq!(arch.umode_regs.sepc, start().entry + 4);
    assert_eq!(arch.umode_regs.gprs.reg(GprIndex::A0), 0);
    assert_eq!(arch.umode_regs.gprs.reg(GprIndex::A1), 0);
    assert_eq!(arch.umode_regs.gprs.reg(GprIndex::A7), 1);
    assert_eq!(arch.trap_csrs.scause, 8);
}

#[test]
fn nextop_ends_the_run_with_the_result() {
    let (_, mut run) = active();
    assert_eq!(ecall(&mut run, HypCall::NextOp(Ok(17))), TaskStep::Break(Ok(17)));
    assert_eq!(
        ecall(&mut run, HypCall::NextOp(Err(UmodeApiError::InvalidArgument))),
        TaskStep::Break(Err(Error::Umode(UmodeApiError::InvalidArgument)))
    );
    assert_eq!(run.arch_state().umode_regs.sepc, start().entry + 8);
}

#[test]
fn panic_and_other_traps_are_fatal() {
    let (_, mut run) = active();
    assert_eq!(ecall(&mut run, HypCall::Panic), TaskStep::Break(Err(Error::Panic)));
    let sepc = run.arch_state().umode_regs.sepc;
    // A load page fault.
    assert_eq!(run.handle_trap(13, 0xdead), TaskStep::Break(Err(Error::UnexpectedTrap)));
    let arch = run.arch_state();
    assert_eq!(arch.umode_regs.sepc, sepc);
    assert_eq!(arch.trap_csrs.scause, 13);
    assert_eq!(arch.trap_csrs.stval, 0xdead);
    // An interrupt with the code of an environment call is not one.
    assert_eq!(
        run.handle_trap((1 << 63) | 8, 0),
        TaskStep::Break(Err(Error::UnexpectedTrap))
    );
}

#[test]
fn unknown_calls_get_an_error_back() {
    let (_, mut run) = active();
    let mut arch = run.arch_state();
    arch.umode_regs.gprs.set_reg(GprIndex::A7, 99);
    arch.umode_regs.sepc = u64::MAX - 1;
    run.set_arch_state(arch);
    assert_eq!(run.handle_ecall(), TaskStep::Continue(None));
    let arch = run.arch_state();
    assert_eq!(arch.umode_regs.gprs.reg(GprIndex::A0), 3);
    assert_eq!(arch.umode_regs.gprs.reg(GprIndex::A7), 99);
    // The program counter wraps like the hardware does.
    assert_eq!(arch.umode_regs.sepc, 2);
}

#[test]
fn x0_is_always_zero() {
    let mut gprs = GeneralPurposeRegisters::zeroed();
    gprs.set_reg(GprIndex::Zero, 5);
    gprs.set_reg(GprIndex::T6, 6);
    assert_eq!(gprs.reg(GprIndex::Zero), 0);
    assert_eq!(gprs.reg(GprIndex::T6), 6);
    assert_eq!(gprs.regs[31], 6);
    assert_eq!(GprIndex::A0.index(), 10);
    assert_eq!(GprIndex::SP.index(), 2);
}
