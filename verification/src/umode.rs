//! The user-mode task of a CPU, as the hypervisor sees it: its register
//! state, its activation, and what happens when it traps.
//!
//! Running the task is a loop that this module does not contain, because
//! entering user mode is something that only machine code can do. The loop
//! enters the task, and when the task traps it hands the cause of the trap
//! to `UmodeActiveTask::handle_trap`, which decides how to go on.

use crate::riscv_elf::ElfMap;
use crate::u_mode_api::{
    Error as UmodeApiError, HypCall, IntoRegisters, TryIntoRegisters, UmodeRequest,
};
use vstd::prelude::*;

verus! {

/// Index of a general purpose register in the register file.
#[derive(Clone, Copy, Debug, PartialEq, Eq, Structural)]
pub enum GprIndex {
    /// x0, always zero.
    Zero,
    /// x1, return address.
    RA,
    /// x2, stack pointer.
    SP,
    /// x3, global pointer.
    GP,
    /// x4, thread pointer.
    TP,
    /// x5.
    T0,
    /// x6.
    T1,
    /// x7.
    T2,
    /// x8.
    S0,
    /// x9.
    S1,
    /// x10, first argument register.
    A0,
    /// x11.
    A1,
    /// x12.
    A2,
    /// x13.
    A3,
    /// x14.
    A4,
    /// x15.
    A5,
    /// x16.
    A6,
    /// x17, last argument register.
    A7,
    /// x18.
    S2,
    /// x19.
    S3,
    /// x20.
    S4,
    /// x21.
    S5,
    /// x22.
    S6,
    /// x23.
    S7,
    /// x24.
    S8,
    /// x25.
    S9,
    /// x26.
    S10,
    /// x27.
    S11,
    /// x28.
    T3,
    /// x29.
    T4,
    /// x30.
    T5,
    /// x31.
    T6,
}

impl GprIndex {
    /// The number of the register.
    pub open spec fn spec_index(self) -> usize {
        match self {
            GprIndex::Zero => 0,
            GprIndex::RA => 1,
            GprIndex::SP => 2,
            GprIndex::GP => 3,
            GprIndex::TP => 4,
            GprIndex::T0 => 5,
            GprIndex::T1 => 6,
            GprIndex::T2 => 7,
            GprIndex::S0 => 8,
            GprIndex::S1 => 9,
            GprIndex::A0 => 10,
            GprIndex::A1 => 11,
            GprIndex::A2 => 12,
            GprIndex::A3 => 13,
            GprIndex::A4 => 14,
            GprIndex::A5 => 15,
            GprIndex::A6 => 16,
            GprIndex::A7 => 17,
            GprIndex::S2 => 18,
            GprIndex::S3 => 19,
            GprIndex::S4 => 20,
            GprIndex::S5 => 21,
            GprIndex::S6 => 22,
            GprIndex::S7 => 23,
            GprIndex::S8 => 24,
            GprIndex::S9 => 25,
            GprIndex::S10 => 26,
            GprIndex::S11 => 27,
            GprIndex::T3 => 28,
            GprIndex::T4 => 29,
            GprIndex::T5 => 30,
            GprIndex::T6 => 31,
        }
    }

    /// The number of the register.
    #[verifier::when_used_as_spec(spec_index)]
    pub fn index(self) -> (r: usize)
        ensures
            r == self.spec_index(),
            r < 32,
    {
        match self {
            GprIndex::Zero => 0,
            GprIndex::RA => 1,
            GprIndex::SP => 2,
            GprIndex::GP => 3,
            GprIndex::TP => 4,
            GprIndex::T0 => 5,
            GprIndex::T1 => 6,
            GprIndex::T2 => 7,
            GprIndex::S0 => 8,
            GprIndex::S1 => 9,
            GprIndex::A0 => 10,
            GprIndex::A1 => 11,
            GprIndex::A2 => 12,
            GprIndex::A3 => 13,
            GprIndex::A4 => 14,
            GprIndex::A5 => 15,
            GprIndex::A6 => 16,
            GprIndex::A7 => 17,
            GprIndex::S2 => 18,
            GprIndex::S3 => 19,
            GprIndex::S4 => 20,
            GprIndex::S5 => 21,
            GprIndex::S6 => 22,
            GprIndex::S7 => 23,
            GprIndex::S8 => 24,
            GprIndex::S9 => 25,
            GprIndex::S10 => 26,
            GprIndex::S11 => 27,
            GprIndex::T3 => 28,
            GprIndex::T4 => 29,
            GprIndex::T5 => 30,
            GprIndex::T6 => 31,
        }
    }
}

/// The number of the first argument register.
pub const FIRST_A_REG: usize = 10;

/// The general purpose registers of a CPU.
#[derive(Clone, Copy, Debug)]
pub struct GeneralPurposeRegisters {
    /// The registers x0 to x31.
    pub regs: [u64; 32],
}

impl GeneralPurposeRegisters {
    /// The argument registers a0 to a7.
    pub open spec fn spec_a_regs(&self) -> Seq<u64> {
        self.regs@.subrange(10, 18)
    }

    /// The registers with the argument registers replaced by `a`.
    pub open spec fn with_a_regs(&self, a: Seq<u64>) -> Seq<u64> {
        Seq::new(
            32,
            |i: int|
                if 10 <= i < 18 {
                    a[i - 10]
                } else {
                    self.regs@[i]
                },
        )
    }

    /// A register file in which every register is zero.
    pub fn zeroed() -> (r: GeneralPurposeRegisters)
        ensures
            forall|i: int| 0 <= i < 32 ==> r.regs@[i] == 0,
    {
        GeneralPurposeRegisters { regs: [0u64; 32] }
    }

    /// The value of a register.
    pub fn reg(&self, index: GprIndex) -> (r: u64)
        ensures
            r == self.regs@[index.spec_index() as int],
    {
        self.regs[index.index()]
    }

    /// Sets a register. The register x0 is hard-wired to zero: writes to it
    /// are ignored.
    pub fn set_reg(&mut self, index: GprIndex, value: u64)
        ensures
            final(self).regs@ == (if index == GprIndex::Zero {
                old(self).regs@
            } else {
                old(self).regs@.update(index.spec_index() as int, value)
            }),
    {
        match index {
            GprIndex::Zero => {},
            _ => {
                self.regs[index.index()] = value;
            },
        }
    }

    /// The argument registers a0 to a7.
    pub fn a_regs(&self) -> (r: [u64; 8])
        ensures
            r@ == self.spec_a_regs(),
    {
        let r: [u64; 8] = [
            self.regs[10],
            self.regs[11],
            self.regs[12],
            self.regs[13],
            self.regs[14],
            self.regs[15],
            self.regs[16],
            self.regs[17],
        ];
        assert(r@ =~= self.spec_a_regs());
        r
    }

    /// Sets the argument registers a0 to a7.
    pub fn set_a_regs(&mut self, a: &[u64; 8])
        ensures
            final(self).regs@ == old(self).with_a_regs(a@),
            final(self).spec_a_regs() == a@,
    {
        let mut i: usize = 0;
        while i < 8
            invariant
                i <= 8,
                forall|j: int| 0 <= j < 32 ==> self.regs@[j] == (if 10 <= j < 10 + i {
                    a@[j - 10]
                } else {
                    old(self).regs@[j]
                }),
            decreases 8 - i,
        {
            self.regs[FIRST_A_REG + i] = a[i];
            i = i + 1;
        }
        assert(self.regs@ =~= old(self).with_a_regs(a@));
        assert(self.spec_a_regs() =~= a@);
    }
}

/// Registers of the hypervisor which must be saved and restored when
/// entering and leaving user mode.
#[derive(Clone, Copy, Debug)]
pub struct HostCpuRegs {
    /// The general purpose registers, of which the callee-saved ones are
    /// used.
    pub gprs: GeneralPurposeRegisters,
    /// The status register.
    pub sstatus: u64,
    /// The trap vector.
    pub stvec: u64,
    /// The scratch register.
    pub sscratch: u64,
}

/// Registers of the task which must be saved and restored when leaving and
/// entering user mode.
#[derive(Clone, Copy, Debug)]
pub struct UmodeCpuRegs {
    /// The general purpose registers.
    pub gprs: GeneralPurposeRegisters,
    /// The program counter.
    pub sepc: u64,
    /// The status register.
    pub sstatus: u64,
}

/// Registers written on a trap, which tell the cause of the trap.
#[derive(Clone, Copy, Debug, PartialEq, Eq, Structural)]
pub struct TrapRegs {
    /// The cause of the trap.
    pub scause: u64,
    /// The value that belongs to the trap.
    pub stval: u64,
}

/// CPU register state that must be saved or restored when entering and
/// leaving user mode.
#[derive(Clone, Copy, Debug)]
pub struct UmodeCpuArchState {
    /// The registers of the hypervisor.
    pub hyp_regs: HostCpuRegs,
    /// The registers of the task.
    pub umode_regs: UmodeCpuRegs,
    /// The cause of the last trap.
    pub trap_csrs: TrapRegs,
}

/// What a task starts from: where it starts and what it is told in its
/// first three argument registers.
#[derive(Clone, Copy, Debug, PartialEq, Eq, Structural)]
pub struct UmodeStart {
    /// The entry point of the task.
    pub entry: u64,
    /// The identifier of the CPU, for register a0.
    pub cpu_id: u64,
    /// The address of the region that the task shares with the hypervisor,
    /// for register a1.
    pub shared_base: u64,
    /// The size of that region, for register a2.
    pub shared_size: u64,
}

/// A register whose value is logged when a task ends in a fault.
#[derive(Clone, Copy, Debug, PartialEq, Eq, Structural)]
pub enum LoggedRegister {
    /// The program counter of the task.
    Sepc,
    /// The status register of the task.
    Sstatus,
    /// The cause of the trap.
    Scause,
    /// The value that belongs to the trap.
    Stval,
    /// A general purpose register of the task.
    Gpr(GprIndex),
}

/// The general purpose registers that are logged, in the order of the log:
/// every register but x0, the stack pointer last.
pub open spec fn logged_gprs() -> Seq<GprIndex> {
    seq![
        GprIndex::RA,
        GprIndex::GP,
        GprIndex::TP,
        GprIndex::S0,
        GprIndex::S1,
        GprIndex::A0,
        GprIndex::A1,
        GprIndex::A2,
        GprIndex::A3,
        GprIndex::A4,
        GprIndex::A5,
        GprIndex::A6,
        GprIndex::A7,
        GprIndex::S2,
        GprIndex::S3,
        GprIndex::S4,
        GprIndex::S5,
        GprIndex::S6,
        GprIndex::S7,
        GprIndex::S8,
        GprIndex::S9,
        GprIndex::S10,
        GprIndex::S11,
        GprIndex::T0,
        GprIndex::T1,
        GprIndex::T2,
        GprIndex::T3,
        GprIndex::T4,
        GprIndex::T5,
        GprIndex::T6,
        GprIndex::SP,
    ]
}

/// The number of registers in the log of a task's state.
pub const LOGGED_REGISTERS: usize = 35;

impl UmodeCpuArchState {
    /// The log of this state: the program counter and the status of the
    /// task, the cause and the value of the last trap, and then the general
    /// purpose registers of the task.
    pub open spec fn log(&self) -> Seq<(LoggedRegister, u64)> {
        Seq::new(
            LOGGED_REGISTERS as nat,
            |k: int|
                if k == 0 {
                    (LoggedRegister::Sepc, self.umode_regs.sepc)
                } else if k == 1 {
                    (LoggedRegister::Sstatus, self.umode_regs.sstatus)
                } else if k == 2 {
                    (LoggedRegister::Scause, self.trap_csrs.scause)
                } else if k == 3 {
                    (LoggedRegister::Stval, self.trap_csrs.stval)
                } else {
                    (
                        LoggedRegister::Gpr(logged_gprs()[k - 4]),
                        self.umode_regs.gprs.regs@[logged_gprs()[k - 4].spec_index() as int],
                    )
                },
        )
    }

    /// The registers to log when the task has ended in a fault, each with
    /// its value, in the order in which they are written out.
    pub fn logged_registers(&self) -> (r: Vec<(LoggedRegister, u64)>)
        ensures
            r@ == self.log(),
    {
        let gprs: [GprIndex; 31] = [
            GprIndex::RA,
            GprIndex::GP,
            GprIndex::TP,
            GprIndex::S0,
            GprIndex::S1,
            GprIndex::A0,
            GprIndex::A1,
            GprIndex::A2,
            GprIndex::A3,
            GprIndex::A4,
            GprIndex::A5,
            GprIndex::A6,
            GprIndex::A7,
            GprIndex::S2,
            GprIndex::S3,
            GprIndex::S4,
            GprIndex::S5,
            GprIndex::S6,
            GprIndex::S7,
            GprIndex::S8,
            GprIndex::S9,
            GprIndex::S10,
            GprIndex::S11,
            GprIndex::T0,
            GprIndex::T1,
            GprIndex::T2,
            GprIndex::T3,
            GprIndex::T4,
            GprIndex::T5,
            GprIndex::T6,
            GprIndex::SP,
        ];
        assert(gprs@ =~= logged_gprs());
        let mut out: Vec<(LoggedRegister, u64)> = Vec::new();
        out.push((LoggedRegister::Sepc, self.umode_regs.sepc));
        out.push((LoggedRegister::Sstatus, self.umode_regs.sstatus));
        out.push((LoggedRegister::Scause, self.trap_csrs.scause));
        out.push((LoggedRegister::Stval, self.trap_csrs.stval));
        let mut k: usize = 0;
        while k < 31
            invariant
                k <= 31,
                gprs@ == logged_gprs(),
                out@.len() == k + 4,
                forall|j: int| 0 <= j < k + 4 ==> out@[j] == self.log()[j],
            decreases 31 - k,
        {
            let g: GprIndex = gprs[k];
            out.push((LoggedRegister::Gpr(g), self.umode_regs.gprs.reg(g)));
            k = k + 1;
        }
        assert(out@ =~= self.log());
        out
    }

    /// True if this is the state that a task starts from: every register is
    /// zero but the program counter of the task, which is the entry point,
    /// and the first three argument registers of the task.
    pub open spec fn is_init_state(&self, start: UmodeStart) -> bool {
        &&& forall|i: int| 0 <= i < 32 ==> self.hyp_regs.gprs.regs@[i] == 0
        &&& self.hyp_regs.sstatus == 0
        &&& self.hyp_regs.stvec == 0
        &&& self.hyp_regs.sscratch == 0
        &&& forall|i: int|
            0 <= i < 32 ==> self.umode_regs.gprs.regs@[i] == (if i == 10 {
                start.cpu_id
            } else if i == 11 {
                start.shared_base
            } else if i == 12 {
                start.shared_size
            } else {
                0
            })
        &&& self.umode_regs.sepc == start.entry
        &&& self.umode_regs.sstatus == 0
        &&& self.trap_csrs == (TrapRegs { scause: 0, stval: 0 })
    }

    /// The state that a task starts from.
    pub fn init_state(start: UmodeStart) -> (r: UmodeCpuArchState)
        ensures
            r.is_init_state(start),
    {
        let mut gprs = GeneralPurposeRegisters::zeroed();
        gprs.set_reg(GprIndex::A0, start.cpu_id);
        gprs.set_reg(GprIndex::A1, start.shared_base);
        gprs.set_reg(GprIndex::A2, start.shared_size);
        UmodeCpuArchState {
            hyp_regs: HostCpuRegs {
                gprs: GeneralPurposeRegisters::zeroed(),
                sstatus: 0,
                stvec: 0,
                sscratch: 0,
            },
            // A status of zero makes the task run in user mode.
            umode_regs: UmodeCpuRegs { gprs, sepc: start.entry, sstatus: 0 },
            trap_csrs: TrapRegs { scause: 0, stval: 0 },
        }
    }
}

/// Errors returned by runs of the task.
#[derive(Clone, Copy, Debug, PartialEq, Eq, Structural)]
pub enum Error {
    /// Received an unexpected trap while running the task.
    UnexpectedTrap,
    /// The task called panic.
    Panic,
    /// Task already active.
    TaskBusy,
    /// Error in the task.
    Umode(UmodeApiError),
}

/// The value of `scause` for an environment call from user mode.
pub const SCAUSE_USER_ENV_CALL: u64 = 8;

/// The size in bytes of the instruction that makes an environment call.
pub const ECALL_INSN_LEN: u64 = 4;

/// How to go on after a trap of the task.
#[derive(Clone, Copy, Debug, PartialEq, Eq)]
pub enum TaskStep {
    /// Enter the task again. If a character is given, print it first.
    Continue(Option<u8>),
    /// The run is over, with this result. If the result is an error other
    /// than one of the task itself, the state of the task is to be logged.
    Break(Result<u64, Error>),
}

/// What a run of the task ends with when the task hands in `result`.
pub open spec fn run_result(result: Result<u64, UmodeApiError>) -> Result<u64, Error> {
    match result {
        Ok(v) => Ok(v),
        Err(e) => Err(Error::Umode(e)),
    }
}

/// How to go on after an environment call of the task whose argument
/// registers are `regs`.
pub open spec fn ecall_step(regs: Seq<u64>) -> TaskStep {
    match HypCall::try_decoded(regs) {
        Ok(HypCall::Panic) => TaskStep::Break(Err(Error::Panic)),
        Ok(HypCall::PutChar(byte)) => TaskStep::Continue(Some(byte)),
        Ok(HypCall::NextOp(result)) => TaskStep::Break(run_result(result)),
        Err(_) => TaskStep::Continue(None),
    }
}

/// The argument registers of the task after an environment call with the
/// argument registers `regs`: a call to print a character is answered with
/// success, an unknown call with its error, and the other calls leave the
/// registers as they are.
pub open spec fn ecall_regs(regs: Seq<u64>) -> Seq<u64> {
    match HypCall::try_decoded(regs) {
        Ok(HypCall::PutChar(_)) => IntoRegisters::encoded(&Ok::<u64, UmodeApiError>(0), regs),
        Err(e) => IntoRegisters::encoded(&Err::<u64, UmodeApiError>(e), regs),
        _ => regs,
    }
}

/// The program counter after the instruction at `sepc` that made an
/// environment call.
pub open spec fn sepc_after_ecall(sepc: u64) -> u64 {
    if sepc > u64::MAX - 4 {
        (sepc - (u64::MAX - 3)) as u64
    } else {
        (sepc + 4) as u64
    }
}

/// Represents the task of a CPU with its saved context.
pub struct UmodeTask {
    arch: UmodeCpuArchState,
    active: bool,
    start: UmodeStart,
}

/// Represents a task that is running or runnable.
pub struct UmodeActiveTask {
    arch: UmodeCpuArchState,
}

impl UmodeTask {
    /// The saved register state of the task.
    pub closed spec fn arch(&self) -> UmodeCpuArchState {
        self.arch
    }

    /// True if the task is active.
    pub closed spec fn spec_is_active(&self) -> bool {
        self.active
    }

    /// What the task starts from.
    pub closed spec fn spec_start(&self) -> UmodeStart {
        self.start
    }

    /// Prepares the tasks of all CPUs: finds the entry point of the task
    /// in its image. Must be called once before `setup_this_cpu`.
    pub fn init(umode_elf: &ElfMap) -> (r: u64)
        ensures
            r == umode_elf@.entry,
    {
        umode_elf.entry()
    }

    /// Creates the task of a CPU in its initial state. Must be called once
    /// on each physical CPU.
    pub fn setup_this_cpu(start: UmodeStart) -> (r: UmodeTask)
        ensures
            r.arch().is_init_state(start),
            !r.spec_is_active(),
            r.spec_start() == start,
    {
        UmodeTask { arch: UmodeCpuArchState::init_state(start), active: false, start }
    }

    /// True if the task is active.
    #[verifier::when_used_as_spec(spec_is_active)]
    pub fn is_active(&self) -> (r: bool)
        ensures
            r == self.spec_is_active(),
    {
        self.active
    }

    /// Activates the task in order to run it. Fails with `TaskBusy` if the
    /// task is active already.
    pub fn activate(&mut self) -> (r: Result<UmodeActiveTask, Error>)
        ensures
            final(self).spec_start() == old(self).spec_start(),
            final(self).arch() == old(self).arch(),
            final(self).spec_is_active(),
            old(self).spec_is_active() ==> r == Err::<UmodeActiveTask, Error>(Error::TaskBusy),
            !old(self).spec_is_active() ==> r is Ok && r->Ok_0.arch() == old(self).arch(),
    {
        if self.active {
            return Err(Error::TaskBusy);
        }
        self.active = true;
        Ok(UmodeActiveTask { arch: self.arch })
    }

    /// Ends the activation of the task and keeps the state that the run
    /// has left.
    pub fn deactivate(&mut self, task: UmodeActiveTask)
        ensures
            final(self).spec_start() == old(self).spec_start(),
            final(self).arch() == task.arch(),
            !final(self).spec_is_active(),
    {
        self.arch = task.arch;
        self.active = false;
    }

    /// Resets the registers of the task to their initial state. Fails with
    /// `TaskBusy` if the task is active. The memory of the task has to be
    /// restored as well.
    pub fn reset(&mut self) -> (r: Result<(), Error>)
        ensures
            final(self).spec_start() == old(self).spec_start(),
            final(self).spec_is_active() == old(self).spec_is_active(),
            old(self).spec_is_active() ==> r == Err::<(), Error>(Error::TaskBusy)
                && final(self).arch() == old(self).arch(),
            !old(self).spec_is_active() ==> r == Ok::<(), Error>(())
                && final(self).arch().is_init_state(old(self).spec_start()),
    {
        if self.active {
            return Err(Error::TaskBusy);
        }
        self.arch = UmodeCpuArchState::init_state(self.start);
        Ok(())
    }
}

impl UmodeActiveTask {
    /// The register state of the task.
    pub closed spec fn arch(&self) -> UmodeCpuArchState {
        self.arch
    }

    /// The register state of the task, to run it from.
    pub fn arch_state(&self) -> (r: UmodeCpuArchState)
        ensures
            r == self.arch(),
    {
        self.arch
    }

    /// Takes over the register state that a run of the task has left.
    pub fn set_arch_state(&mut self, arch: UmodeCpuArchState)
        ensures
            final(self).arch() == arch,
    {
        self.arch = arch;
    }

    /// Writes the request `req` into the argument registers of the task.
    /// The task finds it there when it is entered again.
    pub fn set_request(&mut self, req: &UmodeRequest)
        ensures
            final(self).arch().umode_regs.gprs.spec_a_regs() == req.encoded(
                old(self).arch().umode_regs.gprs.spec_a_regs(),
            ),
            final(self).arch().umode_regs.gprs.regs@
                == old(self).arch().umode_regs.gprs.with_a_regs(
                req.encoded(old(self).arch().umode_regs.gprs.spec_a_regs()),
            ),
            final(self).arch().umode_regs.sepc == old(self).arch().umode_regs.sepc,
            final(self).arch().umode_regs.sstatus == old(self).arch().umode_regs.sstatus,
            final(self).arch().hyp_regs == old(self).arch().hyp_regs,
            final(self).arch().trap_csrs == old(self).arch().trap_csrs,
    {
        let mut a = self.arch.umode_regs.gprs.a_regs();
        req.to_registers(&mut a);
        self.arch.umode_regs.gprs.set_a_regs(&a);
    }

    /// Writes the result of an environment call into the argument
    /// registers of the task.
    fn set_ecall_result(&mut self, ret: Result<u64, UmodeApiError>)
        ensures
            final(self).arch().umode_regs.gprs.spec_a_regs() == IntoRegisters::encoded(
                &ret,
                old(self).arch().umode_regs.gprs.spec_a_regs(),
            ),
            final(self).arch().umode_regs.gprs.regs@
                == old(self).arch().umode_regs.gprs.with_a_regs(
                IntoRegisters::encoded(&ret, old(self).arch().umode_regs.gprs.spec_a_regs()),
            ),
            final(self).arch().umode_regs.sepc == old(self).arch().umode_regs.sepc,
            final(self).arch().umode_regs.sstatus == old(self).arch().umode_regs.sstatus,
            final(self).arch().hyp_regs == old(self).arch().hyp_regs,
            final(self).arch().trap_csrs == old(self).arch().trap_csrs,
    {
        let mut a = self.arch.umode_regs.gprs.a_regs();
        ret.to_registers(&mut a);
        self.arch.umode_regs.gprs.set_a_regs(&a);
    }

    /// Handles an environment call of the task: decodes the call from the
    /// argument registers, answers it where the hypervisor can do so at
    /// once, and moves the program counter past the instruction that made
    /// the call.
    pub fn handle_ecall(&mut self) -> (r: TaskStep)
        ensures
            r == ecall_step(old(self).arch().umode_regs.gprs.spec_a_regs()),
            final(self).arch().umode_regs.gprs.spec_a_regs() == ecall_regs(
                old(self).arch().umode_regs.gprs.spec_a_regs(),
            ),
            final(self).arch().umode_regs.gprs.regs@
                == old(self).arch().umode_regs.gprs.with_a_regs(
                ecall_regs(old(self).arch().umode_regs.gprs.spec_a_regs()),
            ),
            final(self).arch().umode_regs.sepc == sepc_after_ecall(
                old(self).arch().umode_regs.sepc,
            ),
            final(self).arch().umode_regs.sstatus == old(self).arch().umode_regs.sstatus,
            final(self).arch().hyp_regs == old(self).arch().hyp_regs,
            final(self).arch().trap_csrs == old(self).arch().trap_csrs,
    {
        let regs = self.arch.umode_regs.gprs.a_regs();
        let ghost old_regs = self.arch.umode_regs.gprs.regs@;
        let step = match HypCall::try_from_registers(&regs) {
            Ok(hypercall) => match hypercall {
                HypCall::Panic => TaskStep::Break(Err(Error::Panic)),
                HypCall::PutChar(byte) => {
                    self.set_ecall_result(Ok(0));
                    TaskStep::Continue(Some(byte))
                },
                HypCall::NextOp(result) => TaskStep::Break(
                    match result {
                        Ok(v) => Ok(v),
                        Err(e) => Err(Error::Umode(e)),
                    },
                ),
            },
            Err(err) => {
                self.set_ecall_result(Err(err));
                TaskStep::Continue(None)
            },
        };
        proof {
            let a = old(self).arch().umode_regs.gprs.spec_a_regs();
            if ecall_regs(a) == a {
                assert(old(self).arch().umode_regs.gprs.with_a_regs(a) =~= old_regs);
            }
        }
        // Increase the program counter to skip the call on entry.
        self.arch.umode_regs.sepc = self.arch.umode_regs.sepc.wrapping_add(ECALL_INSN_LEN);
        step
    }

    /// Decides how to go on after the task has trapped with the cause
    /// `scause` and the value `stval`. An environment call of the task is
    /// handled; every other trap ends the run with `UnexpectedTrap`.
    pub fn handle_trap(&mut self, scause: u64, stval: u64) -> (r: TaskStep)
        ensures
            final(self).arch().trap_csrs == (TrapRegs { scause, stval }),
            final(self).arch().hyp_regs == old(self).arch().hyp_regs,
            final(self).arch().umode_regs.sstatus == old(self).arch().umode_regs.sstatus,
            scause != SCAUSE_USER_ENV_CALL ==> r == TaskStep::Break(Err(Error::UnexpectedTrap))
                && final(self).arch().umode_regs == old(self).arch().umode_regs,
            scause == SCAUSE_USER_ENV_CALL ==> r == ecall_step(
                old(self).arch().umode_regs.gprs.spec_a_regs(),
            )
                && final(self).arch().umode_regs.gprs.regs@ == old(self).arch().umode_regs.gprs.with_a_regs(
                ecall_regs(old(self).arch().umode_regs.gprs.spec_a_regs()),
            ) && final(self).arch().umode_regs.sepc == sepc_after_ecall(
                old(self).arch().umode_regs.sepc,
            ),
    {
        // Save off the trap information.
        self.arch.trap_csrs = TrapRegs { scause, stval };
        if scause == SCAUSE_USER_ENV_CALL {
            self.handle_ecall()
        } else {
            TaskStep::Break(Err(Error::UnexpectedTrap))
        }
    }
}

} // verus!
