//! The first version of the register protocol between the hypervisor and
//! its user-mode task: requests that carry an operation and two optional
//! buffers.

pub mod hypcall;

use vstd::prelude::*;

verus! {

/// Number of argument registers that carry a request or a call.
pub const NUM_A_REGS: usize = 8;

/// The errors that cross the boundary between hypervisor and task.
#[derive(Clone, Copy, Debug, PartialEq, Eq, Structural)]
pub enum Error {
    /// Generic failure in execution.
    Failed,
    /// Ecall not supported. From hypervisor to the task.
    EcallNotSupported,
    /// Request not supported. From the task to the hypervisor.
    RequestNotSupported,
}

/// Register value that reports success.
pub const HYPC_SUCCESS: u64 = 0;

impl Error {
    /// The register value that stands for this error.
    pub open spec fn spec_code(self) -> u64 {
        match self {
            Error::Failed => 1,
            Error::EcallNotSupported => 2,
            Error::RequestNotSupported => 3,
        }
    }

    /// The error that a register value stands for. Unknown values read as
    /// `Failed`.
    pub open spec fn spec_from_code(val: u64) -> Error {
        if val == 2 {
            Error::EcallNotSupported
        } else if val == 3 {
            Error::RequestNotSupported
        } else {
            Error::Failed
        }
    }

    /// The register value that stands for this error.
    #[verifier::when_used_as_spec(spec_code)]
    pub fn code(self) -> (r: u64)
        ensures
            r == self.spec_code(),
            r != HYPC_SUCCESS,
    {
        match self {
            Error::Failed => 1,
            Error::EcallNotSupported => 2,
            Error::RequestNotSupported => 3,
        }
    }
}

impl From<u64> for Error {
    fn from(val: u64) -> (r: Error) {
        match val {
            1 => Error::Failed,
            2 => Error::EcallNotSupported,
            3 => Error::RequestNotSupported,
            _ => Error::Failed,
        }
    }
}

impl vstd::std_specs::convert::FromSpecImpl<u64> for Error {
    open spec fn obeys_from_spec() -> bool {
        true
    }

    open spec fn from_spec(val: u64) -> Error {
        Error::spec_from_code(val)
    }
}

/// A type that every setting of the argument registers decodes to.
pub trait IntoRegisters: Sized {
    /// The value that the registers `regs` hold.
    spec fn decoded(regs: Seq<u64>) -> Self;

    /// The registers after `self` has been written over `regs`.
    spec fn encoded(&self, regs: Seq<u64>) -> Seq<u64>;

    /// Reads a value from the argument registers.
    fn from_registers(regs: &[u64]) -> (r: Self)
        requires
            regs@.len() >= NUM_A_REGS,
        ensures
            r == Self::decoded(regs@),
    ;

    /// Writes `self` into the argument registers.
    fn set_registers(&self, regs: &mut [u64])
        requires
            old(regs)@.len() >= NUM_A_REGS,
        ensures
            final(regs)@ == self.encoded(old(regs)@),
    ;
}

/// A type that only some settings of the argument registers decode to.
pub trait TryIntoRegisters: Sized {
    /// The value that the registers `regs` hold, or the error that they are
    /// refused with.
    spec fn try_decoded(regs: Seq<u64>) -> Result<Self, Error>;

    /// The registers after `self` has been written over `regs`.
    spec fn encoded(&self, regs: Seq<u64>) -> Seq<u64>;

    /// Reads a value from the argument registers, or says why there is none.
    fn try_from_registers(regs: &[u64]) -> (r: Result<Self, Error>)
        requires
            regs@.len() >= NUM_A_REGS,
        ensures
            r == Self::try_decoded(regs@),
    ;

    /// Writes `self` into the argument registers.
    fn set_registers(&self, regs: &mut [u64])
        requires
            old(regs)@.len() >= NUM_A_REGS,
        ensures
            final(regs)@ == self.encoded(old(regs)@),
    ;
}

/// The result of a request: `a0` holds zero on success and the error code
/// otherwise.
impl IntoRegisters for Result<(), Error> {
    open spec fn decoded(regs: Seq<u64>) -> Result<(), Error> {
        if regs[0] == HYPC_SUCCESS {
            Ok(())
        } else {
            Err(Error::spec_from_code(regs[0]))
        }
    }

    open spec fn encoded(&self, regs: Seq<u64>) -> Seq<u64> {
        match *self {
            Ok(_) => regs.update(0, HYPC_SUCCESS),
            Err(e) => regs.update(0, e.spec_code()),
        }
    }

    fn from_registers(regs: &[u64]) -> (r: Result<(), Error>) {
        let code: u64 = regs[0];
        if code == HYPC_SUCCESS {
            Ok(())
        } else {
            Err(Error::from(code))
        }
    }

    fn set_registers(&self, regs: &mut [u64]) {
        match self {
            Ok(_) => {
                regs[0] = HYPC_SUCCESS;
            },
            Err(e) => {
                regs[0] = e.code();
            },
        }
    }
}

/// The operations of the task.
#[derive(Clone, Copy, Debug, PartialEq, Eq, Structural)]
pub enum UmodeOp {
    /// Do nothing.
    Nop,
    /// Say hello.
    Hello,
}

impl UmodeOp {
    /// The register value that stands for this operation.
    pub open spec fn spec_code(self) -> u64 {
        match self {
            UmodeOp::Nop => 1,
            UmodeOp::Hello => 2,
        }
    }

    /// The operation that a register value stands for.
    pub open spec fn spec_from_code(reg: u64) -> Result<UmodeOp, Error> {
        if reg == 1 {
            Ok(UmodeOp::Nop)
        } else if reg == 2 {
            Ok(UmodeOp::Hello)
        } else {
            Err(Error::RequestNotSupported)
        }
    }

    /// The register value that stands for this operation.
    #[verifier::when_used_as_spec(spec_code)]
    pub fn code(self) -> (r: u64)
        ensures
            r == self.spec_code(),
    {
        match self {
            UmodeOp::Nop => 1,
            UmodeOp::Hello => 2,
        }
    }
}

impl TryFrom<u64> for UmodeOp {
    type Error = Error;

    fn try_from(reg: u64) -> (r: Result<UmodeOp, Error>) {
        match reg {
            1 => Ok(UmodeOp::Nop),
            2 => Ok(UmodeOp::Hello),
            _ => Err(Error::RequestNotSupported),
        }
    }
}

impl vstd::std_specs::convert::TryFromSpecImpl<u64> for UmodeOp {
    open spec fn obeys_try_from_spec() -> bool {
        true
    }

    open spec fn try_from_spec(reg: u64) -> Result<UmodeOp, Error> {
        UmodeOp::spec_from_code(reg)
    }
}

/// An operation requested by the hypervisor and executed by the task.
#[derive(Clone, Copy, Debug, PartialEq, Eq)]
pub struct UmodeRequest {
    op: UmodeOp,
    in_addr: Option<u64>,
    in_len: usize,
    out_addr: Option<u64>,
    out_len: usize,
}

/// What a request consists of.
pub struct RequestModel {
    /// The operation.
    pub op: UmodeOp,
    /// Where the input starts, if there is one. Never zero.
    pub in_addr: Option<u64>,
    /// The length of the input.
    pub in_len: usize,
    /// Where the output starts, if there is one. Never zero.
    pub out_addr: Option<u64>,
    /// The length of the output.
    pub out_len: usize,
}

/// The address that a register holds: zero stands for none.
pub open spec fn addr_of_reg(reg: u64) -> Option<u64> {
    if reg == 0 {
        None
    } else {
        Some(reg)
    }
}

/// The register value for an address: zero stands for none.
pub open spec fn reg_of_addr(addr: Option<u64>) -> u64 {
    match addr {
        Some(a) => a,
        None => 0,
    }
}

impl UmodeRequest {
    /// What the request consists of.
    pub closed spec fn view(&self) -> RequestModel {
        RequestModel {
            op: self.op,
            in_addr: self.in_addr,
            in_len: self.in_len,
            out_addr: self.out_addr,
            out_len: self.out_len,
        }
    }

    /// A request to do nothing.
    pub fn nop() -> (r: UmodeRequest)
        ensures
            r@ == (RequestModel {
                op: UmodeOp::Nop,
                in_addr: None,
                in_len: 0,
                out_addr: None,
                out_len: 0,
            }),
    {
        UmodeRequest { op: UmodeOp::Nop, in_addr: None, in_len: 0, out_addr: None, out_len: 0 }
    }

    /// A request to say hello.
    pub fn hello() -> (r: UmodeRequest)
        ensures
            r@ == (RequestModel {
                op: UmodeOp::Hello,
                in_addr: None,
                in_len: 0,
                out_addr: None,
                out_len: 0,
            }),
    {
        UmodeRequest { op: UmodeOp::Hello, in_addr: None, in_len: 0, out_addr: None, out_len: 0 }
    }

    /// Returns the requested operation.
    pub fn op(&self) -> (r: UmodeOp)
        ensures
            r == self@.op,
    {
        self.op
    }
}

impl TryIntoRegisters for UmodeRequest {
    open spec fn try_decoded(regs: Seq<u64>) -> Result<UmodeRequest, Error> {
        match UmodeOp::spec_from_code(regs[0]) {
            Err(e) => Err(e),
            Ok(op) => Ok(request_of(op, regs)),
        }
    }

    open spec fn encoded(&self, regs: Seq<u64>) -> Seq<u64> {
        regs.update(0, self@.op.spec_code()).update(1, reg_of_addr(self@.in_addr)).update(
            2,
            self@.in_len as u64,
        ).update(3, reg_of_addr(self@.out_addr)).update(4, self@.out_len as u64)
    }

    fn try_from_registers(regs: &[u64]) -> (r: Result<UmodeRequest, Error>) {
        let op = match UmodeOp::try_from(regs[0]) {
            Ok(op) => op,
            Err(e) => {
                return Err(e);
            },
        };
        let req = UmodeRequest {
            op,
            in_addr: if regs[1] == 0 {
                None
            } else {
                Some(regs[1])
            },
            in_len: regs[2] as usize,
            out_addr: if regs[3] == 0 {
                None
            } else {
                Some(regs[3])
            },
            out_len: regs[4] as usize,
        };
        proof {
            lemma_request_of(op, regs@, req);
        }
        Ok(req)
    }

    fn set_registers(&self, regs: &mut [u64]) {
        regs[0] = self.op.code();
        regs[1] = match self.in_addr {
            Some(val) => val,
            None => 0,
        };
        regs[2] = self.in_len as u64;
        regs[3] = match self.out_addr {
            Some(val) => val,
            None => 0,
        };
        regs[4] = self.out_len as u64;
    }
}

/// The request with operation `op` whose buffers the registers `regs`
/// describe.
pub closed spec fn request_of(op: UmodeOp, regs: Seq<u64>) -> UmodeRequest {
    UmodeRequest {
        op,
        in_addr: addr_of_reg(regs[1]),
        in_len: regs[2] as usize,
        out_addr: addr_of_reg(regs[3]),
        out_len: regs[4] as usize,
    }
}

/// What `request_of` is: the request that consists of the operation and of
/// the buffers that the registers `a1` to `a4` describe.
pub proof fn lemma_request_of(op: UmodeOp, regs: Seq<u64>, req: UmodeRequest)
    ensures
        request_of(op, regs)@ == (RequestModel {
            op,
            in_addr: addr_of_reg(regs[1]),
            in_len: regs[2] as usize,
            out_addr: addr_of_reg(regs[3]),
            out_len: regs[4] as usize,
        }),
        req@ == request_of(op, regs)@ ==> req == request_of(op, regs),
{
}

/// A call from the task to the hypervisor.
#[derive(Clone, Copy, Debug, PartialEq, Eq)]
pub enum HypCall {
    /// Panic and exit immediately.
    Panic,
    /// Print a character for debug.
    PutChar(u8),
    /// Return the result of the previous request and wait for the next one.
    NextOp(Result<(), Error>),
}

/// Call tag of `HypCall::Panic`.
pub const HYPC_PANIC: u64 = 0;

/// Call tag of `HypCall::PutChar`.
pub const HYPC_PUTCHAR: u64 = 1;

/// Call tag of `HypCall::NextOp`.
pub const HYPC_NEXTOP: u64 = 2;

impl TryIntoRegisters for HypCall {
    open spec fn try_decoded(regs: Seq<u64>) -> Result<HypCall, Error> {
        if regs[7] == HYPC_PANIC {
            Ok(HypCall::Panic)
        } else if regs[7] == HYPC_PUTCHAR {
            Ok(HypCall::PutChar(regs[0] as u8))
        } else if regs[7] == HYPC_NEXTOP {
            Ok(HypCall::NextOp(<Result<(), Error> as IntoRegisters>::decoded(regs)))
        } else {
            Err(Error::EcallNotSupported)
        }
    }

    open spec fn encoded(&self, regs: Seq<u64>) -> Seq<u64> {
        match *self {
            HypCall::Panic => regs.update(7, HYPC_PANIC),
            HypCall::PutChar(byte) => regs.update(0, byte as u64).update(7, HYPC_PUTCHAR),
            HypCall::NextOp(result) => IntoRegisters::encoded(&result, regs).update(
                7,
                HYPC_NEXTOP,
            ),
        }
    }

    fn try_from_registers(regs: &[u64]) -> (r: Result<HypCall, Error>) {
        let tag: u64 = regs[7];
        if tag == HYPC_PANIC {
            Ok(HypCall::Panic)
        } else if tag == HYPC_PUTCHAR {
            Ok(HypCall::PutChar(regs[0] as u8))
        } else if tag == HYPC_NEXTOP {
            Ok(HypCall::NextOp(<Result<(), Error> as IntoRegisters>::from_registers(regs)))
        } else {
            Err(Error::EcallNotSupported)
        }
    }

    fn set_registers(&self, regs: &mut [u64]) {
        match self {
            HypCall::Panic => {
                regs[7] = HYPC_PANIC;
            },
            HypCall::PutChar(byte) => {
                regs[0] = *byte as u64;
                regs[7] = HYPC_PUTCHAR;
            },
            HypCall::NextOp(result) => {
                result.set_registers(regs);
                regs[7] = HYPC_NEXTOP;
            },
        }
    }
}

/// Every call survives the trip through the registers.
pub proof fn lemma_hypcall_round_trip(call: HypCall, regs: Seq<u64>)
    requires
        regs.len() >= NUM_A_REGS,
    ensures
        HypCall::try_decoded(call.encoded(regs)) == Ok::<HypCall, Error>(call),
{
    match call {
        HypCall::NextOp(Ok(unit)) => {
            assert(unit == ());
        },
        HypCall::NextOp(Err(e)) => {
            assert(Error::spec_from_code(e.spec_code()) == e);
        },
        _ => {},
    }
}

/// A request whose buffers are absent or start at a non-zero address
/// survives the trip through the registers.
pub proof fn lemma_request_round_trip(req: UmodeRequest, regs: Seq<u64>)
    requires
        regs.len() >= NUM_A_REGS,
        req@.in_addr != Some(0u64),
        req@.out_addr != Some(0u64),
    ensures
        UmodeRequest::try_decoded(req.encoded(regs)) == Ok::<UmodeRequest, Error>(req),
{
}

} // verus!
