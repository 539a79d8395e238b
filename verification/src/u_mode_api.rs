//! The register protocol between the hypervisor and its user-mode task.
//!
//! Both directions use the eight argument registers `a0`-`a7`. A request from
//! the hypervisor (`UmodeRequest`) carries its operation tag in `a0`; a call
//! from the task (`HypCall`) carries its tag in `a7`. The encodings are fixed:
//! a value written by `to_registers` is read back unchanged by the matching
//! decoder.

use vstd::prelude::*;

verus! {

/// Number of argument registers that carry a request or a call.
pub const NUM_A_REGS: usize = 8;

/// The errors that cross the boundary between hypervisor and task.
#[derive(Clone, Copy, Debug, PartialEq, Eq, Structural)]
pub enum Error {
    /// Generic failure in execution.
    Failed,
    /// Invalid arguments passed.
    InvalidArgument,
    /// Ecall not supported. From hypervisor to the task.
    EcallNotSupported,
    /// Request not supported. From the task to the hypervisor.
    RequestNotSupported,
}

/// Register value that reports success.
pub const HYPC_SUCCESS: u64 = 0;

impl Error {
    /// The register value that stands for this error.
    pub open spec fn spec_code(self) -> u64 {
        match self {
            Error::Failed => 1,
            Error::InvalidArgument => 2,
            Error::EcallNotSupported => 3,
            Error::RequestNotSupported => 4,
        }
    }

    /// The error that a register value stands for. Unknown values read as
    /// `Failed`.
    pub open spec fn spec_from_code(val: u64) -> Error {
        if val == 2 {
            Error::InvalidArgument
        } else if val == 3 {
            Error::EcallNotSupported
        } else if val == 4 {
            Error::RequestNotSupported
        } else {
            Error::Failed
        }
    }

    /// The register value that stands for this error.
    #[verifier::when_used_as_spec(spec_code)]
    pub fn code(self) -> (r: u64)
        ensures
            r == self.spec_code(),
            r != HYPC_SUCCESS,
    {
        match self {
            Error::Failed => 1,
            Error::InvalidArgument => 2,
            Error::EcallNotSupported => 3,
            Error::RequestNotSupported => 4,
        }
    }
}

impl From<u64> for Error {
    fn from(val: u64) -> (r: Error) {
        match val {
            1 => Error::Failed,
            2 => Error::InvalidArgument,
            3 => Error::EcallNotSupported,
            4 => Error::RequestNotSupported,
            _ => Error::Failed,
        }
    }
}

impl vstd::std_specs::convert::FromSpecImpl<u64> for Error {
    open spec fn obeys_from_spec() -> bool {
        true
    }

    open spec fn from_spec(val: u64) -> Error {
        Error::spec_from_code(val)
    }
}

/// A type that every setting of the argument registers decodes to.
pub trait IntoRegisters: Sized {
    /// The value that the registers `regs` hold.
    spec fn decoded(regs: Seq<u64>) -> Self;

    /// The registers after `self` has been written over `regs`.
    spec fn encoded(&self, regs: Seq<u64>) -> Seq<u64>;

    /// Reads a value from the argument registers.
    fn from_registers(regs: &[u64]) -> (r: Self)
        requires
            regs@.len() >= NUM_A_REGS,
        ensures
            r == Self::decoded(regs@),
    ;

    /// Writes `self` into the argument registers.
    fn to_registers(&self, regs: &mut [u64])
        requires
            old(regs)@.len() >= NUM_A_REGS,
        ensures
            final(regs)@ == self.encoded(old(regs)@),
    ;
}

/// A type that only some settings of the argument registers decode to.
pub trait TryIntoRegisters: Sized {
    /// The value that the registers `regs` hold, or the error that they are
    /// refused with.
    spec fn try_decoded(regs: Seq<u64>) -> Result<Self, Error>;

    /// The registers after `self` has been written over `regs`.
    spec fn encoded(&self, regs: Seq<u64>) -> Seq<u64>;

    /// Reads a value from the argument registers, or says why there is none.
    fn try_from_registers(regs: &[u64]) -> (r: Result<Self, Error>)
        requires
            regs@.len() >= NUM_A_REGS,
        ensures
            r == Self::try_decoded(regs@),
    ;

    /// Writes `self` into the argument registers.
    fn to_registers(&self, regs: &mut [u64])
        requires
            old(regs)@.len() >= NUM_A_REGS,
        ensures
            final(regs)@ == self.encoded(old(regs)@),
    ;
}

/// The result of a request: `a0` holds zero and `a1` the payload on success,
/// `a0` holds the error code otherwise.
impl IntoRegisters for Result<u64, Error> {
    open spec fn decoded(regs: Seq<u64>) -> Result<u64, Error> {
        if regs[0] == HYPC_SUCCESS {
            Ok(regs[1])
        } else {
            Err(Error::spec_from_code(regs[0]))
        }
    }

    open spec fn encoded(&self, regs: Seq<u64>) -> Seq<u64> {
        match *self {
            Ok(value) => regs.update(0, HYPC_SUCCESS).update(1, value),
            Err(e) => regs.update(0, e.spec_code()),
        }
    }

    fn from_registers(regs: &[u64]) -> (r: Result<u64, Error>) {
        let code: u64 = regs[0];
        if code == HYPC_SUCCESS {
            Ok(regs[1])
        } else {
            Err(Error::from(code))
        }
    }

    fn to_registers(&self, regs: &mut [u64]) {
        match self {
            Ok(value) => {
                regs[0] = HYPC_SUCCESS;
                regs[1] = *value;
            },
            Err(e) => {
                regs[0] = e.code();
            },
        }
    }
}

/// An operation that the hypervisor asks the task to carry out.
#[derive(Clone, Copy, Debug, PartialEq, Eq, Structural)]
#[allow(inconsistent_fields)]
pub enum UmodeRequest {
    /// Do nothing.
    Nop,
    /// Print the string at the start of the shared region.
    PrintString {
        /// Length of the string in the shared region.
        len: usize,
    },
    /// Copy memory from input to output.
    MemCopy {
        /// Starting address of the output.
        out_addr: u64,
        /// Starting address of the input.
        in_addr: u64,
        /// Length of input and output.
        len: u64,
    },
    /// Produce attestation evidence. The shared region holds the signing
    /// context.
    GetEvidence {
        /// Starting address of the certificate signing request.
        csr_addr: u64,
        /// Size of the certificate signing request.
        csr_len: usize,
        /// Starting address of the output certificate.
        certout_addr: u64,
        /// Size of the output certificate.
        certout_len: usize,
    },
}

/// Operation tag of `UmodeRequest::Nop`.
pub const UMOP_NOP: u64 = 1;

/// Operation tag of `UmodeRequest::PrintString`.
pub const UMOP_PRINTSTR: u64 = 2;

/// Operation tag of `UmodeRequest::MemCopy`.
pub const UMOP_MEMCOPY: u64 = 3;

/// Operation tag of `UmodeRequest::GetEvidence`.
pub const UMOP_GET_EVIDENCE: u64 = 4;

/// True if the byte ranges `[out_addr, out_addr + len)` and
/// `[in_addr, in_addr + len)` have a byte in common.
pub open spec fn ranges_overlap(out_addr: u64, in_addr: u64, len: u64) -> bool {
    exists|a: int| #[trigger] in_range(a, out_addr, len) && in_range(a, in_addr, len)
}

/// True if the address `a` lies in the `len` bytes that start at `start`.
pub open spec fn in_range(a: int, start: u64, len: u64) -> bool {
    start <= a < start + len
}

/// The two ranges of a memory copy meet exactly when they are not empty and
/// their starts are less than `len` apart.
pub proof fn lemma_ranges_overlap(out_addr: u64, in_addr: u64, len: u64)
    ensures
        ranges_overlap(out_addr, in_addr, len) <==> (len > 0 && out_addr - in_addr < len && in_addr
            - out_addr < len),
{
    if len > 0 && out_addr - in_addr < len && in_addr - out_addr < len {
        let a: int = if out_addr >= in_addr {
            out_addr as int
        } else {
            in_addr as int
        };
        assert(in_range(a, out_addr, len) && in_range(a, in_addr, len));
    }
}

impl UmodeRequest {
    /// A request to do nothing.
    pub fn nop() -> (r: UmodeRequest)
        ensures
            r == UmodeRequest::Nop,
    {
        UmodeRequest::Nop
    }

    /// A request to print the first `len` bytes of the shared region.
    pub fn print_string(len: usize) -> (r: UmodeRequest)
        ensures
            r == (UmodeRequest::PrintString { len }),
    {
        UmodeRequest::PrintString { len }
    }

    /// A request to copy `len` bytes from `in_addr` to `out_addr`, or `None`
    /// if the two ranges overlap. The caller guarantees that the input is
    /// mapped readable and the output writable for the task.
    pub fn memcopy(out_addr: u64, in_addr: u64, len: u64) -> (r: Option<UmodeRequest>)
        ensures
            r is None <==> ranges_overlap(out_addr, in_addr, len),
            r matches Some(req) ==> req == (UmodeRequest::MemCopy { out_addr, in_addr, len }),
    {
        proof {
            lemma_ranges_overlap(out_addr, in_addr, len);
        }
        let distance: u64 = if out_addr >= in_addr {
            out_addr - in_addr
        } else {
            in_addr - out_addr
        };
        if len > 0 && distance < len {
            None
        } else {
            Some(UmodeRequest::MemCopy { out_addr, in_addr, len })
        }
    }

    /// A request for attestation evidence over the certificate signing
    /// request at `csr_addr`, to be written to `certout_addr`.
    pub fn get_evidence(csr_addr: u64, csr_len: usize, certout_addr: u64, certout_len: usize) -> (r:
        UmodeRequest)
        ensures
            r == (UmodeRequest::GetEvidence { csr_addr, csr_len, certout_addr, certout_len }),
    {
        UmodeRequest::GetEvidence { csr_addr, csr_len, certout_addr, certout_len }
    }
}

impl TryIntoRegisters for UmodeRequest {
    open spec fn try_decoded(regs: Seq<u64>) -> Result<UmodeRequest, Error> {
        if regs[0] == UMOP_NOP {
            Ok(UmodeRequest::Nop)
        } else if regs[0] == UMOP_PRINTSTR {
            Ok(UmodeRequest::PrintString { len: regs[1] as usize })
        } else if regs[0] == UMOP_MEMCOPY {
            Ok(UmodeRequest::MemCopy { out_addr: regs[1], in_addr: regs[2], len: regs[3] })
        } else if regs[0] == UMOP_GET_EVIDENCE {
            Ok(
                UmodeRequest::GetEvidence {
                    csr_addr: regs[1],
                    csr_len: regs[2] as usize,
                    certout_addr: regs[3],
                    certout_len: regs[4] as usize,
                },
            )
        } else {
            Err(Error::RequestNotSupported)
        }
    }

    open spec fn encoded(&self, regs: Seq<u64>) -> Seq<u64> {
        match *self {
            UmodeRequest::Nop => regs.update(0, UMOP_NOP),
            UmodeRequest::PrintString { len } => regs.update(0, UMOP_PRINTSTR).update(
                1,
                len as u64,
            ),
            UmodeRequest::MemCopy { out_addr, in_addr, len } => regs.update(0, UMOP_MEMCOPY).update(
                1,
                out_addr,
            ).update(2, in_addr).update(3, len),
            UmodeRequest::GetEvidence {
                csr_addr,
                csr_len,
                certout_addr,
                certout_len,
            } => regs.update(0, UMOP_GET_EVIDENCE).update(1, csr_addr).update(
                2,
                csr_len as u64,
            ).update(3, certout_addr).update(4, certout_len as u64),
        }
    }

    fn try_from_registers(regs: &[u64]) -> (r: Result<UmodeRequest, Error>) {
        let op: u64 = regs[0];
        if op == UMOP_NOP {
            Ok(UmodeRequest::Nop)
        } else if op == UMOP_PRINTSTR {
            Ok(UmodeRequest::PrintString { len: regs[1] as usize })
        } else if op == UMOP_MEMCOPY {
            Ok(UmodeRequest::MemCopy { out_addr: regs[1], in_addr: regs[2], len: regs[3] })
        } else if op == UMOP_GET_EVIDENCE {
            Ok(
                UmodeRequest::GetEvidence {
                    csr_addr: regs[1],
                    csr_len: regs[2] as usize,
                    certout_addr: regs[3],
                    certout_len: regs[4] as usize,
                },
            )
        } else {
            Err(Error::RequestNotSupported)
        }
    }

    fn to_registers(&self, regs: &mut [u64]) {
        match *self {
            UmodeRequest::Nop => {
                regs[0] = UMOP_NOP;
            },
            UmodeRequest::PrintString { len } => {
                regs[0] = UMOP_PRINTSTR;
                regs[1] = len as u64;
            },
            UmodeRequest::MemCopy { out_addr, in_addr, len } => {
                regs[0] = UMOP_MEMCOPY;
                regs[1] = out_addr;
                regs[2] = in_addr;
                regs[3] = len;
            },
            UmodeRequest::GetEvidence { csr_addr, csr_len, certout_addr, certout_len } => {
                regs[0] = UMOP_GET_EVIDENCE;
                regs[1] = csr_addr;
                regs[2] = csr_len as u64;
                regs[3] = certout_addr;
                regs[4] = certout_len as u64;
            },
        }
    }
}

/// A call from the task to the hypervisor.
#[derive(Clone, Copy, Debug, PartialEq, Eq)]
pub enum HypCall {
    /// Panic and exit immediately.
    Panic,
    /// Print a character for debug.
    PutChar(u8),
    /// Return the result of the previous request and wait for the next one.
    NextOp(Result<u64, Error>),
}

/// Call tag of `HypCall::Panic`.
pub const HYPC_PANIC: u64 = 0;

/// Call tag of `HypCall::PutChar`.
pub const HYPC_PUTCHAR: u64 = 1;

/// Call tag of `HypCall::NextOp`.
pub const HYPC_NEXTOP: u64 = 2;

impl TryIntoRegisters for HypCall {
    open spec fn try_decoded(regs: Seq<u64>) -> Result<HypCall, Error> {
        if regs[7] == HYPC_PANIC {
            Ok(HypCall::Panic)
        } else if regs[7] == HYPC_PUTCHAR {
            Ok(HypCall::PutChar(regs[0] as u8))
        } else if regs[7] == HYPC_NEXTOP {
            Ok(HypCall::NextOp(<Result<u64, Error> as IntoRegisters>::decoded(regs)))
        } else {
            Err(Error::EcallNotSupported)
        }
    }

    open spec fn encoded(&self, regs: Seq<u64>) -> Seq<u64> {
        match *self {
            HypCall::Panic => regs.update(7, HYPC_PANIC),
            HypCall::PutChar(byte) => regs.update(0, byte as u64).update(7, HYPC_PUTCHAR),
            HypCall::NextOp(result) => IntoRegisters::encoded(&result, regs).update(
                7,
                HYPC_NEXTOP,
            ),
        }
    }

    fn try_from_registers(regs: &[u64]) -> (r: Result<HypCall, Error>) {
        let tag: u64 = regs[7];
        if tag == HYPC_PANIC {
            Ok(HypCall::Panic)
        } else if tag == HYPC_PUTCHAR {
            Ok(HypCall::PutChar(regs[0] as u8))
        } else if tag == HYPC_NEXTOP {
            Ok(HypCall::NextOp(<Result<u64, Error> as IntoRegisters>::from_registers(regs)))
        } else {
            Err(Error::EcallNotSupported)
        }
    }

    fn to_registers(&self, regs: &mut [u64]) {
        match self {
            HypCall::Panic => {
                regs[7] = HYPC_PANIC;
            },
            HypCall::PutChar(byte) => {
                regs[0] = *byte as u64;
                regs[7] = HYPC_PUTCHAR;
            },
            HypCall::NextOp(result) => {
                result.to_registers(regs);
                regs[7] = HYPC_NEXTOP;
            },
        }
    }
}

/// Every error survives the trip through its register code.
pub proof fn lemma_error_round_trip(e: Error)
    ensures
        Error::spec_from_code(e.spec_code()) == e,
        e.spec_code() != HYPC_SUCCESS,
{
}

/// Every result survives the trip through the registers: decoding what
/// `to_registers` wrote over any registers gives the result back.
pub proof fn lemma_result_round_trip(result: Result<u64, Error>, regs: Seq<u64>)
    requires
        regs.len() >= NUM_A_REGS,
    ensures
        <Result<u64, Error> as IntoRegisters>::decoded(IntoRegisters::encoded(&result, regs))
            == result,
{
}

/// Every request survives the trip through the registers: decoding what
/// `to_registers` wrote over any registers gives the request back.
pub proof fn lemma_request_round_trip(req: UmodeRequest, regs: Seq<u64>)
    requires
        regs.len() >= NUM_A_REGS,
    ensures
        UmodeRequest::try_decoded(req.encoded(regs)) == Ok::<UmodeRequest, Error>(req),
{
}

/// Every call survives the trip through the registers: decoding what
/// `to_registers` wrote over any registers gives the call back.
pub proof fn lemma_hypcall_round_trip(call: HypCall, regs: Seq<u64>)
    requires
        regs.len() >= NUM_A_REGS,
    ensures
        HypCall::try_decoded(call.encoded(regs)) == Ok::<HypCall, Error>(call),
{
}

} // verus!
