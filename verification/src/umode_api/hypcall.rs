//! Calls from the user-mode task to the hypervisor, grouped in extensions.
//! The extension travels in `a7`, the function of the extension and its
//! arguments in `a0` to `a5`.

use vstd::prelude::*;

verus! {

/// The error type returned by calls to the hypervisor.
#[derive(Clone, Copy, Debug, PartialEq, Eq, Structural)]
pub enum HypCallError {
    /// Generic failure in execution of the call.
    Failed,
    /// Call not supported by the hypervisor.
    NotSupported,
    /// Extension not implemented.
    UnknownExtension,
}

impl HypCallError {
    /// The register value that stands for this error.
    pub open spec fn spec_code(self) -> u64 {
        match self {
            HypCallError::Failed => 1,
            HypCallError::NotSupported => 2,
            HypCallError::UnknownExtension => 3,
        }
    }

    /// The error that a register value stands for. Only `Failed` and
    /// `NotSupported` come back from the hypervisor; any other value reads
    /// as `Failed`.
    pub open spec fn spec_from_code(e: u64) -> HypCallError {
        if e == 2 {
            HypCallError::NotSupported
        } else {
            HypCallError::Failed
        }
    }

    /// The register value that stands for this error.
    #[verifier::when_used_as_spec(spec_code)]
    pub fn code(self) -> (r: u64)
        ensures
            r == self.spec_code(),
            r != HYPC_SUCCESS,
    {
        match self {
            HypCallError::Failed => 1,
            HypCallError::NotSupported => 2,
            HypCallError::UnknownExtension => 3,
        }
    }

    /// The error that a register value stands for.
    #[verifier::when_used_as_spec(spec_from_code)]
    pub fn from_code(e: u64) -> (r: HypCallError)
        ensures
            r == Self::spec_from_code(e),
    {
        match e {
            1 => HypCallError::Failed,
            2 => HypCallError::NotSupported,
            _ => HypCallError::Failed,
        }
    }
}

/// A hypercall extension: a group of calls that is told from the bytes of
/// the registers `a0` to `a5`.
pub trait HypCallExt: Sized {
    /// The call that the registers `args` hold.
    spec fn decoded(args: Seq<u64>) -> Result<Self, HypCallError>;

    /// The registers after the call has been written over `args`.
    spec fn encoded(&self, args: Seq<u64>) -> Seq<u64>;

    /// Builds the call from registers. Called from the hypervisor.
    fn from_regs(args: &[u64]) -> (r: Result<Self, HypCallError>)
        requires
            args@.len() >= 6,
        ensures
            r == Self::decoded(args@),
    ;

    /// Writes the call into registers. Called from the task.
    fn to_regs(&self, args: &mut [u64])
        requires
            old(args)@.len() >= 6,
        ensures
            final(args)@ == self.encoded(old(args)@),
    ;
}

/// The base extension of hypercalls. Necessary for basic runtime operations.
#[derive(Clone, Copy, Debug, PartialEq, Eq, Structural)]
pub enum BaseFunc {
    /// Panic and exit immediately.
    Panic,
    /// Print a character for debug.
    PutChar(u8),
}

/// Function number of `BaseFunc::Panic`.
pub const HYPC_BASE_PANIC: u64 = 0;

/// Function number of `BaseFunc::PutChar`.
pub const HYPC_BASE_PUTCHAR: u64 = 1;

impl HypCallExt for BaseFunc {
    open spec fn decoded(regs: Seq<u64>) -> Result<BaseFunc, HypCallError> {
        if regs[0] == HYPC_BASE_PANIC {
            Ok(BaseFunc::Panic)
        } else if regs[0] == HYPC_BASE_PUTCHAR {
            Ok(BaseFunc::PutChar(regs[1] as u8))
        } else {
            Err(HypCallError::NotSupported)
        }
    }

    open spec fn encoded(&self, regs: Seq<u64>) -> Seq<u64> {
        match *self {
            BaseFunc::Panic => regs.update(0, HYPC_BASE_PANIC),
            BaseFunc::PutChar(byte) => regs.update(0, HYPC_BASE_PUTCHAR).update(1, byte as u64),
        }
    }

    fn to_regs(&self, regs: &mut [u64]) {
        match self {
            BaseFunc::Panic => {
                regs[0] = HYPC_BASE_PANIC;
            },
            BaseFunc::PutChar(byte) => {
                regs[0] = HYPC_BASE_PUTCHAR;
                regs[1] = *byte as u64;
            },
        }
    }

    fn from_regs(regs: &[u64]) -> (r: Result<BaseFunc, HypCallError>) {
        let function: u64 = regs[0];
        if function == HYPC_BASE_PANIC {
            Ok(BaseFunc::Panic)
        } else if function == HYPC_BASE_PUTCHAR {
            Ok(BaseFunc::PutChar(regs[1] as u8))
        } else {
            Err(HypCallError::NotSupported)
        }
    }
}

/// Calls from the task to the hypervisor.
#[derive(Clone, Copy, Debug, PartialEq, Eq, Structural)]
pub enum HypCall {
    /// Base calls. Needed for the execution of the task.
    Base(BaseFunc),
}

/// Extension number of the base calls, which are always implemented.
pub const HCEXT_BASE: u64 = 0;

impl HypCall {
    /// The call that the registers `args` hold.
    pub open spec fn decoded(args: Seq<u64>) -> Result<HypCall, HypCallError> {
        if args[7] == HCEXT_BASE {
            match <BaseFunc as HypCallExt>::decoded(args) {
                Ok(f) => Ok(HypCall::Base(f)),
                Err(e) => Err(e),
            }
        } else {
            Err(HypCallError::UnknownExtension)
        }
    }

    /// The registers after the call has been written over `args`.
    pub open spec fn encoded(&self, args: Seq<u64>) -> Seq<u64> {
        match *self {
            HypCall::Base(f) => HypCallExt::encoded(&f, args.update(7, HCEXT_BASE)),
        }
    }

    /// Creates a call from registers. Called from the hypervisor.
    pub fn from_regs(args: &[u64]) -> (r: Result<HypCall, HypCallError>)
        requires
            args@.len() >= 8,
        ensures
            r == Self::decoded(args@),
    {
        if args[7] == HCEXT_BASE {
            match BaseFunc::from_regs(args) {
                Ok(f) => Ok(HypCall::Base(f)),
                Err(e) => Err(e),
            }
        } else {
            Err(HypCallError::UnknownExtension)
        }
    }

    /// Writes the call to registers. Called from the task.
    pub fn to_regs(&self, args: &mut [u64])
        requires
            old(args)@.len() >= 8,
        ensures
            final(args)@ == self.encoded(old(args)@),
    {
        match self {
            HypCall::Base(function) => {
                args[7] = HCEXT_BASE;
                function.to_regs(args);
            },
        }
    }
}

/// Error code for success.
pub const HYPC_SUCCESS: u64 = 0;

/// Return type for hypercalls. Sent through the argument registers; stands
/// for a result with a 64-bit payload.
#[derive(Clone, Copy, Debug, PartialEq, Eq, Structural)]
pub struct HypReturn {
    /// Zero on success, the code of the error otherwise.
    pub error_code: u64,
    /// The payload on success.
    pub return_value: u64,
}

impl HypReturn {
    /// Creates a `HypReturn` from registers.
    pub fn from_regs(ret_args: &[u64]) -> (r: HypReturn)
        requires
            ret_args@.len() >= 2,
        ensures
            r == (HypReturn { error_code: ret_args@[0], return_value: ret_args@[1] }),
    {
        HypReturn { error_code: ret_args[0], return_value: ret_args[1] }
    }

    /// Writes `self` into registers.
    pub fn to_regs(&self, args: &mut [u64])
        requires
            old(args)@.len() >= 2,
        ensures
            final(args)@ == old(args)@.update(0, self.error_code).update(1, self.return_value),
    {
        args[0] = self.error_code;
        args[1] = self.return_value;
    }

    /// The return that stands for `result`.
    pub open spec fn spec_from_result(result: Result<u64, HypCallError>) -> HypReturn {
        match result {
            Ok(rv) => HypReturn { error_code: HYPC_SUCCESS, return_value: rv },
            Err(e) => HypReturn { error_code: e.spec_code(), return_value: 0 },
        }
    }

    /// The result that this return stands for.
    pub open spec fn spec_into_result(self) -> Result<u64, HypCallError> {
        if self.error_code == HYPC_SUCCESS {
            Ok(self.return_value)
        } else {
            Err(HypCallError::spec_from_code(self.error_code))
        }
    }

    /// The return that stands for `result`.
    #[verifier::when_used_as_spec(spec_from_result)]
    pub fn from_result(result: Result<u64, HypCallError>) -> (r: HypReturn)
        ensures
            r == Self::spec_from_result(result),
    {
        match result {
            Ok(rv) => HypReturn { error_code: HYPC_SUCCESS, return_value: rv },
            Err(e) => HypReturn { error_code: e.code(), return_value: 0 },
        }
    }

    /// The result that this return stands for.
    #[verifier::when_used_as_spec(spec_into_result)]
    pub fn into_result(self) -> (r: Result<u64, HypCallError>)
        ensures
            r == self.spec_into_result(),
    {
        if self.error_code == HYPC_SUCCESS {
            Ok(self.return_value)
        } else {
            Err(HypCallError::from_code(self.error_code))
        }
    }
}

impl From<HypCallError> for HypReturn {
    fn from(error: HypCallError) -> (r: HypReturn) {
        HypReturn { error_code: error.code(), return_value: 0 }
    }
}

impl vstd::std_specs::convert::FromSpecImpl<HypCallError> for HypReturn {
    open spec fn obeys_from_spec() -> bool {
        true
    }

    open spec fn from_spec(error: HypCallError) -> HypReturn {
        HypReturn { error_code: error.spec_code(), return_value: 0 }
    }
}

/// Every call survives the trip through the registers.
pub proof fn lemma_hypcall_round_trip(call: HypCall, args: Seq<u64>)
    requires
        args.len() >= 8,
    ensures
        HypCall::decoded(call.encoded(args)) == Ok::<HypCall, HypCallError>(call),
{
}

/// A result survives the trip through a `HypReturn`, unless it is the error
/// `UnknownExtension`, which comes back as `Failed`.
pub proof fn lemma_return_round_trip(result: Result<u64, HypCallError>)
    requires
        result != Err::<u64, HypCallError>(HypCallError::UnknownExtension),
    ensures
        HypReturn::spec_from_result(result).spec_into_result() == result,
{
}

} // verus!
