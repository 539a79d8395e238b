//! The runtime of a user-mode task: the calls to the hypervisor, as far as
//! packing and unpacking the argument registers go.

use crate::umode_api::{Error as UmodeApiError, HypCall, IntoRegisters, TryIntoRegisters, UmodeRequest};
use vstd::prelude::*;

verus! {

/// Writes text by way of the hypervisor, one character at a time.
#[derive(Clone, Copy, Debug)]
pub struct UserWriter {}

/// The argument registers of a call to the hypervisor, starting from
/// registers that are all zero.
pub fn hypcall_regs(call: &HypCall) -> (regs: [u64; 8])
    ensures
        regs@ == call.encoded(Seq::new(8, |i: int| 0u64)),
{
    let mut regs: [u64; 8] = [0u64; 8];
    assert(regs@ =~= Seq::new(8, |i: int| 0u64));
    call.set_registers(&mut regs);
    regs
}

/// The argument registers of the call that prints the character `c`. Only
/// the low eight bits of the character are printed.
pub fn hyp_putchar(c: char) -> (regs: [u64; 8])
    ensures
        regs@ == HypCall::PutChar(c as u8).encoded(Seq::new(8, |i: int| 0u64)),
{
    hypcall_regs(&HypCall::PutChar(c as u8))
}

/// The result of the call that prints a character, from the argument
/// registers that the hypervisor has left.
pub fn hyp_putchar_result(regs: &[u64; 8]) -> (r: Result<(), UmodeApiError>)
    ensures
        r == <Result<(), UmodeApiError> as IntoRegisters>::decoded(regs@),
{
    <Result<(), UmodeApiError> as IntoRegisters>::from_registers(regs)
}

/// The argument registers of the call that makes the hypervisor end the
/// task.
pub fn hyp_panic() -> (regs: [u64; 8])
    ensures
        regs@ == HypCall::Panic.encoded(Seq::new(8, |i: int| 0u64)),
{
    hypcall_regs(&HypCall::Panic)
}

/// The argument registers of the call that hands in the result of the
/// last request and waits for the next one.
pub fn hyp_nextop(result: Result<(), UmodeApiError>) -> (regs: [u64; 8])
    ensures
        regs@ == HypCall::NextOp(result).encoded(Seq::new(8, |i: int| 0u64)),
{
    hypcall_regs(&HypCall::NextOp(result))
}

/// The next request, from the argument registers that the hypervisor has
/// left. If there is an error, the caller may hand it in at once and wait
/// for another request.
pub fn hyp_nextop_request(regs: &[u64; 8]) -> (r: Result<UmodeRequest, UmodeApiError>)
    ensures
        r == UmodeRequest::try_decoded(regs@),
{
    UmodeRequest::try_from_registers(regs)
}

/// The result with which the first task program answers what came back
/// from its call for the next request: it succeeds on every request that
/// it knows, and hands an error in again as it is.
pub fn task_main_result(req: &Result<UmodeRequest, UmodeApiError>) -> (r: Result<(), UmodeApiError>)
    ensures
        r == (match *req {
            Ok(_) => Ok::<(), UmodeApiError>(()),
            Err(e) => Err::<(), UmodeApiError>(e),
        }),
{
    match req {
        Ok(_) => Ok(()),
        Err(e) => Err(*e),
    }
}

} // verus!
