//! The operations of the user-mode task, as the task carries them out.
//!
//! The task waits for a request of the hypervisor, carries it out and hands
//! in the result with its next call. It holds no state that cannot be
//! recovered: the hypervisor can reset it at any time.

pub mod cert;

use crate::u_mode_api::{Error as UmodeApiError, UmodeRequest};
use vstd::prelude::*;

verus! {

/// The most bytes that a request to print a string prints.
pub const MAX_PRINT_LENGTH: usize = 80;

/// `core::str::from_utf8` of the standard library, which succeeds exactly
/// on the byte sequences that are valid UTF-8.
#[verifier::external_body]
fn is_valid_utf8(bytes: &[u8]) -> (r: bool)
    ensures
        r == vstd::utf8::valid_utf8(bytes@),
{
    match core::str::from_utf8(bytes) {
        Ok(_) => true,
        Err(_) => false,
    }
}

/// What the task does with a request, or with the error that it got in
/// place of one.
#[derive(Clone, Copy, Debug, PartialEq, Eq)]
pub enum TaskAction {
    /// Hand in this result at once.
    Done(Result<u64, UmodeApiError>),
    /// Print the first `len` bytes of the shared region.
    PrintString {
        /// The length of the string.
        len: usize,
    },
    /// Copy `len` bytes from `in_addr` to `out_addr`.
    MemCopy {
        /// Where the output starts.
        out_addr: u64,
        /// Where the input starts.
        in_addr: u64,
        /// The number of bytes.
        len: usize,
    },
    /// Produce attestation evidence.
    GetEvidence {
        /// Where the certificate signing request starts.
        csr_addr: u64,
        /// The size of the certificate signing request.
        csr_len: usize,
        /// Where the certificate is to be written.
        certout_addr: u64,
        /// The room for the certificate.
        certout_len: usize,
    },
}

/// The task of a CPU, seen from the inside.
pub struct UmodeTask {
    /// The identifier of the CPU that the task runs on.
    pub cpu_id: u64,
    /// The address of the region that the task shares with the hypervisor.
    pub shared_addr: u64,
    /// The size of that region.
    pub shared_size: u64,
}

impl UmodeTask {
    /// The task that was entered with the given values in its first three
    /// argument registers.
    pub fn new(cpu_id: u64, shared_addr: u64, shared_size: u64) -> (r: UmodeTask)
        ensures
            r.cpu_id == cpu_id,
            r.shared_addr == shared_addr,
            r.shared_size == shared_size,
    {
        UmodeTask { cpu_id, shared_addr, shared_size }
    }

    /// The result that the task hands in with its first call, before it
    /// has carried out any request.
    pub fn first_result() -> (r: Result<u64, UmodeApiError>)
        ensures
            r == Ok::<u64, UmodeApiError>(0),
    {
        Ok(0)
    }

    /// What the task does with what came back from its call for the next
    /// request: an error is handed in again as it is, a request to do
    /// nothing succeeds at once, and every other request becomes the
    /// operation that carries it out.
    pub open spec fn spec_action(req: Result<UmodeRequest, UmodeApiError>) -> TaskAction {
        match req {
            Err(e) => TaskAction::Done(Err(e)),
            Ok(UmodeRequest::Nop) => TaskAction::Done(Ok(0)),
            Ok(UmodeRequest::PrintString { len }) => TaskAction::PrintString { len },
            Ok(UmodeRequest::MemCopy { out_addr, in_addr, len }) => TaskAction::MemCopy {
                out_addr,
                in_addr,
                len: len as usize,
            },
            Ok(
                UmodeRequest::GetEvidence { csr_addr, csr_len, certout_addr, certout_len },
            ) => TaskAction::GetEvidence { csr_addr, csr_len, certout_addr, certout_len },
        }
    }

    /// What the task does with what came back from its call for the next
    /// request.
    #[verifier::when_used_as_spec(spec_action)]
    pub fn action(req: Result<UmodeRequest, UmodeApiError>) -> (r: TaskAction)
        ensures
            r == Self::spec_action(req),
    {
        match req {
            Err(e) => TaskAction::Done(Err(e)),
            Ok(UmodeRequest::Nop) => TaskAction::Done(Ok(0)),
            Ok(UmodeRequest::PrintString { len }) => TaskAction::PrintString { len },
            Ok(UmodeRequest::MemCopy { out_addr, in_addr, len }) => TaskAction::MemCopy {
                out_addr,
                in_addr,
                len: len as usize,
            },
            Ok(
                UmodeRequest::GetEvidence { csr_addr, csr_len, certout_addr, certout_len },
            ) => TaskAction::GetEvidence { csr_addr, csr_len, certout_addr, certout_len },
        }
    }

    /// The number of bytes that a request to print `len` bytes prints.
    pub open spec fn printed_len(len: usize) -> usize {
        if len < MAX_PRINT_LENGTH {
            len
        } else {
            MAX_PRINT_LENGTH
        }
    }

    /// Carries out a request to print the first `len` bytes of the shared
    /// region `shared`, as far as checking and cutting the string go: the
    /// string must lie in the shared region, at most its first 80 bytes
    /// are printed, and these must be valid UTF-8. Returns the bytes to
    /// print; their number is the result of the request.
    pub fn op_print_string<'a>(shared: &'a [u8], len: usize) -> (r: Result<&'a [u8], UmodeApiError>)
        ensures
            match r {
                Ok(text) => len <= shared@.len() && text@ == shared@.subrange(
                    0,
                    Self::printed_len(len) as int,
                ) && vstd::utf8::valid_utf8(text@),
                Err(e) => e == UmodeApiError::InvalidArgument && (len > shared@.len()
                    || !vstd::utf8::valid_utf8(shared@.subrange(0, Self::printed_len(len) as int))),
            },
    {
        if len > shared.len() {
            return Err(UmodeApiError::InvalidArgument);
        }
        // Print maximum 80 chars.
        let n: usize = if len < MAX_PRINT_LENGTH {
            len
        } else {
            MAX_PRINT_LENGTH
        };
        let text = vstd::slice::slice_subrange(shared, 0, n);
        if !is_valid_utf8(text) {
            return Err(UmodeApiError::InvalidArgument);
        }
        Ok(text)
    }

    /// Carries out a request to copy `len` bytes from `input` to `output`.
    /// Both must hold `len` bytes; the result is the number of bytes
    /// copied.
    pub fn op_memcopy(output: &mut [u8], input: &[u8], len: usize) -> (r: Result<
        u64,
        UmodeApiError,
    >)
        ensures
            final(output)@.len() == old(output)@.len(),
            len <= input@.len() && len <= old(output)@.len() ==> r == Ok::<u64, UmodeApiError>(
                len as u64,
            ) && final(output)@.subrange(0, len as int) == input@.subrange(0, len as int)
                && final(output)@.subrange(len as int, old(output)@.len() as int)
                    == old(output)@.subrange(len as int, old(output)@.len() as int),
            len > input@.len() || len > old(output)@.len() ==> r == Err::<u64, UmodeApiError>(
                UmodeApiError::InvalidArgument,
            ) && final(output)@ == old(output)@,
    {
        if len > input.len() || len > output.len() {
            return Err(UmodeApiError::InvalidArgument);
        }
        let mut i: usize = 0;
        while i < len
            invariant
                i <= len,
                len <= input@.len(),
                len <= output@.len(),
                output@.len() == old(output)@.len(),
                forall|j: int| 0 <= j < i ==> output@[j] == input@[j],
                forall|j: int| i <= j < output@.len() ==> output@[j] == old(output)@[j],
            decreases len - i,
        {
            output[i] = input[i];
            i = i + 1;
        }
        proof {
            assert(output@.subrange(0, len as int) =~= input@.subrange(0, len as int));
            assert(output@.subrange(len as int, output@.len() as int) =~= old(output)@.subrange(
                len as int,
                output@.len() as int,
            ));
        }
        Ok(len as u64)
    }

    /// The error that the task hands in when the making of evidence has
    /// failed with `e`: what is wrong with the request is an invalid
    /// argument, everything else a failure.
    pub fn evidence_error(e: cert::Error) -> (r: UmodeApiError)
        ensures
            r == (match e {
                cert::Error::CsrBufferTooSmall(_, _) => UmodeApiError::InvalidArgument,
                cert::Error::CsrParseFailed => UmodeApiError::InvalidArgument,
                cert::Error::CsrVerificationFailed => UmodeApiError::InvalidArgument,
                cert::Error::CertificateBufferTooSmall(_, _) => UmodeApiError::InvalidArgument,
                cert::Error::FwidAddFailed => UmodeApiError::Failed,
                cert::Error::CertificateCreationFailed => UmodeApiError::Failed,
            }),
    {
        match e {
            cert::Error::CsrBufferTooSmall(_, _) => UmodeApiError::InvalidArgument,
            cert::Error::CsrParseFailed => UmodeApiError::InvalidArgument,
            cert::Error::CsrVerificationFailed => UmodeApiError::InvalidArgument,
            cert::Error::CertificateBufferTooSmall(_, _) => UmodeApiError::InvalidArgument,
            _ => UmodeApiError::Failed,
        }
    }
}

/// The memory `mem` after `len` bytes have been copied from position `src`
/// to position `dst`.
pub open spec fn copied_memory(mem: Seq<u8>, dst: int, src: int, len: int) -> Seq<u8> {
    Seq::new(
        mem.len(),
        |i: int|
            if dst <= i < dst + len {
                mem[src + (i - dst)]
            } else {
                mem[i]
            },
    )
}

/// A memory copy that the hypervisor asks for leaves the output equal to
/// the input: `UmodeRequest::memcopy` hands out a request only for ranges
/// that do not overlap, and for such ranges the bytes of the input are
/// still what they were when the bytes of the output have been written.
pub proof fn lemma_memcopy_request(mem: Seq<u8>, out_addr: u64, in_addr: u64, len: u64)
    requires
        !crate::u_mode_api::ranges_overlap(out_addr, in_addr, len),
        out_addr + len <= mem.len(),
        in_addr + len <= mem.len(),
    ensures
        copied_memory(mem, out_addr as int, in_addr as int, len as int).subrange(
            out_addr as int,
            out_addr + len,
        ) == copied_memory(mem, out_addr as int, in_addr as int, len as int).subrange(
            in_addr as int,
            in_addr + len,
        ),
        copied_memory(mem, out_addr as int, in_addr as int, len as int).subrange(
            in_addr as int,
            in_addr + len,
        ) == mem.subrange(in_addr as int, in_addr + len),
{
    crate::u_mode_api::lemma_ranges_overlap(out_addr, in_addr, len);
    let after = copied_memory(mem, out_addr as int, in_addr as int, len as int);
    assert(after.subrange(in_addr as int, in_addr + len) =~= mem.subrange(
        in_addr as int,
        in_addr + len,
    ));
    assert(after.subrange(out_addr as int, out_addr + len) =~= mem.subrange(
        in_addr as int,
        in_addr + len,
    ));
}

} // verus!
