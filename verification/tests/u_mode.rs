use salus::libuser::{
    hyp_nextop, hyp_nextop_request, hyp_panic, hyp_putchar, hyp_putchar_result, task_main_result,
};
use salus::u_mode::cert::{check_csr_len, copy_certificate, Error as CertError};
use salus::u_mode::{TaskAction, UmodeTask};
use salus::u_mode_api::{Error, UmodeRequest};
use salus::umode_api::Error as OldError;
use salus::umode_api::UmodeOp;

#[test]
fn memcopy_copies_the_input_to_the_output() {
    // The memory of the task, with the input at 0x3000 and the output at 0x1000.
    let mut mem: Vec<u8> = (0..0x4000u32).map(|i| (i % 251) as u8).collect();
    let req = UmodeRequest::memcopy(0x1000, 0x3000, 0x1000).unwrap();
    let action = UmodeTask::action(Ok(req));
    assert_eq!(action, TaskAction::MemCopy { out_addr: 0x1000, in_addr: 0x3000, len: 0x1000 });
    let (low, high) = mem.split_at_mut(0x3000);
    assert_eq!(
        UmodeTask::op_memcopy(&mut low[0x1000..0x2000], &high[..0x1000], 0x1000),
        Ok(0x1000)
    );
    assert_eq!(mem[0x1000..0x2000], mem[0x3000..0x4000]);
    assert_eq!(mem[0x1000], (0x3000 % 251) as u8);
    assert_eq!(mem[0x2000], (0x2000 % 251) as u8);
    assert_eq!(mem[0xfff], (0xfff % 251) as u8);
}

#[test]
fn memcopy_checks_the_lengths() {
    let mut out = [0u8; 4];
    assert_eq!(UmodeTask::op_memcopy(&mut out, &[1, 2, 3], 4), Err(Error::InvalidArgument));
    assert_eq!(UmodeTask::op_memcopy(&mut out, &[1, 2, 3, 4, 5], 5), Err(Error::InvalidArgument));
    assert_eq!(out, [0; 4]);
    assert_eq!(UmodeTask::op_memcopy(&mut out, &[1, 2, 3], 2), Ok(2));
    assert_eq!(out, [1, 2, 0, 0]);
}

#[test]
fn print_string_cuts_and_checks_the_string() {
    let mut shared = vec![b'a'; 200];
    assert_eq!(UmodeTask::op_print_string(&shared, 5), Ok(&b"aaaaa"[..]));
    assert_eq!(UmodeTask::op_print_string(&shared, 0), Ok(&b""[..]));
    assert_eq!(UmodeTask::op_print_string(&shared, 200).unwrap().len(), 80);
    assert_eq!(UmodeTask::op_print_string(&shared, 201), Err(Error::InvalidArgument));
    shared[3] = 0xff;
    assert_eq!(UmodeTask::op_print_string(&shared, 5), Err(Error::InvalidArgument));
    assert_eq!(UmodeTask::op_print_string(&shared, 3), Ok(&b"aaa"[..]));
    // A character that is cut in two at the limit of 80 bytes is refused.
    let mut shared = vec![b'a'; 100];
    shared[79] = 0xc3;
    shared[80] = 0xa9;
    assert_eq!(UmodeTask::op_print_string(&shared, 100), Err(Error::InvalidArgument));
    shared[78] = 0xc3;
    shared[79] = 0xa9;
    shared[80] = b'a';
    assert_eq!(UmodeTask::op_print_string(&shared, 100).unwrap().len(), 80);
}

#[test]
fn requests_become_actions() {
    assert_eq!(UmodeTask::first_result(), Ok(0));
    assert_eq!(UmodeTask::action(Ok(UmodeRequest::nop())), TaskAction::Done(Ok(0)));
    assert_eq!(
        UmodeTask::action(Err(Error::RequestNotSupported)),
        TaskAction::Done(Err(Error::RequestNotSupported))
    );
    assert_eq!(
        UmodeTask::action(Ok(UmodeRequest::print_string(9))),
        TaskAction::PrintString { len: 9 }
    );
    assert_eq!(
        UmodeTask::action(Ok(UmodeRequest::get_evidence(1, 2, 3, 4))),
        TaskAction::GetEvidence { csr_addr: 1, csr_len: 2, certout_addr: 3, certout_len: 4 }
    );
    let task = UmodeTask::new(1, 0x1000, 0x2000);
    assert_eq!((task.cpu_id, task.shared_addr, task.shared_size), (1, 0x1000, 0x2000));
}

#[test]
fn certificate_checks() {
    assert_eq!(check_csr_len(100, 100), Ok(()));
    assert_eq!(check_csr_len(101, 100), Err(CertError::CsrBufferTooSmall(101, 100)));
    let mut out = [0xeeu8; 6];
    assert_eq!(copy_certificate(&[1, 2, 3, 4], &mut out), Ok(4));
    assert_eq!(out, [1, 2, 3, 4, 0xee, 0xee]);
    assert_eq!(
        copy_certificate(&[1, 2, 3, 4, 5, 6, 7], &mut out),
        Err(CertError::CertificateBufferTooSmall(6, 7))
    );
    assert_eq!(out, [1, 2, 3, 4, 0xee, 0xee]);
    assert_eq!(
        UmodeTask::evidence_error(CertError::CsrBufferTooSmall(1, 2)),
        Error::InvalidArgument
    );
    assert_eq!(UmodeTask::evidence_error(CertError::CsrParseFailed), Error::InvalidArgument);
    assert_eq!(UmodeTask::evidence_error(CertError::CsrVerificationFailed), Error::InvalidArgument);
    assert_eq!(
        UmodeTask::evidence_error(CertError::CertificateBufferTooSmall(1, 2)),
        Error::InvalidArgument
    );
    assert_eq!(UmodeTask::evidence_error(CertError::FwidAddFailed), Error::Failed);
    assert_eq!(UmodeTask::evidence_error(CertError::CertificateCreationFailed), Error::Failed);
}

#[test]
fn calls_of_the_first_task_program() {
    assert_eq!(hyp_putchar('A'), [0x41, 0, 0, 0, 0, 0, 0, 1]);
    // Only the low byte of a character is sent.
    assert_eq!(hyp_putchar('\u{141}'), [0x41, 0, 0, 0, 0, 0, 0, 1]);
    assert_eq!(hyp_panic(), [0; 8]);
    assert_eq!(hyp_nextop(Ok(())), [0, 0, 0, 0, 0, 0, 0, 2]);
    assert_eq!(hyp_nextop(Err(OldError::RequestNotSupported)), [3, 0, 0, 0, 0, 0, 0, 2]);
    assert_eq!(hyp_putchar_result(&[0; 8]), Ok(()));
    assert_eq!(hyp_putchar_result(&[2, 0, 0, 0, 0, 0, 0, 0]), Err(OldError::EcallNotSupported));
    let req = hyp_nextop_request(&[2, 0, 0, 0, 0, 0, 0, 0]).unwrap();
    assert_eq!(req.op(), UmodeOp::Hello);
    assert_eq!(task_main_result(&Ok(req)), Ok(()));
    let bad = hyp_nextop_request(&[7, 0, 0, 0, 0, 0, 0, 0]);
    assert_eq!(bad, Err(OldError::RequestNotSupported));
    assert_eq!(task_main_result(&bad), Err(OldError::RequestNotSupported));
}
