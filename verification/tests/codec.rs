use salus::u_mode_api::{Error, HypCall, IntoRegisters, TryIntoRegisters, UmodeRequest};

fn round_trip_request(req: UmodeRequest) {
    let mut regs = [0xdead_beef_u64; 8];
    req.to_registers(&mut regs);
    assert_eq!(UmodeRequest::try_from_registers(&regs), Ok(req));
}

fn round_trip_hypcall(call: HypCall) {
    let mut regs = [0xdead_beef_u64; 8];
    call.to_registers(&mut regs);
    assert_eq!(HypCall::try_from_registers(&regs), Ok(call));
}

#[test]
fn request_round_trip() {
    round_trip_request(UmodeRequest::nop());
    round_trip_request(UmodeRequest::print_string(80));
    round_trip_request(UmodeRequest::memcopy(0x1000, 0x3000, 0x1000).unwrap());
    round_trip_request(UmodeRequest::get_evidence(0x1000, 0x200, 0x3000, 0x400));
}

#[test]
fn hypcall_round_trip() {
    round_trip_hypcall(HypCall::Panic);
    round_trip_hypcall(HypCall::PutChar(b'x'));
    round_trip_hypcall(HypCall::NextOp(Ok(42)));
    round_trip_hypcall(HypCall::NextOp(Err(Error::Failed)));
    round_trip_hypcall(HypCall::NextOp(Err(Error::InvalidArgument)));
    round_trip_hypcall(HypCall::NextOp(Err(Error::EcallNotSupported)));
    round_trip_hypcall(HypCall::NextOp(Err(Error::RequestNotSupported)));
}

#[test]
fn request_encoding_is_bit_exact() {
    let mut regs = [0u64; 8];
    UmodeRequest::nop().to_registers(&mut regs);
    assert_eq!(regs, [1, 0, 0, 0, 0, 0, 0, 0]);
    UmodeRequest::print_string(7).to_registers(&mut regs);
    assert_eq!(regs, [2, 7, 0, 0, 0, 0, 0, 0]);
    UmodeRequest::memcopy(0x10, 0x30, 0x8).unwrap().to_registers(&mut regs);
    assert_eq!(regs, [3, 0x10, 0x30, 0x8, 0, 0, 0, 0]);
    UmodeRequest::get_evidence(1, 2, 3, 4).to_registers(&mut regs);
    assert_eq!(regs, [4, 1, 2, 3, 4, 0, 0, 0]);
    assert_eq!(
        UmodeRequest::try_from_registers(&[0, 0, 0, 0, 0, 0, 0, 0]),
        Err(Error::RequestNotSupported)
    );
    assert_eq!(
        UmodeRequest::try_from_registers(&[5, 0, 0, 0, 0, 0, 0, 0]),
        Err(Error::RequestNotSupported)
    );
}

#[test]
fn hypcall_encoding_is_bit_exact() {
    let mut regs = [9u64; 8];
    HypCall::Panic.to_registers(&mut regs);
    assert_eq!(regs, [9, 9, 9, 9, 9, 9, 9, 0]);
    HypCall::PutChar(0x41).to_registers(&mut regs);
    assert_eq!(regs, [0x41, 9, 9, 9, 9, 9, 9, 1]);
    HypCall::NextOp(Ok(5)).to_registers(&mut regs);
    assert_eq!(regs, [0, 5, 9, 9, 9, 9, 9, 2]);
    HypCall::NextOp(Err(Error::RequestNotSupported)).to_registers(&mut regs);
    assert_eq!(regs, [4, 5, 9, 9, 9, 9, 9, 2]);
    assert_eq!(
        HypCall::try_from_registers(&[0, 0, 0, 0, 0, 0, 0, 3]),
        Err(Error::EcallNotSupported)
    );
    // Only the low byte of a0 is the character.
    assert_eq!(
        HypCall::try_from_registers(&[0x141, 0, 0, 0, 0, 0, 0, 1]),
        Ok(HypCall::PutChar(0x41))
    );
}

#[test]
fn error_codes() {
    assert_eq!(Error::Failed.code(), 1);
    assert_eq!(Error::InvalidArgument.code(), 2);
    assert_eq!(Error::EcallNotSupported.code(), 3);
    assert_eq!(Error::RequestNotSupported.code(), 4);
    assert_eq!(Error::from(3), Error::EcallNotSupported);
    assert_eq!(Error::from(0), Error::Failed);
    assert_eq!(Error::from(77), Error::Failed);
    assert_eq!(
        <Result<u64, Error> as IntoRegisters>::from_registers(&[77, 1, 0, 0, 0, 0, 0, 0]),
        Err(Error::Failed)
    );
}

#[test]
fn memcopy_overlap_rejection() {
    assert_eq!(UmodeRequest::memcopy(0x1000, 0x1800, 0x1000), None);
    assert_eq!(UmodeRequest::memcopy(0x1800, 0x1000, 0x1000), None);
    assert_eq!(UmodeRequest::memcopy(0x1000, 0x1000, 1), None);
    assert_eq!(
        UmodeRequest::memcopy(0x1000, 0x3000, 0x1000),
        Some(UmodeRequest::MemCopy { out_addr: 0x1000, in_addr: 0x3000, len: 0x1000 })
    );
    // Ranges that touch do not overlap.
    assert!(UmodeRequest::memcopy(0x1000, 0x2000, 0x1000).is_some());
    // Empty ranges never overlap.
    assert!(UmodeRequest::memcopy(0, 0, 0).is_some());
    // Ranges that reach the end of the address space are compared without wrapping.
    assert_eq!(UmodeRequest::memcopy(u64::MAX - 1, u64::MAX, 8), None);
    assert!(UmodeRequest::memcopy(0, u64::MAX, 8).is_some());
}
