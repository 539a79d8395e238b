use salus::attestation::GetSha384Certificate;
use salus::pages::{Page, PageAddr, PageOwnerId, PageSize, SequentialPages};
use salus::tee_interrupt::{Error as TeeError, TeeInterruptFunction, TvmAiaParams};
use salus::umode_api::hypcall::{BaseFunc, HypCall, HypCallError, HypCallExt, HypReturn};
use salus::umode_api::{Error, IntoRegisters, TryIntoRegisters, UmodeOp, UmodeRequest};
use salus::umode_mem::{
    is_umode_addr, is_valid_umode_range, Error as MemError, UmodeMemoryRange, UMODE_VA_END,
    UMODE_VA_SIZE, UMODE_VA_START,
};

#[test]
fn tee_interrupt_functions_round_trip() {
    let all = [
        TeeInterruptFunction::TvmAiaInit { tvm_id: 1, params_addr: 0x8000_0000, len: 32 },
        TeeInterruptFunction::TvmCpuSetImsicAddr { tvm_id: 2, vcpu_id: 3, imsic_addr: 0x2800_0000 },
        TeeInterruptFunction::TsmConvertImsic { imsic_addr: 0x2800_1000 },
        TeeInterruptFunction::TsmReclaimImsic { imsic_addr: 0x2800_2000 },
    ];
    for (n, f) in all.iter().enumerate() {
        assert_eq!(f.a6(), n as u64);
        let regs = [f.a0(), f.a1(), f.a2(), f.a3(), f.a4(), f.a5(), f.a6(), 0];
        assert_eq!(TeeInterruptFunction::from_regs(&regs), Ok(*f));
    }
    assert_eq!(all[0].a1(), 0x8000_0000);
    assert_eq!(all[1].a2(), 0x2800_0000);
    assert_eq!(all[2].a0(), 0x2800_1000);
    assert_eq!((all[2].a1(), all[2].a2(), all[3].a3(), all[3].a4(), all[3].a5()), (0, 0, 0, 0, 0));
    assert_eq!(
        TeeInterruptFunction::from_regs(&[0, 0, 0, 0, 0, 0, 4, 0]),
        Err(TeeError::NotSupported)
    );
    assert_eq!(TvmAiaParams::default().imsic_base_addr, 0);
    assert_eq!(TvmAiaParams::default().guests_per_hart, 0);
}

#[test]
fn first_protocol_requests() {
    let mut regs = [7u64; 8];
    UmodeRequest::nop().set_registers(&mut regs);
    assert_eq!(regs, [1, 0, 0, 0, 0, 7, 7, 7]);
    UmodeRequest::hello().set_registers(&mut regs);
    assert_eq!(regs, [2, 0, 0, 0, 0, 7, 7, 7]);
    assert_eq!(UmodeRequest::try_from_registers(&regs), Ok(UmodeRequest::hello()));
    assert_eq!(UmodeRequest::hello().op(), UmodeOp::Hello);
    assert_eq!(UmodeRequest::nop().op(), UmodeOp::Nop);
    assert_eq!(
        UmodeRequest::try_from_registers(&[0; 8]),
        Err(Error::RequestNotSupported)
    );
    assert_eq!(UmodeOp::try_from(1), Ok(UmodeOp::Nop));
    assert_eq!(UmodeOp::try_from(3), Err(Error::RequestNotSupported));
    assert_eq!(Error::from(2), Error::EcallNotSupported);
    assert_eq!(Error::from(9), Error::Failed);
    assert_eq!(Error::RequestNotSupported.code(), 3);
    assert_eq!(
        <Result<(), Error> as IntoRegisters>::from_registers(&[3, 0, 0, 0, 0, 0, 0, 0]),
        Err(Error::RequestNotSupported)
    );
}

#[test]
fn hypcall_extensions() {
    let mut regs = [9u64; 8];
    HypCall::Base(BaseFunc::PutChar(b'z')).to_regs(&mut regs);
    assert_eq!(regs, [1, b'z' as u64, 9, 9, 9, 9, 9, 0]);
    assert_eq!(HypCall::from_regs(&regs), Ok(HypCall::Base(BaseFunc::PutChar(b'z'))));
    HypCall::Base(BaseFunc::Panic).to_regs(&mut regs);
    assert_eq!(regs[0], 0);
    assert_eq!(HypCall::from_regs(&regs), Ok(HypCall::Base(BaseFunc::Panic)));
    regs[0] = 2;
    assert_eq!(HypCall::from_regs(&regs), Err(HypCallError::NotSupported));
    regs[7] = 1;
    assert_eq!(HypCall::from_regs(&regs), Err(HypCallError::UnknownExtension));
    assert_eq!(BaseFunc::from_regs(&[1, 0x161, 0, 0, 0, 0]), Ok(BaseFunc::PutChar(0x61)));
}

#[test]
fn hyp_return() {
    let r = HypReturn::from_regs(&[2, 77]);
    assert_eq!(r, HypReturn { error_code: 2, return_value: 77 });
    assert_eq!(r.into_result(), Err(HypCallError::NotSupported));
    let mut regs = [5u64; 4];
    r.to_regs(&mut regs);
    assert_eq!(regs, [2, 77, 5, 5]);
    assert_eq!(HypReturn::from_result(Ok(12)), HypReturn { error_code: 0, return_value: 12 });
    assert_eq!(HypReturn::from_result(Ok(12)).into_result(), Ok(12));
    assert_eq!(
        HypReturn::from(HypCallError::Failed),
        HypReturn { error_code: 1, return_value: 0 }
    );
    assert_eq!(HypReturn::from_result(Err(HypCallError::UnknownExtension)).error_code, 3);
    assert_eq!(HypReturn { error_code: 3, return_value: 0 }.into_result(), Err(HypCallError::Failed));
    assert_eq!(HypCallError::from_code(2), HypCallError::NotSupported);
    assert_eq!(HypCallError::from_code(0), HypCallError::Failed);
}

#[test]
fn umode_address_window() {
    assert_eq!(UMODE_VA_START, 0xffff_ffff_0000_0000);
    assert_eq!(UMODE_VA_SIZE, 128 * 1024 * 1024);
    assert_eq!(UMODE_VA_END, UMODE_VA_START + UMODE_VA_SIZE);
    assert!(is_umode_addr(UMODE_VA_START));
    assert!(is_umode_addr(UMODE_VA_END - 1));
    assert!(!is_umode_addr(UMODE_VA_END));
    assert!(!is_umode_addr(UMODE_VA_START - 1));
    assert!(is_valid_umode_range(UMODE_VA_START, UMODE_VA_SIZE as usize));
    assert!(!is_valid_umode_range(UMODE_VA_START, UMODE_VA_SIZE as usize + 1));
    assert!(!is_valid_umode_range(UMODE_VA_START, 0));
    assert!(!is_valid_umode_range(UMODE_VA_END - 1, 2));
    assert!(is_valid_umode_range(UMODE_VA_END - 1, 1));
    assert!(!is_valid_umode_range(u64::MAX, usize::MAX));
}

#[test]
fn umode_memory_ranges() {
    assert_eq!(UmodeMemoryRange::new(UMODE_VA_START, 0).err(), Some(MemError::InvalidLength));
    assert_eq!(UmodeMemoryRange::new(0x1000, 8).err(), Some(MemError::InvalidAddress));
    let range = UmodeMemoryRange::new(UMODE_VA_START + 0x10, 8).unwrap();
    assert_eq!((range.addr(), range.len()), (UMODE_VA_START + 0x10, 8));
    let sub = range.offset(3).unwrap();
    assert_eq!((sub.addr(), sub.len()), (UMODE_VA_START + 0x13, 5));
    assert_eq!(range.offset(8).err(), Some(MemError::InvalidOffset));
    let mut window = [0x11u8; 8];
    range.copy_to_umode(&mut window, &[1, 2, 3]);
    assert_eq!(window, [1, 2, 3, 0x11, 0x11, 0x11, 0x11, 0x11]);
    range.copy_to_umode(&mut window, &[9; 20]);
    assert_eq!(window, [9; 8]);
    range.clear(&mut window);
    assert_eq!(window, [0; 8]);
}

#[test]
fn evidence_state_layout() {
    let bytes: Vec<u8> = (0..500u32).map(|i| (i % 256) as u8).collect();
    let state = GetSha384Certificate::from_bytes(&bytes).unwrap();
    assert_eq!(state.msmt_regs[0][0], 0);
    assert_eq!(state.msmt_regs[0][47], 47);
    assert_eq!(state.msmt_regs[1][0], 48);
    assert_eq!(state.msmt_regs[7][47], (383 % 256) as u8);
    assert_eq!(state.cdi_id[0], (384 % 256) as u8);
    assert_eq!(state.cdi_id[19], (403 % 256) as u8);
    assert!(GetSha384Certificate::from_bytes(&bytes[..403]).is_none());
    assert!(GetSha384Certificate::from_bytes(&bytes[..404]).is_some());
}

#[test]
fn pages_and_sizes() {
    assert_eq!(PageSize::Size4k.bytes(), 0x1000);
    assert_eq!(PageSize::Size2M.bytes(), 0x20_0000);
    assert_eq!(PageSize::Size1G.bytes(), 0x4000_0000);
    assert_eq!(PageSize::Size512G.bytes(), 0x80_0000_0000);
    assert!(PageSize::Size2M.is_aligned(0x40_0000));
    assert!(!PageSize::Size2M.is_aligned(0x40_1000));
    assert_eq!(PageSize::Size4k.round_up(0x1234), Some(0x2000));
    assert_eq!(PageSize::Size4k.round_up(0x2000), Some(0x2000));
    assert_eq!(PageSize::Size4k.round_up(u64::MAX), None);
    assert_eq!(PageSize::Size4k.round_down(0x1fff), 0x1000);
    assert_eq!(PageSize::num_4k_pages(0), 0);
    assert_eq!(PageSize::num_4k_pages(1), 1);
    assert_eq!(PageSize::num_4k_pages(0x1000), 1);
    assert_eq!(PageSize::num_4k_pages(0x1001), 2);
    assert_eq!(PageSize::num_4k_pages(u64::MAX), 1 << 52);
    assert!(PageAddr::new(0x1001).is_none());
    let a = PageAddr::new(0x3000).unwrap();
    assert_eq!(a.index(), 3);
    assert_eq!(PageAddr::from_index(3), Some(a));
    assert_eq!(PageAddr::from_index(1 << 52), None);
    assert_eq!(PageAddr::with_round_down(0x3fff), a);
    assert_eq!(a.checked_add_pages(2).unwrap().bits(), 0x5000);
    assert_eq!(a.checked_add_pages(u64::MAX), None);
    assert_eq!(PageOwnerId::host().raw(), 0);
    assert_eq!(PageOwnerId::hypervisor().raw(), 1);
    assert!(PageOwnerId::new(0).is_none());
    assert!(PageOwnerId::new(1).is_none());
    assert_eq!(PageOwnerId::new(2).unwrap().raw(), 2);
    assert!(PageOwnerId::host().is_host());
    let run = SequentialPages::from_page_range(a, PageAddr::new(0x6000).unwrap()).unwrap();
    assert_eq!((run.base(), run.len(), run.length_bytes()), (a, 3, 0x3000));
    assert_eq!(run.get(2), Some(Page::new(PageAddr::new(0x5000).unwrap())));
    assert_eq!(run.get(3), None);
    assert_eq!(run.pages().len(), 3);
    assert!(SequentialPages::from_page_range(PageAddr::new(0x6000).unwrap(), a).is_none());
    assert!(SequentialPages::new(a, u64::MAX).is_none());
    assert_eq!(SequentialPages::from_page(Page::new(a)).len(), 1);
}
