use salus::riscv_elf::{
    slice_check_offset, slice_check_range, slice_get_range, ElfHeader64, ElfMap, ElfOffset64,
    ElfProgramHeader64, ElfSegment, ElfSegmentPerms, Error,
};

#[test]
fn offset_test() {
    let bytes1 = [0u8; 5];
    let bytes2 = [0u8; 6];
    let off1 = ElfOffset64 { inner: 3 };
    let off2 = ElfOffset64 { inner: 5 };
    let off3 = ElfOffset64 { inner: 6 };

    let r = slice_check_offset(&bytes1, off1);
    assert_eq!(r, true);
    let r = slice_check_offset(&bytes1, off2);
    assert_eq!(r, false);
    let r = slice_check_offset(&bytes1, off3);
    assert_eq!(r, false);

    let r = slice_check_offset(&bytes2, off1);
    assert_eq!(r, true);
    let r = slice_check_offset(&bytes2, off2);
    assert_eq!(r, true);
    let r = slice_check_offset(&bytes2, off3);
    assert_eq!(r, false);

    let r = slice_check_range(&bytes1, 0.into(), 0);
    assert_eq!(r, false);
    let r = slice_get_range(&bytes1, 0.into(), 0);
    assert!(r.is_none());

    let r = slice_check_range(&bytes1, 0.into(), 5);
    assert_eq!(r, true);
    let r = slice_get_range(&bytes1, 0.into(), 5);
    assert!(r.is_some());
    assert_eq!(r.unwrap().len(), 5);

    let r = slice_check_range(&bytes1, 0.into(), 6);
    assert_eq!(r, false);
    let r = slice_get_range(&bytes1, 0.into(), 6);
    assert!(r.is_none());

    let r = slice_check_range(&bytes1, 4.into(), 1);
    assert_eq!(r, true);
    let r = slice_get_range(&bytes1, 4.into(), 1);
    assert!(r.is_some());
    assert_eq!(r.unwrap().len(), 1);

    let r = slice_check_range(&bytes1, 5.into(), 1);
    assert_eq!(r, false);
    let r = slice_get_range(&bytes1, 5.into(), 1);
    assert!(r.is_none());
}

#[test]
fn offsets_do_not_wrap() {
    let bytes = [1u8, 2, 3, 4];
    assert!(!slice_check_range(&bytes, ElfOffset64 { inner: u64::MAX }, 2));
    assert_eq!(ElfOffset64 { inner: u64::MAX }.usize_add(1), None);
    assert_eq!(ElfOffset64 { inner: 7 }.usize_add(1), Some(ElfOffset64 { inner: 8 }));
    assert_eq!(ElfOffset64 { inner: 7 }.as_usize(), Some(7));
    assert_eq!(slice_get_range(&bytes, 1.into(), 2), Some(&bytes[1..3]));
}

struct Ph {
    p_type: u32,
    flags: u32,
    offset: u64,
    vaddr: u64,
    filesz: u64,
    memsz: u64,
}

fn load(flags: u32, offset: u64, vaddr: u64, filesz: u64, memsz: u64) -> Ph {
    Ph { p_type: 1, flags, offset, vaddr, filesz, memsz }
}

fn build_elf(entry: u64, phentsize: u16, phs: &[Ph], file_len: usize) -> Vec<u8> {
    let mut b = vec![0u8; file_len];
    b[0..4].copy_from_slice(&[0x7f, b'E', b'L', b'F']);
    b[4] = 2;
    b[5] = 1;
    b[6] = 1;
    b[16..18].copy_from_slice(&2u16.to_le_bytes());
    b[18..20].copy_from_slice(&0xf3u16.to_le_bytes());
    b[20..24].copy_from_slice(&1u32.to_le_bytes());
    b[24..32].copy_from_slice(&entry.to_le_bytes());
    b[32..40].copy_from_slice(&64u64.to_le_bytes());
    b[52..54].copy_from_slice(&64u16.to_le_bytes());
    b[54..56].copy_from_slice(&phentsize.to_le_bytes());
    b[56..58].copy_from_slice(&(phs.len() as u16).to_le_bytes());
    for (i, ph) in phs.iter().enumerate() {
        let o = 64 + i * phentsize as usize;
        b[o..o + 4].copy_from_slice(&ph.p_type.to_le_bytes());
        b[o + 4..o + 8].copy_from_slice(&ph.flags.to_le_bytes());
        b[o + 8..o + 16].copy_from_slice(&ph.offset.to_le_bytes());
        b[o + 16..o + 24].copy_from_slice(&ph.vaddr.to_le_bytes());
        b[o + 24..o + 32].copy_from_slice(&ph.vaddr.to_le_bytes());
        b[o + 32..o + 40].copy_from_slice(&ph.filesz.to_le_bytes());
        b[o + 40..o + 48].copy_from_slice(&ph.memsz.to_le_bytes());
        b[o + 48..o + 56].copy_from_slice(&0x1000u64.to_le_bytes());
    }
    b
}

#[test]
fn parses_loadable_segments() {
    let mut bytes = build_elf(
        0xffff_ffff_0000_0040,
        56,
        &[
            load(5, 0x200, 0xffff_ffff_0000_0000, 0x20, 0x1000),
            Ph { p_type: 6, flags: 4, offset: 0, vaddr: 0, filesz: 0, memsz: 0 },
            load(6, 0, 0xffff_ffff_0001_0000, 0, 0x2000),
            load(4, 0x220, 0xffff_ffff_0002_0000, 0x10, 0x10),
        ],
        0x400,
    );
    for i in 0..0x30 {
        bytes[0x200 + i] = i as u8;
    }
    let elf = ElfMap::new(&bytes).unwrap();
    assert_eq!(elf.entry(), 0xffff_ffff_0000_0040);
    assert_eq!(elf.bytes(), &bytes[..]);
    assert_eq!(elf.num_segments(), 3);
    let segs = elf.segments();
    assert_eq!(segs.len(), 3);
    assert_eq!(segs[0].vaddr(), 0xffff_ffff_0000_0000);
    assert_eq!(segs[0].size(), 0x1000);
    assert_eq!(*segs[0].perms(), ElfSegmentPerms::RX);
    assert_eq!(segs[0].data(), Some(&bytes[0x200..0x220]));
    assert_eq!(*segs[1].perms(), ElfSegmentPerms::RW);
    assert_eq!(segs[1].data(), None);
    assert_eq!(segs[1].size(), 0x2000);
    assert_eq!(*segs[2].perms(), ElfSegmentPerms::R);
    assert_eq!(segs[2].data().unwrap()[0], 0x20);
    assert_eq!(elf.segment(2).unwrap().vaddr(), 0xffff_ffff_0002_0000);
    assert!(elf.segment(3).is_none());
}

#[test]
fn only_the_first_eight_headers_count() {
    let phs: Vec<Ph> = (0..10u64)
        .map(|i| load(4, 0, 0x1000 * i, 0, 0x1000))
        .collect();
    let bytes = build_elf(0, 56, &phs, 0x400);
    let elf = ElfMap::new(&bytes).unwrap();
    assert_eq!(elf.num_segments(), 8);
    assert_eq!(elf.segment(7).unwrap().vaddr(), 0x7000);
}

#[test]
fn larger_program_headers_are_accepted() {
    let bytes = build_elf(0, 64, &[load(4, 0, 0, 0, 1), load(6, 0, 0x1000, 0, 1)], 0x400);
    let elf = ElfMap::new(&bytes).unwrap();
    assert_eq!(elf.num_segments(), 2);
    assert_eq!(elf.segment(1).unwrap().vaddr(), 0x1000);
}

fn err_of(bytes: &[u8]) -> Error {
    ElfMap::new(bytes).err().unwrap()
}

#[test]
fn header_errors() {
    let good = build_elf(0, 56, &[load(4, 0, 0, 0, 1)], 0x200);
    assert!(ElfMap::new(&good).is_ok());
    assert_eq!(err_of(&good[..63]), Error::BadOffset);
    let mut b = good.clone();
    b[1] = b'F';
    assert_eq!(err_of(&b), Error::InvalidMagicNumber);
    let mut b = good.clone();
    b[4] = 1;
    assert_eq!(err_of(&b), Error::InvalidClass);
    let mut b = good.clone();
    b[5] = 2;
    assert_eq!(err_of(&b), Error::InvalidEndianness);
    let mut b = good.clone();
    b[6] = 0;
    assert_eq!(err_of(&b), Error::BadElfVersion);
    let mut b = good.clone();
    b[20] = 2;
    assert_eq!(err_of(&b), Error::BadElfVersion);
    let mut b = good.clone();
    b[18] = 0x3e;
    assert_eq!(err_of(&b), Error::NotRiscV);
    let mut b = good.clone();
    b[54] = 55;
    assert_eq!(err_of(&b), Error::BadEntrySize);
    // The program header table must lie inside the file and hold an entry.
    let mut b = good.clone();
    b[56] = 0;
    assert_eq!(err_of(&b), Error::BadOffset);
    let mut b = good.clone();
    b[32..40].copy_from_slice(&0x1f0u64.to_le_bytes());
    assert_eq!(err_of(&b), Error::BadOffset);
}

#[test]
fn segment_errors() {
    let b = build_elf(0, 56, &[load(7, 0, 0, 0, 1)], 0x200);
    assert_eq!(err_of(&b), Error::UnsupportedSegmentFlags(7));
    let b = build_elf(0, 56, &[load(2, 0, 0, 0, 1)], 0x200);
    assert_eq!(err_of(&b), Error::UnsupportedSegmentFlags(2));
    let b = build_elf(0, 56, &[load(4, 0x1ff, 0, 2, 2)], 0x200);
    assert_eq!(err_of(&b), Error::BadOffset);
    let b = build_elf(0, 56, &[load(4, 0, u64::MAX, 0, 1)], 0x200);
    assert_eq!(err_of(&b), Error::ProgramHeaderMalformed);
    // The error of the first bad header is reported.
    let b = build_elf(0, 56, &[load(4, 0x1ff, 0, 2, 2), load(7, 0, 0, 0, 1)], 0x200);
    assert_eq!(err_of(&b), Error::BadOffset);
    assert_eq!(
        ElfSegment::new(None, 0, 1, 3).err(),
        Some(Error::UnsupportedSegmentFlags(3))
    );
    assert_eq!(
        ElfSegment::new(None, u64::MAX, 1, 4).err(),
        Some(Error::ProgramHeaderMalformed)
    );
}

#[test]
fn headers_are_read_little_endian() {
    let bytes = build_elf(0x1122_3344_5566_7788, 56, &[load(5, 0x99, 0xabcd, 3, 4)], 0x200);
    let h = ElfHeader64::from_bytes(&bytes).unwrap();
    assert_eq!(h.e_entry, 0x1122_3344_5566_7788);
    assert_eq!(h.e_machine, 0xf3);
    assert_eq!(h.e_phoff, ElfOffset64 { inner: 64 });
    assert_eq!(h.e_phentsize, 56);
    assert_eq!(h.e_phnum, 1);
    assert_eq!(h.ei_magic, (0x7f, b'E', b'L', b'F'));
    assert_eq!(h.check(), None);
    let ph = ElfProgramHeader64::from_bytes(&bytes[64..]).unwrap();
    assert_eq!(ph.p_type, 1);
    assert_eq!(ph.p_flags, 5);
    assert_eq!(ph.p_offset, ElfOffset64 { inner: 0x99 });
    assert_eq!(ph.p_vaddr, 0xabcd);
    assert_eq!(ph.p_filesz, 3);
    assert_eq!(ph.p_memsz, 4);
    assert_eq!(ph.p_align, 0x1000);
    assert!(ElfProgramHeader64::from_bytes(&bytes[..55]).is_none());
}
