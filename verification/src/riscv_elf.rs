//! A loader for the ELF image of the user-mode task.
//!
//! Only what the hypervisor needs is read: the file header, to check that the
//! image is a 64-bit little-endian RISC-V executable, and the first program
//! headers, to find the loadable segments.

use arrayvec::ArrayVec;
use vstd::prelude::*;

verus! {

/// The most program headers that the loader looks at.
pub const ELF_SEGMENTS_MAX: usize = 8;

/// Size in bytes of the ELF64 file header.
pub const ELF_HEADER_SIZE: usize = 64;

/// Size in bytes of an ELF64 program header.
pub const ELF_PROGRAM_HEADER_SIZE: usize = 56;

/// The array element is unused.
pub const PT_NULL: u32 = 0;

/// The array element specifies a loadable segment.
pub const PT_LOAD: u32 = 1;

/// Segment permission: execute.
pub const PF_X: u32 = 0x1;

/// Segment permission: write.
pub const PF_W: u32 = 0x2;

/// Segment permission: read.
pub const PF_R: u32 = 0x4;

/// The four bytes that start every ELF file.
pub const EI_MAGIC: [u8; 4] = [0x7f, 0x45, 0x4c, 0x46];

/// `ei_class` of a 64-bit image.
pub const EI_CLASS_64: u8 = 2;

/// `ei_data` of a little-endian image.
pub const EI_DATA_LE: u8 = 1;

/// The only ELF identification version.
pub const EI_VERSION_1: u8 = 1;

/// `e_machine` of a RISC-V image.
pub const E_MACHINE_RISCV: u16 = 0xf3;

/// The only ELF file version.
pub const E_VERSION_1: u32 = 1;

/// The 16-bit little-endian number at `off`.
pub open spec fn le16(bytes: Seq<u8>, off: int) -> int {
    bytes[off] + bytes[off + 1] * 0x100
}

/// The 32-bit little-endian number at `off`.
pub open spec fn le32(bytes: Seq<u8>, off: int) -> int {
    le16(bytes, off) + le16(bytes, off + 2) * 0x1_0000
}

/// The 64-bit little-endian number at `off`.
pub open spec fn le64(bytes: Seq<u8>, off: int) -> int {
    le32(bytes, off) + le32(bytes, off + 4) * 0x1_0000_0000
}

fn read_u16(bytes: &[u8], off: usize) -> (r: u16)
    requires
        off + 2 <= bytes@.len(),
    ensures
        r == le16(bytes@, off as int),
{
    let n: usize = bytes.len();
    let b0: u16 = bytes[off] as u16;
    let b1: u16 = bytes[off + 1] as u16;
    b0 + b1 * 0x100
}

fn read_u32(bytes: &[u8], off: usize) -> (r: u32)
    requires
        off + 4 <= bytes@.len(),
    ensures
        r == le32(bytes@, off as int),
{
    let n: usize = bytes.len();
    let lo: u32 = read_u16(bytes, off) as u32;
    let hi: u32 = read_u16(bytes, off + 2) as u32;
    lo + hi * 0x1_0000
}

fn read_u64(bytes: &[u8], off: usize) -> (r: u64)
    requires
        off + 8 <= bytes@.len(),
    ensures
        r == le64(bytes@, off as int),
{
    let n: usize = bytes.len();
    let lo: u64 = read_u32(bytes, off) as u64;
    let hi: u64 = read_u32(bytes, off + 4) as u64;
    lo + hi * 0x1_0000_0000
}

/// An offset into the ELF file. A type of its own, so that it is never used
/// as an index directly but only through the `slice_*` functions.
#[derive(Clone, Copy, Debug, PartialEq, Eq, Structural)]
pub struct ElfOffset64 {
    /// The offset in bytes.
    pub inner: u64,
}

impl ElfOffset64 {
    /// The offset as an index, if it fits.
    pub fn as_usize(&self) -> (r: Option<usize>)
        ensures
            r is Some <==> self.inner <= usize::MAX,
            r matches Some(v) ==> v == self.inner,
    {
        if self.inner <= usize::MAX as u64 {
            Some(self.inner as usize)
        } else {
            None
        }
    }

    /// The offset `other` bytes further, if it fits in 64 bits.
    pub fn usize_add(self, other: usize) -> (r: Option<ElfOffset64>)
        ensures
            r is Some <==> self.inner + other <= u64::MAX,
            r matches Some(o) ==> o.inner == self.inner + other,
    {
        let other64: u64 = other as u64;
        if other64 > u64::MAX - self.inner {
            None
        } else {
            Some(ElfOffset64 { inner: self.inner + other64 })
        }
    }
}

impl From<usize> for ElfOffset64 {
    fn from(val: usize) -> (r: ElfOffset64) {
        ElfOffset64 { inner: val as u64 }
    }
}

impl vstd::std_specs::convert::FromSpecImpl<usize> for ElfOffset64 {
    open spec fn obeys_from_spec() -> bool {
        true
    }

    open spec fn from_spec(val: usize) -> ElfOffset64 {
        ElfOffset64 { inner: val as u64 }
    }
}

/// True if `len` bytes hold the bytes `[offset, offset + size)` and `size`
/// is not zero.
pub open spec fn range_ok(len: nat, offset: u64, size: int) -> bool {
    size >= 1 && offset + size <= len
}

/// True if `offset` is the position of a byte of `bytes`.
pub fn slice_check_offset(bytes: &[u8], offset: ElfOffset64) -> (r: bool)
    ensures
        r == (offset.inner < bytes@.len()),
{
    let n: usize = bytes.len();
    match offset.as_usize() {
        Some(offset) => n > offset,
        // If offset doesn't fit in a usize, it's definitely out of bound.
        None => false,
    }
}

/// True if `bytes` holds `size` bytes from `offset` on, and `size` is not
/// zero.
pub fn slice_check_range(bytes: &[u8], offset: ElfOffset64, size: usize) -> (r: bool)
    ensures
        r == range_ok(bytes@.len(), offset.inner, size as int),
{
    let n: usize = bytes.len();
    if size < 1 {
        return false;
    }
    match offset.usize_add(size - 1) {
        Some(last) => slice_check_offset(bytes, last),
        None => false,
    }
}

/// The `len` bytes of `bytes` from `offset` on, if `bytes` holds them and
/// `len` is not zero.
pub fn slice_get_range<'a>(bytes: &'a [u8], offset: ElfOffset64, len: usize) -> (r: Option<
    &'a [u8],
>)
    ensures
        r is Some <==> range_ok(bytes@.len(), offset.inner, len as int),
        r matches Some(s) ==> s@ == bytes@.subrange(
            offset.inner as int,
            offset.inner as int + len as int,
        ),
{
    let n: usize = bytes.len();
    if slice_check_range(bytes, offset, len) {
        let start: usize = offset.inner as usize;
        Some(vstd::slice::slice_subrange(bytes, start, start + len))
    } else {
        None
    }
}

/// ELF64 program header table entry.
#[derive(Clone, Copy, Debug, PartialEq, Eq, Structural)]
pub struct ElfProgramHeader64 {
    /// Kind of segment.
    pub p_type: u32,
    /// Permission flags.
    pub p_flags: u32,
    /// Where the contents of the segment start in the file.
    pub p_offset: ElfOffset64,
    /// Virtual address of the segment.
    pub p_vaddr: u64,
    /// Physical address of the segment.
    pub p_paddr: u64,
    /// Number of bytes that the segment has in the file.
    pub p_filesz: u64,
    /// Number of bytes that the segment has in memory.
    pub p_memsz: u64,
    /// Alignment of the segment.
    pub p_align: u64,
}

impl ElfProgramHeader64 {
    /// The program header that the 56 bytes at `off` encode.
    pub open spec fn decoded(bytes: Seq<u8>, off: int) -> ElfProgramHeader64 {
        ElfProgramHeader64 {
            p_type: le32(bytes, off) as u32,
            p_flags: le32(bytes, off + 4) as u32,
            p_offset: ElfOffset64 { inner: le64(bytes, off + 8) as u64 },
            p_vaddr: le64(bytes, off + 16) as u64,
            p_paddr: le64(bytes, off + 24) as u64,
            p_filesz: le64(bytes, off + 32) as u64,
            p_memsz: le64(bytes, off + 40) as u64,
            p_align: le64(bytes, off + 48) as u64,
        }
    }

    /// Reads the program header at the start of `bytes`.
    pub fn from_bytes(bytes: &[u8]) -> (r: Option<ElfProgramHeader64>)
        ensures
            r is Some <==> bytes@.len() >= ELF_PROGRAM_HEADER_SIZE,
            r matches Some(h) ==> h == Self::decoded(bytes@, 0),
    {
        if bytes.len() < ELF_PROGRAM_HEADER_SIZE {
            return None;
        }
        Some(
            ElfProgramHeader64 {
                p_type: read_u32(bytes, 0),
                p_flags: read_u32(bytes, 4),
                p_offset: ElfOffset64 { inner: read_u64(bytes, 8) },
                p_vaddr: read_u64(bytes, 16),
                p_paddr: read_u64(bytes, 24),
                p_filesz: read_u64(bytes, 32),
                p_memsz: read_u64(bytes, 40),
                p_align: read_u64(bytes, 48),
            },
        )
    }
}

/// ELF64 file header.
#[derive(Clone, Copy, Debug, PartialEq, Eq)]
pub struct ElfHeader64 {
    /// The magic number.
    pub ei_magic: (u8, u8, u8, u8),
    /// 32-bit or 64-bit image.
    pub ei_class: u8,
    /// Byte order.
    pub ei_data: u8,
    /// Identification version.
    pub ei_version: u8,
    /// Operating system ABI.
    pub ei_osabi: u8,
    /// Version of the ABI.
    pub ei_abiversion: u8,
    /// Kind of object file.
    pub e_type: u16,
    /// Instruction set.
    pub e_machine: u16,
    /// File version.
    pub e_version: u32,
    /// Address of the entry point.
    pub e_entry: u64,
    /// Where the program headers start in the file.
    pub e_phoff: ElfOffset64,
    /// Where the section headers start in the file.
    pub e_shoff: ElfOffset64,
    /// Processor-specific flags.
    pub e_flags: u32,
    /// Size of this header.
    pub e_ehsize: u16,
    /// Size of one program header.
    pub e_phentsize: u16,
    /// Number of program headers.
    pub e_phnum: u16,
    /// Size of one section header.
    pub e_shentsize: u16,
    /// Number of section headers.
    pub e_shnum: u16,
    /// Index of the section that holds the section names.
    pub e_shstrndx: u16,
}

impl ElfHeader64 {
    /// The file header that the first 64 bytes of `bytes` encode.
    pub open spec fn decoded(bytes: Seq<u8>) -> ElfHeader64 {
        ElfHeader64 {
            ei_magic: (bytes[0], bytes[1], bytes[2], bytes[3]),
            ei_class: bytes[4],
            ei_data: bytes[5],
            ei_version: bytes[6],
            ei_osabi: bytes[7],
            ei_abiversion: bytes[8],
            e_type: le16(bytes, 16) as u16,
            e_machine: le16(bytes, 18) as u16,
            e_version: le32(bytes, 20) as u32,
            e_entry: le64(bytes, 24) as u64,
            e_phoff: ElfOffset64 { inner: le64(bytes, 32) as u64 },
            e_shoff: ElfOffset64 { inner: le64(bytes, 40) as u64 },
            e_flags: le32(bytes, 48) as u32,
            e_ehsize: le16(bytes, 52) as u16,
            e_phentsize: le16(bytes, 54) as u16,
            e_phnum: le16(bytes, 56) as u16,
            e_shentsize: le16(bytes, 58) as u16,
            e_shnum: le16(bytes, 60) as u16,
            e_shstrndx: le16(bytes, 62) as u16,
        }
    }

    /// Reads the file header at the start of `bytes`.
    pub fn from_bytes(bytes: &[u8]) -> (r: Option<ElfHeader64>)
        ensures
            r is Some <==> bytes@.len() >= ELF_HEADER_SIZE,
            r matches Some(h) ==> h == Self::decoded(bytes@),
    {
        if bytes.len() < ELF_HEADER_SIZE {
            return None;
        }
        Some(
            ElfHeader64 {
                ei_magic: (bytes[0], bytes[1], bytes[2], bytes[3]),
                ei_class: bytes[4],
                ei_data: bytes[5],
                ei_version: bytes[6],
                ei_osabi: bytes[7],
                ei_abiversion: bytes[8],
                e_type: read_u16(bytes, 16),
                e_machine: read_u16(bytes, 18),
                e_version: read_u32(bytes, 20),
                e_entry: read_u64(bytes, 24),
                e_phoff: ElfOffset64 { inner: read_u64(bytes, 32) },
                e_shoff: ElfOffset64 { inner: read_u64(bytes, 40) },
                e_flags: read_u32(bytes, 48),
                e_ehsize: read_u16(bytes, 52),
                e_phentsize: read_u16(bytes, 54),
                e_phnum: read_u16(bytes, 56),
                e_shentsize: read_u16(bytes, 58),
                e_shnum: read_u16(bytes, 60),
                e_shstrndx: read_u16(bytes, 62),
            },
        )
    }

    /// The reason for which the image is refused by its file header, if
    /// there is one: the first test that fails, in the order magic number,
    /// class, byte order, versions, machine, size of the program headers.
    pub open spec fn spec_check(&self) -> Option<Error> {
        if self.ei_magic != (0x7fu8, 0x45u8, 0x4cu8, 0x46u8) {
            Some(Error::InvalidMagicNumber)
        } else if self.ei_class != EI_CLASS_64 {
            Some(Error::InvalidClass)
        } else if self.ei_data != EI_DATA_LE {
            Some(Error::InvalidEndianness)
        } else if self.ei_version != EI_VERSION_1 || self.e_version != E_VERSION_1 {
            Some(Error::BadElfVersion)
        } else if self.e_machine != E_MACHINE_RISCV {
            Some(Error::NotRiscV)
        } else if self.e_phentsize < ELF_PROGRAM_HEADER_SIZE {
            Some(Error::BadEntrySize)
        } else {
            None
        }
    }

    /// Checks that the header describes a 64-bit little-endian RISC-V image
    /// of version 1 whose program headers are large enough.
    #[verifier::when_used_as_spec(spec_check)]
    pub fn check(&self) -> (r: Option<Error>)
        ensures
            r == self.spec_check(),
    {
        if self.ei_magic.0 != EI_MAGIC[0] || self.ei_magic.1 != EI_MAGIC[1] || self.ei_magic.2
            != EI_MAGIC[2] || self.ei_magic.3 != EI_MAGIC[3] {
            Some(Error::InvalidMagicNumber)
        } else if self.ei_class != EI_CLASS_64 {
            Some(Error::InvalidClass)
        } else if self.ei_data != EI_DATA_LE {
            Some(Error::InvalidEndianness)
        } else if self.ei_version != EI_VERSION_1 || self.e_version != E_VERSION_1 {
            Some(Error::BadElfVersion)
        } else if self.e_machine != E_MACHINE_RISCV {
            Some(Error::NotRiscV)
        } else if (self.e_phentsize as usize) < ELF_PROGRAM_HEADER_SIZE {
            Some(Error::BadEntrySize)
        } else {
            None
        }
    }
}

/// ELF loader errors.
#[derive(Clone, Copy, Debug, PartialEq, Eq, Structural)]
pub enum Error {
    /// Requested to read after the end of the file.
    BadOffset,
    /// The ELF magic number is wrong.
    InvalidMagicNumber,
    /// Unexpected ELF class.
    InvalidClass,
    /// Unsupported endianness.
    InvalidEndianness,
    /// ELF is not RISC-V.
    NotRiscV,
    /// Unexpected ELF version.
    BadElfVersion,
    /// Unexpected size of the program header entries.
    BadEntrySize,
    /// Malformed program header.
    ProgramHeaderMalformed,
    /// Segment permissions unsupported.
    UnsupportedSegmentFlags(u32),
}

/// What the task may do with the memory of a segment.
#[derive(Clone, Copy, Debug, PartialEq, Eq, Structural)]
pub enum ElfSegmentPerms {
    /// Read only.
    R,
    /// Read and write.
    RW,
    /// Read and execute.
    RX,
}

/// The permissions that the flags of a program header stand for.
pub open spec fn perms_of_flags(flags: u32) -> Option<ElfSegmentPerms> {
    if flags == 0x4 {
        Some(ElfSegmentPerms::R)
    } else if flags == 0x6 {
        Some(ElfSegmentPerms::RW)
    } else if flags == 0x5 {
        Some(ElfSegmentPerms::RX)
    } else {
        None
    }
}

/// What a segment is, apart from where its bytes are stored.
pub struct SegmentModel {
    /// The bytes that the file holds for the segment, if it holds any.
    pub data: Option<Seq<u8>>,
    /// The virtual address at which the segment starts.
    pub vaddr: u64,
    /// The number of bytes that the segment takes up in memory.
    pub size: usize,
    /// What the task may do with the memory of the segment.
    pub perms: ElfSegmentPerms,
}

/// A loadable segment of the image.
#[derive(Clone, Copy, Debug)]
pub struct ElfSegment<'elf> {
    data: Option<&'elf [u8]>,
    vaddr: u64,
    size: usize,
    perms: ElfSegmentPerms,
}

impl<'elf> ElfSegment<'elf> {
    /// What the segment is.
    pub closed spec fn view(&self) -> SegmentModel {
        SegmentModel {
            data: match self.data {
                Some(d) => Some(d@),
                None => None,
            },
            vaddr: self.vaddr,
            size: self.size,
            perms: self.perms,
        }
    }

    /// What `new` answers.
    pub open spec fn spec_new(data: Option<Seq<u8>>, vaddr: u64, size: usize, flags: u32) -> Result<
        SegmentModel,
        Error,
    > {
        match perms_of_flags(flags) {
            None => Err(Error::UnsupportedSegmentFlags(flags)),
            Some(perms) => if vaddr + size > u64::MAX {
                Err(Error::ProgramHeaderMalformed)
            } else {
                Ok(SegmentModel { data, vaddr, size, perms })
            },
        }
    }

    /// The segment of `size` bytes at `vaddr` that starts with `data`. The
    /// flags must be read, read and write, or read and execute, and the
    /// segment must end inside the address space.
    pub fn new(data: Option<&'elf [u8]>, vaddr: u64, size: usize, flags: u32) -> (r: Result<
        ElfSegment<'elf>,
        Error,
    >)
        ensures
            match r {
                Ok(seg) => Self::spec_new(
                    match data {
                        Some(d) => Some(d@),
                        None => None,
                    },
                    vaddr,
                    size,
                    flags,
                ) == Ok::<SegmentModel, Error>(seg@),
                Err(e) => Self::spec_new(
                    match data {
                        Some(d) => Some(d@),
                        None => None,
                    },
                    vaddr,
                    size,
                    flags,
                ) == Err::<SegmentModel, Error>(e),
            },
    {
        let perms = if flags == PF_R {
            ElfSegmentPerms::R
        } else if flags == 0x6 {
            ElfSegmentPerms::RW
        } else if flags == 0x5 {
            ElfSegmentPerms::RX
        } else {
            return Err(Error::UnsupportedSegmentFlags(flags));
        };
        // Check that the size is valid.
        if size as u64 > u64::MAX - vaddr {
            return Err(Error::ProgramHeaderMalformed);
        }
        Ok(ElfSegment { data, vaddr, size, perms })
    }

    /// The bytes that the file holds for the segment, if it holds any.
    pub fn data(&self) -> (r: Option<&'elf [u8]>)
        ensures
            match r {
                Some(d) => self@.data == Some(d@),
                None => self@.data is None,
            },
    {
        self.data
    }

    /// The virtual address at which the segment starts.
    pub fn vaddr(&self) -> (r: u64)
        ensures
            r == self@.vaddr,
    {
        self.vaddr
    }

    /// The number of bytes that the segment takes up in memory.
    pub fn size(&self) -> (r: usize)
        ensures
            r == self@.size,
    {
        self.size
    }

    /// What the task may do with the memory of the segment.
    pub fn perms(&self) -> (r: &ElfSegmentPerms)
        ensures
            *r == self@.perms,
    {
        &self.perms
    }
}

/// What the program header at `off` contributes to the image: nothing if it
/// is not loadable, the segment that it describes otherwise. A segment
/// without bytes in the file has no data; the bytes of any other segment
/// must lie inside the file.
#[verifier::opaque]
pub open spec fn segment_at(bytes: Seq<u8>, off: int) -> Result<Option<SegmentModel>, Error> {
    let ph = ElfProgramHeader64::decoded(bytes, off);
    if ph.p_type != PT_LOAD {
        Ok(None)
    } else if ph.p_filesz > usize::MAX {
        Err(Error::ProgramHeaderMalformed)
    } else if ph.p_filesz > 0 && !range_ok(bytes.len(), ph.p_offset.inner, ph.p_filesz as int) {
        Err(Error::BadOffset)
    } else if ph.p_memsz > usize::MAX {
        Err(Error::ProgramHeaderMalformed)
    } else {
        let data = if ph.p_filesz == 0 {
            None
        } else {
            Some(
                bytes.subrange(
                    ph.p_offset.inner as int,
                    ph.p_offset.inner as int + ph.p_filesz as int,
                ),
            )
        };
        match ElfSegment::spec_new(data, ph.p_vaddr, ph.p_memsz as usize, ph.p_flags) {
            Ok(seg) => Ok(Some(seg)),
            Err(e) => Err(e),
        }
    }
}

/// The segments that the program headers `i` to `n - 1` describe, in the
/// order of the headers, or the error of the first header that is refused.
/// The headers are `phentsize` bytes apart and start at `phoff`.
pub open spec fn segments_from(bytes: Seq<u8>, phoff: int, phentsize: int, i: int, n: int) -> Result<
    Seq<SegmentModel>,
    Error,
>
    decreases n - i,
{
    if i >= n {
        Ok(Seq::empty())
    } else {
        match segment_at(bytes, phoff + i * phentsize) {
            Err(e) => Err(e),
            Ok(seg) => match segments_from(bytes, phoff, phentsize, i + 1, n) {
                Err(e) => Err(e),
                Ok(rest) => Ok(
                    match seg {
                        Some(s) => seq![s] + rest,
                        None => rest,
                    },
                ),
            },
        }
    }
}

/// The result `r` with the segments `acc` put in front.
pub open spec fn prepend(acc: Seq<SegmentModel>, r: Result<Seq<SegmentModel>, Error>) -> Result<
    Seq<SegmentModel>,
    Error,
> {
    match r {
        Ok(rest) => Ok(acc + rest),
        Err(e) => Err(e),
    }
}

proof fn lemma_prepend_empty(r: Result<Seq<SegmentModel>, Error>)
    ensures
        prepend(Seq::empty(), r) == r,
{
    match r {
        Ok(rest) => {
            assert(Seq::<SegmentModel>::empty() + rest =~= rest);
        },
        Err(_) => {},
    }
}

proof fn lemma_segments_step(
    bytes: Seq<u8>,
    phoff: int,
    phentsize: int,
    i: int,
    n: int,
    acc: Seq<SegmentModel>,
)
    requires
        i < n,
    ensures
        match segment_at(bytes, phoff + i * phentsize) {
            Err(e) => prepend(acc, segments_from(bytes, phoff, phentsize, i, n)) == Err::<
                Seq<SegmentModel>,
                Error,
            >(e),
            Ok(None) => prepend(acc, segments_from(bytes, phoff, phentsize, i, n)) == prepend(
                acc,
                segments_from(bytes, phoff, phentsize, i + 1, n),
            ),
            Ok(Some(seg)) => prepend(acc, segments_from(bytes, phoff, phentsize, i, n)) == prepend(
                acc.push(seg),
                segments_from(bytes, phoff, phentsize, i + 1, n),
            ),
        },
{
    match segment_at(bytes, phoff + i * phentsize) {
        Ok(Some(seg)) => {
            match segments_from(bytes, phoff, phentsize, i + 1, n) {
                Ok(rest) => {
                    assert(acc + (seq![seg] + rest) =~= acc.push(seg) + rest);
                },
                Err(_) => {},
            }
        },
        _ => {},
    }
}

/// What an image is to the hypervisor.
pub struct ElfModel {
    /// The address of the entry point.
    pub entry: u64,
    /// The loadable segments, in the order of their program headers.
    pub segments: Seq<SegmentModel>,
}

/// The meaning of the file `bytes`: the image that it holds, or the reason
/// for which it is refused. The file header is checked first. The table of
/// program headers must lie inside the file and must not be empty. Of its
/// entries at most the first eight are looked at.
pub open spec fn parse(bytes: Seq<u8>) -> Result<ElfModel, Error> {
    if bytes.len() < ELF_HEADER_SIZE {
        Err(Error::BadOffset)
    } else {
        let h = ElfHeader64::decoded(bytes);
        match h.spec_check() {
            Some(e) => Err(e),
            None => if !range_ok(bytes.len(), h.e_phoff.inner, h.e_phnum * h.e_phentsize) {
                Err(Error::BadOffset)
            } else {
                let n = if h.e_phnum < ELF_SEGMENTS_MAX {
                    h.e_phnum as int
                } else {
                    ELF_SEGMENTS_MAX as int
                };
                match segments_from(bytes, h.e_phoff.inner as int, h.e_phentsize as int, 0, n) {
                    Ok(segments) => Ok(ElfModel { entry: h.e_entry, segments }),
                    Err(e) => Err(e),
                }
            },
        }
    }
}

/// `ArrayVec` of the crate arrayvec: a vector of at most `CAP` elements that
/// stores them inline. Nothing is known of a value of this type but what
/// the functions below state.
#[verifier::external_type_specification]
#[verifier::external_body]
#[verifier::reject_recursive_types(T)]
pub struct ExArrayVec<T, const CAP: usize>(ArrayVec<T, CAP>);

/// The segments that a list of segments holds, in the order in which they
/// were pushed.
pub uninterp spec fn segment_items(v: ArrayVec<ElfSegment<'_>, 8>) -> Seq<ElfSegment<'_>>;

/// `ArrayVec::new` of the crate arrayvec: a new list is empty.
#[verifier::external_body]
fn segments_new<'elf>() -> (v: ArrayVec<ElfSegment<'elf>, 8>)
    ensures
        segment_items(v).len() == 0,
{
    ArrayVec::new()
}

/// `ArrayVec::push` of the crate arrayvec: the element is appended. The
/// call panics on a full list, so the list must hold less than eight
/// segments.
#[verifier::external_body]
fn segments_push<'elf>(v: &mut ArrayVec<ElfSegment<'elf>, 8>, seg: ElfSegment<'elf>)
    requires
        segment_items(*old(v)).len() < ELF_SEGMENTS_MAX,
    ensures
        segment_items(*final(v)) == segment_items(*old(v)).push(seg),
{
    v.push(seg)
}

/// `ArrayVec::len` of the crate arrayvec: the number of elements.
#[verifier::external_body]
fn segments_len<'elf>(v: &ArrayVec<ElfSegment<'elf>, 8>) -> (n: usize)
    ensures
        n == segment_items(*v).len(),
{
    v.len()
}

/// `ArrayVec::as_slice` of the crate arrayvec, indexed: the element at
/// position `i`, which must exist.
#[verifier::external_body]
fn segments_get<'a, 'elf>(v: &'a ArrayVec<ElfSegment<'elf>, 8>, i: usize) -> (seg: &'a ElfSegment<
    'elf,
>)
    requires
        i < segment_items(*v).len(),
    ensures
        *seg == segment_items(*v)[i as int],
{
    &v.as_slice()[i]
}

/// A checked ELF image, ready to be loaded into memory.
pub struct ElfMap<'elf> {
    bytes: &'elf [u8],
    entry: u64,
    segments: ArrayVec<ElfSegment<'elf>, 8>,
}

impl<'elf> ElfMap<'elf> {
    /// What the image is.
    pub closed spec fn view(&self) -> ElfModel {
        ElfModel {
            entry: self.entry,
            segments: segment_items(self.segments).map_values(|s: ElfSegment| s@),
        }
    }

    /// The loadable segments, in the order of their program headers.
    pub closed spec fn segment_seq(&self) -> Seq<ElfSegment<'elf>> {
        segment_items(self.segments)
    }

    /// The image holds at most eight segments.
    pub open spec fn wf(&self) -> bool {
        self.segment_seq().len() <= ELF_SEGMENTS_MAX
    }

    /// The bytes of the file that the image was read from.
    pub closed spec fn spec_bytes(&self) -> Seq<u8> {
        self.bytes@
    }

    /// Checks the file `bytes` and finds its loadable segments.
    pub fn new(bytes: &'elf [u8]) -> (r: Result<ElfMap<'elf>, Error>)
        ensures
            match r {
                Ok(map) => parse(bytes@) == Ok::<ElfModel, Error>(map@) && map.wf()
                    && map.segment_seq().map_values(|s: ElfSegment| s@) == map@.segments
                    && map.spec_bytes() == bytes@,
                Err(e) => parse(bytes@) == Err::<ElfModel, Error>(e),
            },
    {
        // Check the file header.
        let header = match ElfHeader64::from_bytes(bytes) {
            Some(h) => h,
            None => {
                return Err(Error::BadOffset);
            },
        };
        match header.check() {
            Some(e) => {
                return Err(e);
            },
            None => {},
        }
        // Check that the program header table can be read.
        let phnum: usize = header.e_phnum as usize;
        let phentsize: usize = header.e_phentsize as usize;
        assert(phnum * phentsize <= 0xffff * 0xffff) by (nonlinear_arith)
            requires
                phnum <= 0xffff,
                phentsize <= 0xffff,
        ;
        let table_size: usize = phnum * phentsize;
        let file_len: usize = bytes.len();
        if !slice_check_range(bytes, header.e_phoff, table_size) {
            return Err(Error::BadOffset);
        }
        let phoff: usize = header.e_phoff.inner as usize;
        // Load the segments.
        let mut segments = segments_new();
        let num_segs: usize = if phnum < ELF_SEGMENTS_MAX {
            phnum
        } else {
            ELF_SEGMENTS_MAX
        };
        let mut i: usize = 0;
        let mut off: usize = phoff;
        let ghost total = segments_from(bytes@, phoff as int, phentsize as int, 0, num_segs as int);
        proof {
            assert(segment_items(segments).map_values(|s: ElfSegment| s@) =~= Seq::<
                SegmentModel,
            >::empty());
            lemma_prepend_empty(total);
        }
        while i < num_segs
            invariant
                i <= num_segs <= ELF_SEGMENTS_MAX,
                num_segs <= phnum,
                phentsize >= ELF_PROGRAM_HEADER_SIZE,
                phoff + phnum * phentsize <= bytes@.len(),
                file_len == bytes@.len(),
                off == phoff + i * phentsize,
                segment_items(segments).len() <= i,
                parse(bytes@) == (match total {
                    Ok(segs) => Ok::<ElfModel, Error>(
                        ElfModel { entry: header.e_entry, segments: segs },
                    ),
                    Err(e) => Err::<ElfModel, Error>(e),
                }),
                total == prepend(
                    segment_items(segments).map_values(|s: ElfSegment| s@),
                    segments_from(bytes@, phoff as int, phentsize as int, i as int, num_segs as int),
                ),
            decreases num_segs - i,
        {
            assert(i * phentsize + phentsize <= phnum * phentsize && (i + 1) * phentsize == i
                * phentsize + phentsize) by (nonlinear_arith)
                requires
                    i < phnum,
            ;
            let ghost so_far = segment_items(segments).map_values(|s: ElfSegment| s@);
            proof {
                lemma_segments_step(
                    bytes@,
                    phoff as int,
                    phentsize as int,
                    i as int,
                    num_segs as int,
                    so_far,
                );
            }
            match load_segment(bytes, off) {
                Err(e) => {
                    return Err(e);
                },
                Ok(None) => {},
                Ok(Some(segment)) => {
                    segments_push(&mut segments, segment);
                    proof {
                        let now = segment_items(segments).map_values(|s: ElfSegment| s@);
                        assert(now =~= so_far.push(segment@));
                    }
                },
            }
            off = off + phentsize;
            i = i + 1;
        }
        proof {
            let all = segment_items(segments).map_values(|s: ElfSegment| s@);
            assert(all + Seq::<SegmentModel>::empty() =~= all);
        }
        Ok(ElfMap { bytes, entry: header.e_entry, segments })
    }

    /// The address of the entry point of the image.
    pub fn entry(&self) -> (r: u64)
        ensures
            r == self@.entry,
    {
        self.entry
    }

    /// The file that the image was read from.
    pub fn bytes(&self) -> (r: &'elf [u8])
        ensures
            r@ == self.spec_bytes(),
    {
        self.bytes
    }

    /// The number of loadable segments.
    pub fn num_segments(&self) -> (r: usize)
        ensures
            r == self.segment_seq().len(),
            r == self@.segments.len(),
    {
        segments_len(&self.segments)
    }

    /// The loadable segment at position `i`, in the order of the program
    /// headers.
    pub fn segment(&self, i: usize) -> (r: Option<&ElfSegment<'elf>>)
        ensures
            r is Some <==> i < self.segment_seq().len(),
            r matches Some(seg) ==> *seg == self.segment_seq()[i as int] && seg@
                == self@.segments[i as int],
    {
        if i < segments_len(&self.segments) {
            Some(segments_get(&self.segments, i))
        } else {
            None
        }
    }

    /// The loadable segments of the image, in the order of their program
    /// headers.
    pub fn segments(&self) -> (r: Vec<ElfSegment<'elf>>)
        ensures
            r@ == self.segment_seq(),
    {
        let n: usize = segments_len(&self.segments);
        let mut out: Vec<ElfSegment<'elf>> = Vec::new();
        let mut i: usize = 0;
        while i < n
            invariant
                i <= n,
                n == segment_items(self.segments).len(),
                out@ == segment_items(self.segments).take(i as int),
            decreases n - i,
        {
            let seg = segments_get(&self.segments, i);
            out.push(*seg);
            assert(out@ =~= segment_items(self.segments).take(i as int + 1));
            i = i + 1;
        }
        assert(segment_items(self.segments).take(n as int) =~= segment_items(self.segments));
        out
    }
}

/// Reads the program header at `off` and, if it describes a loadable segment,
/// creates the segment.
fn load_segment<'elf>(bytes: &'elf [u8], off: usize) -> (r: Result<Option<ElfSegment<'elf>>, Error>)
    requires
        off + ELF_PROGRAM_HEADER_SIZE <= bytes@.len(),
    ensures
        match r {
            Ok(Some(seg)) => segment_at(bytes@, off as int) == Ok::<Option<SegmentModel>, Error>(
                Some(seg@),
            ),
            Ok(None) => segment_at(bytes@, off as int) == Ok::<Option<SegmentModel>, Error>(None),
            Err(e) => segment_at(bytes@, off as int) == Err::<Option<SegmentModel>, Error>(e),
        },
{
    reveal(segment_at);
    let ph = read_program_header(bytes, off);
    // Ignore if not a load segment.
    if ph.p_type != PT_LOAD {
        return Ok(None);
    }
    if ph.p_filesz > usize::MAX as u64 {
        return Err(Error::ProgramHeaderMalformed);
    }
    let datasz: usize = ph.p_filesz as usize;
    let data = if datasz == 0 {
        None
    } else {
        match slice_get_range(bytes, ph.p_offset, datasz) {
            Some(d) => Some(d),
            None => {
                return Err(Error::BadOffset);
            },
        }
    };
    if ph.p_memsz > usize::MAX as u64 {
        return Err(Error::ProgramHeaderMalformed);
    }
    let size: usize = ph.p_memsz as usize;
    match ElfSegment::new(data, ph.p_vaddr, size, ph.p_flags) {
        Ok(s) => Ok(Some(s)),
        Err(e) => Err(e),
    }
}

/// Reads the program header at `off`.
fn read_program_header(bytes: &[u8], off: usize) -> (r: ElfProgramHeader64)
    requires
        off + ELF_PROGRAM_HEADER_SIZE <= bytes@.len(),
    ensures
        r == ElfProgramHeader64::decoded(bytes@, off as int),
{
    let n: usize = bytes.len();
    ElfProgramHeader64 {
        p_type: read_u32(bytes, off),
        p_flags: read_u32(bytes, off + 4),
        p_offset: ElfOffset64 { inner: read_u64(bytes, off + 8) },
        p_vaddr: read_u64(bytes, off + 16),
        p_paddr: read_u64(bytes, off + 24),
        p_filesz: read_u64(bytes, off + 32),
        p_memsz: read_u64(bytes, off + 40),
        p_align: read_u64(bytes, off + 48),
    }
}

} // verus!
