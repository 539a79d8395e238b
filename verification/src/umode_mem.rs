//! The window of virtual addresses that belongs to the user-mode task, and
//! ranges inside it.

use vstd::prelude::*;

verus! {

/// The mappings of the task start here.
pub const UMODE_VA_START: u64 = 0xffff_ffff_0000_0000;

/// Size in bytes of the address window of the task.
pub const UMODE_VA_SIZE: u64 = 0x800_0000;

/// The mappings of the task end here.
pub const UMODE_VA_END: u64 = 0xffff_ffff_0800_0000;

/// True if `addr` lies in the address window of the task.
pub open spec fn spec_is_umode_addr(addr: u64) -> bool {
    UMODE_VA_START <= addr < UMODE_VA_END
}

/// True if the `len` bytes at `addr` are a non-empty range inside the
/// address window of the task.
pub open spec fn spec_is_valid_umode_range(addr: u64, len: usize) -> bool {
    len != 0 && UMODE_VA_START <= addr && addr + len <= UMODE_VA_END
}

/// Returns true if `addr` is contained in the address window of the task.
#[verifier::when_used_as_spec(spec_is_umode_addr)]
pub fn is_umode_addr(addr: u64) -> (r: bool)
    ensures
        r == spec_is_umode_addr(addr),
{
    UMODE_VA_START <= addr && addr < UMODE_VA_END
}

/// Returns true if the `len` bytes at `addr` are a valid non-empty range in
/// the address window of the task.
#[verifier::when_used_as_spec(spec_is_valid_umode_range)]
pub fn is_valid_umode_range(addr: u64, len: usize) -> (r: bool)
    ensures
        r == spec_is_valid_umode_range(addr, len),
{
    len != 0 && is_umode_addr(addr) && len as u64 <= UMODE_VA_END - addr
}

/// Errors of this module.
#[derive(Clone, Copy, Debug, PartialEq, Eq, Structural)]
pub enum Error {
    /// Address is not in the address window of the task.
    InvalidAddress,
    /// Length is invalid.
    InvalidLength,
    /// Offset is invalid.
    InvalidOffset,
}

/// A valid range in the address window of the task.
#[derive(Clone, Copy, Debug, PartialEq, Eq, Structural)]
pub struct UmodeMemoryRange {
    addr: u64,
    len: usize,
}

impl UmodeMemoryRange {
    #[verifier::type_invariant]
    pub closed spec fn valid(self) -> bool {
        spec_is_valid_umode_range(self.addr, self.len)
    }

    /// Where the range starts.
    pub closed spec fn spec_addr(&self) -> u64 {
        self.addr
    }

    /// The number of bytes in the range.
    pub closed spec fn spec_len(&self) -> usize {
        self.len
    }

    /// The range of `len` bytes at `addr`. Fails with `InvalidLength` if it
    /// is empty and with `InvalidAddress` if it does not lie in the address
    /// window of the task.
    pub fn new(addr: u64, len: usize) -> (r: Result<UmodeMemoryRange, Error>)
        ensures
            len == 0 ==> r == Err::<UmodeMemoryRange, Error>(Error::InvalidLength),
            len != 0 && !spec_is_valid_umode_range(addr, len) ==> r == Err::<
                UmodeMemoryRange,
                Error,
            >(Error::InvalidAddress),
            spec_is_valid_umode_range(addr, len) ==> r is Ok && r->Ok_0.spec_addr() == addr
                && r->Ok_0.spec_len() == len,
    {
        if len == 0 {
            Err(Error::InvalidLength)
        } else if !is_valid_umode_range(addr, len) {
            Err(Error::InvalidAddress)
        } else {
            Ok(UmodeMemoryRange { addr, len })
        }
    }

    /// The part of this range from offset `off` on. Fails with
    /// `InvalidOffset` if the range has no byte at `off`.
    pub fn offset(&self, off: usize) -> (r: Result<UmodeMemoryRange, Error>)
        ensures
            off >= self.spec_len() ==> r == Err::<UmodeMemoryRange, Error>(Error::InvalidOffset),
            off < self.spec_len() ==> r is Ok && r->Ok_0.spec_addr() == self.spec_addr() + off
                && r->Ok_0.spec_len() == self.spec_len() - off,
    {
        proof {
            use_type_invariant(self);
        }
        if off < self.len {
            Ok(UmodeMemoryRange { addr: self.addr + off as u64, len: self.len - off })
        } else {
            Err(Error::InvalidOffset)
        }
    }

    /// Where the range starts. The range lies in the address window of the
    /// task.
    #[verifier::when_used_as_spec(spec_addr)]
    pub fn addr(&self) -> (r: u64)
        ensures
            r == self.spec_addr(),
            spec_is_valid_umode_range(r, self.spec_len()),
    {
        proof {
            use_type_invariant(self);
        }
        self.addr
    }

    /// The number of bytes in the range; never zero.
    #[verifier::when_used_as_spec(spec_len)]
    pub fn len(&self) -> (r: usize)
        ensures
            r == self.spec_len(),
            r > 0,
    {
        proof {
            use_type_invariant(self);
        }
        self.len
    }

    /// Copies `data` to the beginning of the range, as far as it fits.
    /// `window` is the memory of the range.
    pub fn copy_to_umode(&self, window: &mut [u8], data: &[u8])
        requires
            old(window)@.len() == self.spec_len(),
        ensures
            final(window)@.len() == old(window)@.len(),
            forall|i: int|
                0 <= i < final(window)@.len() ==> final(window)@[i] == (if i < data@.len() {
                    data@[i]
                } else {
                    old(window)@[i]
                }),
    {
        let n: usize = if data.len() < window.len() {
            data.len()
        } else {
            window.len()
        };
        let mut i: usize = 0;
        while i < n
            invariant
                i <= n,
                n <= data@.len(),
                n <= window@.len(),
                window@.len() == old(window)@.len(),
                forall|j: int| 0 <= j < i ==> window@[j] == data@[j],
                forall|j: int| i <= j < window@.len() ==> window@[j] == old(window)@[j],
            decreases n - i,
        {
            window[i] = data[i];
            i = i + 1;
        }
    }

    /// Zeroes the memory of the range. `window` is the memory of the range.
    pub fn clear(&self, window: &mut [u8])
        requires
            old(window)@.len() == self.spec_len(),
        ensures
            final(window)@.len() == old(window)@.len(),
            forall|i: int| 0 <= i < final(window)@.len() ==> final(window)@[i] == 0,
    {
        let n: usize = window.len();
        let mut i: usize = 0;
        while i < n
            invariant
                i <= n,
                n == window@.len(),
                window@.len() == old(window)@.len(),
                forall|j: int| 0 <= j < i ==> window@[j] == 0,
            decreases n - i,
        {
            window[i] = 0;
            i = i + 1;
        }
    }
}

} // verus!
