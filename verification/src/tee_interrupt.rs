//! The interrupt-virtualization calls that a host makes to set up the
//! interrupt controller of a confidential guest, as they travel in the
//! argument registers `a0`-`a7`.

use vstd::prelude::*;

verus! {

/// Why a call was refused.
#[derive(Clone, Copy, Debug, PartialEq, Eq, Structural)]
pub enum Error {
    /// The function number in `a6` is not one of this extension.
    NotSupported,
}

/// Describes the interrupt controller configuration of a guest.
#[derive(Clone, Copy, Debug, PartialEq, Eq, Structural)]
pub struct TvmAiaParams {
    /// The base address of the virtualized interrupt controller in guest
    /// physical address space.
    pub imsic_base_addr: u64,
    /// The number of group index bits in an interrupt file address.
    pub group_index_bits: u32,
    /// The location of the group index in an interrupt file address. Must be
    /// at least 24.
    pub group_index_shift: u32,
    /// The number of hart index bits in an interrupt file address.
    pub hart_index_bits: u32,
    /// The number of guest index bits in an interrupt file address.
    pub guest_index_bits: u32,
    /// The number of guest interrupt files to be implemented per virtual CPU.
    pub guests_per_hart: u32,
}

impl Default for TvmAiaParams {
    fn default() -> (r: TvmAiaParams)
        ensures
            r == (TvmAiaParams {
                imsic_base_addr: 0,
                group_index_bits: 0,
                group_index_shift: 0,
                hart_index_bits: 0,
                guest_index_bits: 0,
                guests_per_hart: 0,
            }),
    {
        TvmAiaParams {
            imsic_base_addr: 0,
            group_index_bits: 0,
            group_index_shift: 0,
            hart_index_bits: 0,
            guest_index_bits: 0,
            guests_per_hart: 0,
        }
    }
}

/// Functions provided by the interrupt extension. The function number
/// travels in `a6`.
#[derive(Clone, Copy, Debug, PartialEq, Eq, Structural)]
#[allow(inconsistent_fields)]
pub enum TeeInterruptFunction {
    /// Configures interrupt virtualization for a guest from the parameters
    /// at a physical address. Function number 0.
    TvmAiaInit {
        /// a0 = guest identifier
        tvm_id: u64,
        /// a1 = physical address of the `TvmAiaParams` structure
        params_addr: u64,
        /// a2 = length of the `TvmAiaParams` structure in bytes
        len: u64,
    },
    /// Sets the guest physical address of the interrupt file of a virtual
    /// CPU. Function number 1.
    TvmCpuSetImsicAddr {
        /// a0 = guest identifier
        tvm_id: u64,
        /// a1 = virtual CPU identifier
        vcpu_id: u64,
        /// a2 = guest physical address of the interrupt file
        imsic_addr: u64,
    },
    /// Converts a non-confidential interrupt file for use with a guest.
    /// Function number 2.
    TsmConvertImsic {
        /// a0 = physical address of the interrupt file to be converted
        imsic_addr: u64,
    },
    /// Reclaims a confidential interrupt file. Function number 3.
    TsmReclaimImsic {
        /// a0 = physical address of the interrupt file to be reclaimed
        imsic_addr: u64,
    },
}

impl TeeInterruptFunction {
    /// The function that the registers `args` ask for.
    pub open spec fn decoded(args: Seq<u64>) -> Result<TeeInterruptFunction, Error> {
        if args[6] == 0 {
            Ok(TeeInterruptFunction::TvmAiaInit { tvm_id: args[0], params_addr: args[1], len: args[2] })
        } else if args[6] == 1 {
            Ok(
                TeeInterruptFunction::TvmCpuSetImsicAddr {
                    tvm_id: args[0],
                    vcpu_id: args[1],
                    imsic_addr: args[2],
                },
            )
        } else if args[6] == 2 {
            Ok(TeeInterruptFunction::TsmConvertImsic { imsic_addr: args[0] })
        } else if args[6] == 3 {
            Ok(TeeInterruptFunction::TsmReclaimImsic { imsic_addr: args[0] })
        } else {
            Err(Error::NotSupported)
        }
    }

    /// The registers `a0` to `a6` of a call of this function.
    pub open spec fn encoded(self) -> Seq<u64> {
        seq![
            self.spec_a0(),
            self.spec_a1(),
            self.spec_a2(),
            0u64,
            0u64,
            0u64,
            self.spec_a6(),
        ]
    }

    /// Attempts to parse a function from the register values passed in
    /// `a0`-`a7`.
    pub fn from_regs(args: &[u64]) -> (r: Result<TeeInterruptFunction, Error>)
        requires
            args@.len() >= 7,
        ensures
            r == Self::decoded(args@),
    {
        let function: u64 = args[6];
        if function == 0 {
            Ok(TeeInterruptFunction::TvmAiaInit { tvm_id: args[0], params_addr: args[1], len: args[2] })
        } else if function == 1 {
            Ok(
                TeeInterruptFunction::TvmCpuSetImsicAddr {
                    tvm_id: args[0],
                    vcpu_id: args[1],
                    imsic_addr: args[2],
                },
            )
        } else if function == 2 {
            Ok(TeeInterruptFunction::TsmConvertImsic { imsic_addr: args[0] })
        } else if function == 3 {
            Ok(TeeInterruptFunction::TsmReclaimImsic { imsic_addr: args[0] })
        } else {
            Err(Error::NotSupported)
        }
    }

    /// The function number.
    pub open spec fn spec_a6(self) -> u64 {
        match self {
            TeeInterruptFunction::TvmAiaInit { .. } => 0,
            TeeInterruptFunction::TvmCpuSetImsicAddr { .. } => 1,
            TeeInterruptFunction::TsmConvertImsic { .. } => 2,
            TeeInterruptFunction::TsmReclaimImsic { .. } => 3,
        }
    }

    /// The first argument.
    pub open spec fn spec_a0(self) -> u64 {
        match self {
            TeeInterruptFunction::TvmAiaInit { tvm_id, .. } => tvm_id,
            TeeInterruptFunction::TvmCpuSetImsicAddr { tvm_id, .. } => tvm_id,
            TeeInterruptFunction::TsmConvertImsic { imsic_addr } => imsic_addr,
            TeeInterruptFunction::TsmReclaimImsic { imsic_addr } => imsic_addr,
        }
    }

    /// The second argument, zero where the function has none.
    pub open spec fn spec_a1(self) -> u64 {
        match self {
            TeeInterruptFunction::TvmAiaInit { params_addr, .. } => params_addr,
            TeeInterruptFunction::TvmCpuSetImsicAddr { vcpu_id, .. } => vcpu_id,
            _ => 0,
        }
    }

    /// The third argument, zero where the function has none.
    pub open spec fn spec_a2(self) -> u64 {
        match self {
            TeeInterruptFunction::TvmAiaInit { len, .. } => len,
            TeeInterruptFunction::TvmCpuSetImsicAddr { imsic_addr, .. } => imsic_addr,
            _ => 0,
        }
    }

    /// The function number, for register `a6`.
    #[verifier::when_used_as_spec(spec_a6)]
    pub fn a6(self) -> (r: u64)
        ensures
            r == self.spec_a6(),
    {
        match self {
            TeeInterruptFunction::TvmAiaInit { .. } => 0,
            TeeInterruptFunction::TvmCpuSetImsicAddr { .. } => 1,
            TeeInterruptFunction::TsmConvertImsic { .. } => 2,
            TeeInterruptFunction::TsmReclaimImsic { .. } => 3,
        }
    }

    /// The value of register `a0`.
    #[verifier::when_used_as_spec(spec_a0)]
    pub fn a0(self) -> (r: u64)
        ensures
            r == self.spec_a0(),
    {
        match self {
            TeeInterruptFunction::TvmAiaInit { tvm_id, params_addr: _, len: _ } => tvm_id,
            TeeInterruptFunction::TvmCpuSetImsicAddr { tvm_id, vcpu_id: _, imsic_addr: _ } => tvm_id,
            TeeInterruptFunction::TsmConvertImsic { imsic_addr } => imsic_addr,
            TeeInterruptFunction::TsmReclaimImsic { imsic_addr } => imsic_addr,
        }
    }

    /// The value of register `a1`.
    #[verifier::when_used_as_spec(spec_a1)]
    pub fn a1(self) -> (r: u64)
        ensures
            r == self.spec_a1(),
    {
        match self {
            TeeInterruptFunction::TvmAiaInit { tvm_id: _, params_addr, len: _ } => params_addr,
            TeeInterruptFunction::TvmCpuSetImsicAddr { tvm_id: _, vcpu_id, imsic_addr: _ } => vcpu_id,
            _ => 0,
        }
    }

    /// The value of register `a2`.
    #[verifier::when_used_as_spec(spec_a2)]
    pub fn a2(self) -> (r: u64)
        ensures
            r == self.spec_a2(),
    {
        match self {
            TeeInterruptFunction::TvmAiaInit { tvm_id: _, params_addr: _, len } => len,
            TeeInterruptFunction::TvmCpuSetImsicAddr { tvm_id: _, vcpu_id: _, imsic_addr } => imsic_addr,
            _ => 0,
        }
    }

    /// The value of register `a3`: always zero.
    pub fn a3(self) -> (r: u64)
        ensures
            r == 0,
    {
        0
    }

    /// The value of register `a4`: always zero.
    pub fn a4(self) -> (r: u64)
        ensures
            r == 0,
    {
        0
    }

    /// The value of register `a5`: always zero.
    pub fn a5(self) -> (r: u64)
        ensures
            r == 0,
    {
        0
    }
}

/// Every function is read back from the registers that it is sent in.
pub proof fn lemma_function_round_trip(f: TeeInterruptFunction)
    ensures
        TeeInterruptFunction::decoded(f.encoded()) == Ok::<TeeInterruptFunction, Error>(f),
{
}

} // verus!
