//! The data that the hypervisor hands to the user-mode task through the
//! shared region when it asks for an attestation certificate.

use vstd::prelude::*;

verus! {

/// Length of the identifier of a compound device identifier.
pub const CDI_LEN: usize = 20;

/// Length of a SHA-384 hash.
pub const SHA384_LEN: usize = 48;

/// Number of measurement registers.
pub const MSMT_REGISTERS: usize = 8;

/// Number of bytes that a `GetSha384Certificate` takes up in the shared
/// region.
pub const GET_SHA384_CERTIFICATE_LEN: usize = 404;

/// State passed with a request for evidence: the status of the attestation
/// layer that is needed to generate a certificate.
#[derive(Clone, Copy, Debug)]
pub struct GetSha384Certificate {
    /// Status of the measurement registers, in `fwid` order.
    pub msmt_regs: [[u8; 48]; 8],
    /// Identifier of the compound device identifier.
    pub cdi_id: [u8; 20],
}

impl GetSha384Certificate {
    /// The bytes of the structure in the order in which they lie in the
    /// shared region: the measurement registers one after the other, then
    /// the identifier.
    pub open spec fn layout(self) -> Seq<u8> {
        Seq::new(
            GET_SHA384_CERTIFICATE_LEN as nat,
            |i: int|
                if i < 384 {
                    self.msmt_regs@[i / 48]@[i % 48]
                } else {
                    self.cdi_id@[i - 384]
                },
        )
    }

    /// Reads the structure from the start of the shared region. `None` if
    /// the region is too small to hold it.
    pub fn from_bytes(bytes: &[u8]) -> (r: Option<GetSha384Certificate>)
        ensures
            r is Some <==> bytes@.len() >= GET_SHA384_CERTIFICATE_LEN,
            r matches Some(s) ==> s.layout() == bytes@.subrange(
                0,
                GET_SHA384_CERTIFICATE_LEN as int,
            ),
    {
        if bytes.len() < GET_SHA384_CERTIFICATE_LEN {
            return None;
        }
        let mut msmt_regs: [[u8; 48]; 8] = [[0u8; 48]; 8];
        let mut cdi_id: [u8; 20] = [0u8; 20];
        let mut r: usize = 0;
        while r < 8
            invariant
                r <= 8,
                bytes@.len() >= GET_SHA384_CERTIFICATE_LEN,
                forall|a: int, b: int|
                    0 <= a < r && 0 <= b < 48
                        ==> #[trigger] msmt_regs@[a]@[b] == bytes@[a * 48 + b],
            decreases 8 - r,
        {
            let mut reg: [u8; 48] = [0u8; 48];
            let mut k: usize = 0;
            while k < 48
                invariant
                    k <= 48,
                    r < 8,
                    bytes@.len() >= GET_SHA384_CERTIFICATE_LEN,
                    forall|b: int| 0 <= b < k ==> #[trigger] reg@[b] == bytes@[r * 48 + b],
                decreases 48 - k,
            {
                reg[k] = bytes[r * 48 + k];
                k = k + 1;
            }
            msmt_regs[r] = reg;
            r = r + 1;
        }
        let mut k: usize = 0;
        while k < 20
            invariant
                k <= 20,
                bytes@.len() >= GET_SHA384_CERTIFICATE_LEN,
                forall|b: int| 0 <= b < k ==> #[trigger] cdi_id@[b] == bytes@[384 + b],
            decreases 20 - k,
        {
            cdi_id[k] = bytes[384 + k];
            k = k + 1;
        }
        let s = GetSha384Certificate { msmt_regs, cdi_id };
        proof {
            let want = bytes@.subrange(0, GET_SHA384_CERTIFICATE_LEN as int);
            assert forall|i: int| 0 <= i < GET_SHA384_CERTIFICATE_LEN implies s.layout()[i]
                == want[i] by {
                if i < 384 {
                    let a = i / 48;
                    let b = i % 48;
                    assert(msmt_regs@[a]@[b] == bytes@[a * 48 + b]);
                }
            }
            assert(s.layout() =~= want);
        }
        Some(s)
    }
}

} // verus!
