//! The checks around the making of an attestation certificate: the sizes
//! of the certificate signing request and of the room for the certificate.
//! Parsing the request and signing the certificate are not done here.

use vstd::prelude::*;

verus! {

/// Why no certificate was made.
#[derive(Clone, Copy, Debug, PartialEq, Eq, Structural)]
pub enum Error {
    /// The certificate signing request is larger than the largest request
    /// that can be handled: its size, and the limit.
    CsrBufferTooSmall(usize, usize),
    /// Cannot parse the certificate signing request.
    CsrParseFailed,
    /// Cannot verify the certificate signing request.
    CsrVerificationFailed,
    /// Cannot add a measurement to the certificate.
    FwidAddFailed,
    /// Cannot create the certificate.
    CertificateCreationFailed,
    /// The room for the certificate is too small: its size, and the size
    /// of the certificate.
    CertificateBufferTooSmall(usize, usize),
}

/// Checks the size of a certificate signing request of `csr_len` bytes
/// against the largest size that can be handled, `max_csr_len`.
pub fn check_csr_len(csr_len: usize, max_csr_len: usize) -> (r: Result<(), Error>)
    ensures
        csr_len > max_csr_len ==> r == Err::<(), Error>(
            Error::CsrBufferTooSmall(csr_len, max_csr_len),
        ),
        csr_len <= max_csr_len ==> r == Ok::<(), Error>(()),
{
    if csr_len > max_csr_len {
        return Err(Error::CsrBufferTooSmall(csr_len, max_csr_len));
    }
    Ok(())
}

/// Copies the finished certificate `cert_der` to the start of `certout`
/// and returns its size. Fails if the certificate does not fit.
pub fn copy_certificate(cert_der: &[u8], certout: &mut [u8]) -> (r: Result<u64, Error>)
    ensures
        final(certout)@.len() == old(certout)@.len(),
        old(certout)@.len() < cert_der@.len() ==> r == Err::<u64, Error>(
            Error::CertificateBufferTooSmall(old(certout)@.len() as usize, cert_der@.len() as usize),
        ) && final(certout)@ == old(certout)@,
        old(certout)@.len() >= cert_der@.len() ==> r == Ok::<u64, Error>(cert_der@.len() as u64)
            && final(certout)@.subrange(0, cert_der@.len() as int) == cert_der@
                && final(certout)@.subrange(cert_der@.len() as int, old(certout)@.len() as int) == old(certout)@.subrange(
            cert_der@.len() as int,
            old(certout)@.len() as int,
        ),
{
    let n: usize = cert_der.len();
    let room: usize = certout.len();
    if room < n {
        return Err(Error::CertificateBufferTooSmall(room, n));
    }
    // Copy to output.
    let mut i: usize = 0;
    while i < n
        invariant
            i <= n,
            n == cert_der@.len(),
            n <= certout@.len(),
            certout@.len() == old(certout)@.len(),
            forall|j: int| 0 <= j < i ==> certout@[j] == cert_der@[j],
            forall|j: int| i <= j < certout@.len() ==> certout@[j] == old(certout)@[j],
        decreases n - i,
    {
        certout[i] = cert_der[i];
        i = i + 1;
    }
    proof {
        assert(certout@.subrange(0, n as int) =~= cert_der@);
        assert(certout@.subrange(n as int, certout@.len() as int) =~= old(certout)@.subrange(
            n as int,
            certout@.len() as int,
        ));
    }
    Ok(n as u64)
}

} // verus!
