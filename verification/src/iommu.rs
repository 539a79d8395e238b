//! The checks that the IOMMU device has to pass before it is used.
use vstd::prelude::*;

verus! {

/// The vendor identifier of the IOMMU on the PCI bus.
pub const IOMMU_VENDOR_ID: u16 = 0x1efd;

/// The device identifier of the IOMMU on the PCI bus.
pub const IOMMU_DEVICE_ID: u16 = 0x8001;

/// Errors of probing the IOMMU.
#[derive(Clone, Copy, Debug, PartialEq, Eq, Structural)]
pub enum Error {
    /// The device has no first base address register.
    MissingRegisters,
    /// The register window of the given size is too small.
    InvalidRegisterSize(u64),
    /// The register window is not aligned to the size of the registers.
    MisalignedRegisters,
    /// The device cannot translate guest addresses with Sv48x4.
    MissingGStageSupport,
    /// The device has no flat MSI page tables.
    MissingMsiSupport,
}

/// A window of physical addresses that a base address register describes.
#[derive(Clone, Copy, Debug, PartialEq, Eq, Structural)]
pub struct RegisterWindow {
    /// The physical address of the window.
    pub base: u64,
    /// The size of the window in bytes.
    pub size: u64,
}

/// What the IOMMU says that it can do, as far as the hypervisor needs it.
#[derive(Clone, Copy, Debug, PartialEq, Eq, Structural)]
pub struct Capabilities {
    /// The version of the device.
    pub version: u64,
    /// Whether second-stage translation with Sv48x4 is supported.
    pub sv48x4: bool,
    /// Whether flat MSI page tables are supported.
    pub msi_flat: bool,
}

/// IOMMU device. Responsible for managing address translation for PCI
/// devices.
#[derive(Clone, Copy, Debug, PartialEq, Eq)]
pub struct Iommu {
    regs_base: u64,
    version: u64,
}

/// What `Iommu::locate` answers for the first window `bar0` of the device
/// and registers of `regs_len` bytes.
pub open spec fn locate_result(bar0: Option<RegisterWindow>, regs_len: u64) -> Result<u64, Error> {
    match bar0 {
        None => Err(Error::MissingRegisters),
        Some(w) => if w.size < regs_len {
            Err(Error::InvalidRegisterSize(w.size))
        } else if w.base as int % regs_len as int != 0 {
            Err(Error::MisalignedRegisters)
        } else {
            Ok(w.base)
        },
    }
}

impl Iommu {
    /// The physical address of the registers of the device.
    pub closed spec fn spec_regs_base(&self) -> u64 {
        self.regs_base
    }

    /// The version of the device.
    pub closed spec fn spec_version(&self) -> u64 {
        self.version
    }

    /// Finds the registers of the device: they are in its first window,
    /// which must be large enough for them and aligned to their size.
    pub fn locate(bar0: Option<RegisterWindow>, regs_len: u64) -> (r: Result<u64, Error>)
        requires
            regs_len > 0,
        ensures
            r == locate_result(bar0, regs_len),
    {
        let window = match bar0 {
            Some(w) => w,
            None => {
                return Err(Error::MissingRegisters);
            },
        };
        if window.size < regs_len {
            return Err(Error::InvalidRegisterSize(window.size));
        }
        if window.base % regs_len != 0 {
            return Err(Error::MisalignedRegisters);
        }
        Ok(window.base)
    }

    /// Accepts the device with registers at `regs_base` if it supports what
    /// the hypervisor needs at the least: second-stage translation with
    /// Sv48x4, and flat MSI page tables.
    pub fn probe_from(regs_base: u64, capabilities: Capabilities) -> (r: Result<Iommu, Error>)
        ensures
            !capabilities.sv48x4 ==> r == Err::<Iommu, Error>(Error::MissingGStageSupport),
            capabilities.sv48x4 && !capabilities.msi_flat ==> r == Err::<Iommu, Error>(
                Error::MissingMsiSupport,
            ),
            capabilities.sv48x4 && capabilities.msi_flat ==> r is Ok && r->Ok_0.spec_regs_base()
                == regs_base && r->Ok_0.spec_version() == capabilities.version,
    {
        if !capabilities.sv48x4 {
            return Err(Error::MissingGStageSupport);
        }
        if !capabilities.msi_flat {
            return Err(Error::MissingMsiSupport);
        }
        Ok(Iommu { regs_base, version: capabilities.version })
    }

    /// The physical address of the registers of the device.
    pub fn regs_base(&self) -> (r: u64)
        ensures
            r == self.spec_regs_base(),
    {
        self.regs_base
    }

    /// Returns the version of this IOMMU device.
    pub fn version(&self) -> (r: u64)
        ensures
            r == self.spec_version(),
    {
        self.version
    }
}

} // verus!
