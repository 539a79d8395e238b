//! The verified core of a small RISC-V hypervisor: page ownership tracking,
//! the boot-time page allocator, the hypervisor's own address spaces and the
//! protocol spoken with its per-CPU user-mode helper task.

pub mod pages;
pub mod u_mode_api;
pub mod mem_map;
pub mod page_info;
pub mod page_tracking;
pub mod riscv_elf;
pub mod tee_interrupt;
pub mod attestation;
pub mod umode_mem;
pub mod umode_api;
pub mod page_table;
pub mod hyp_map;
pub mod umode;
pub mod u_mode;
pub mod libuser;
pub mod smp;
pub mod vm_pages;
pub mod iommu;
