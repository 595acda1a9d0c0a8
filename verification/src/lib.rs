//! A verified core for a small FAT16-style kernel: the filesystem driver
//! (boot-sector geometry, root-directory search, cluster-chain reading over a
//! block device), together with the kernel's descriptor tables, text screen
//! and line-shell command decisions.

pub mod device;
pub mod errors;
pub mod exceptions;
pub mod fat;
pub mod gdt;
pub mod geometry;
pub mod idt;
pub mod lock;
pub mod shell;
pub mod vga;
