//! A small RISC-V supervisor kernel: SBI return decoding, boot information,
//! early console output, kernel image layout and platform discovery from the
//! firmware's flattened device tree.

pub mod sbi;
pub mod memory;
pub mod boot;
pub mod console;
pub mod device_tree;
pub mod structure;
pub mod platform;
