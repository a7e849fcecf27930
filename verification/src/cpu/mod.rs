//! Reading the CPU state from sysfs, and building the changes to it.
pub mod sysfs;
pub mod apply;
pub mod sensors;
