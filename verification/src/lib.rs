//! Verified core of a userspace bootloader: a block-device model with a
//! fault-tolerant enumerator, a filesystem-probe classifier, a mount
//! resource manager, a configuration resolver with a documented fallback
//! order, and the boot orchestrator's candidate selection.
//!
//! Everything that talks to the operating system (reading the device
//! catalog, spawning the probe / mount / kernel-execution utilities,
//! parsing configuration files) stays outside this crate; the library
//! states what is decided from each outcome, and proves it.

pub mod blockdev;
pub mod conf;
pub mod kexlinux;
pub mod strutil;
