//! Kernel-exposed device information.

pub mod block;
