//! Storage Scale (GPFS) administrative-output parsing library.
//!
//! The admin commands of the clustered file system emit colon-delimited,
//! header-driven machine-readable text (their `-Y` mode).  This crate decodes
//! that text into typed records, correlates network shared disks (NSDs) with
//! storage pools, and sums kernel block-device counters per pool.  Every
//! function is specified by its contract and verified.

pub mod df;
pub mod diag;
pub mod disk;
pub mod engine;
pub mod error;
pub mod fileset;
pub mod fs;
pub mod mgr;
pub mod nmon;
pub mod nsd;
pub mod policy;
pub mod pool;
pub mod prom;
pub mod quota;
pub mod state;
pub mod sysfs;
pub mod text;
pub mod util;
