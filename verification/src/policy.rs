//! Policy-driven reports.

pub mod pool_user_distribution;
