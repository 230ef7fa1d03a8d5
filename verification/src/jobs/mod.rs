//! AWS IoT Jobs.

pub mod agent;
pub mod data;
pub mod laws;
pub mod topic;
