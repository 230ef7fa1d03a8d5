//! Over-the-air (OTA) updates of firmware.

pub mod agent;
pub mod bitmap;
pub mod config;
pub mod data;
pub mod error;
pub mod laws;
pub mod topic;
