//! Device side of AWS IoT Jobs and of over-the-air (OTA) firmware updates.

pub mod bounded;
pub mod consts;
pub mod jobs;
pub mod mqtt;
pub mod ota;
pub mod text;
pub mod topic;
