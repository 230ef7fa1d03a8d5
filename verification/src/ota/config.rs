//! The settings of the OTA agent.

use vstd::prelude::*;

verus! {

/// The settings of the OTA agent.
#[derive(Clone, Copy, Debug, PartialEq, Eq)]
pub struct OtaConfig {
    /// The size of a block of a file, in bytes.
    pub block_size: usize,
    /// The number of requests in a row that may go unanswered.
    pub max_request_momentum: u8,
    /// The time to wait for the answer to a request, in milliseconds.
    pub request_wait_ms: u32,
    /// The number of blocks that one request may ask for.
    pub max_blocks_per_request: u32,
    /// The progress between two reports, in percent.
    pub percentage_change_between_status_update: u8,
}

/// The settings that are used where nothing else is said.
pub open spec fn default_config() -> OtaConfig {
    OtaConfig {
        block_size: 1024,
        max_request_momentum: 3,
        request_wait_ms: 4500,
        max_blocks_per_request: 128,
        percentage_change_between_status_update: 5,
    }
}

impl Default for OtaConfig {
    fn default() -> (config: Self)
        ensures
            config == default_config(),
    {
        OtaConfig {
            block_size: 1024,
            max_request_momentum: 3,
            request_wait_ms: 4500,
            max_blocks_per_request: 128,
            percentage_change_between_status_update: 5,
        }
    }
}

impl OtaConfig {
    /// The same settings with another block size.
    pub fn set_block_size(self, block_size: usize) -> (config: Self)
        ensures
            config == (OtaConfig { block_size, ..self }),
    {
        OtaConfig { block_size, ..self }
    }

    /// The same settings with another time to wait for an answer.
    pub fn set_request_wait_ms(self, request_wait_ms: u32) -> (config: Self)
        ensures
            config == (OtaConfig { request_wait_ms, ..self }),
    {
        OtaConfig { request_wait_ms, ..self }
    }

    /// The same settings with another number of blocks per request.
    pub fn set_max_blocks_per_request(self, max_blocks_per_request: u32) -> (config: Self)
        ensures
            config == (OtaConfig { max_blocks_per_request, ..self }),
    {
        OtaConfig { max_blocks_per_request, ..self }
    }
}

} // verus!
