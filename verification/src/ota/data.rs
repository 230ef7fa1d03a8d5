//! The documents that the OTA agent exchanges with a stream, and what it tells
//! the platform.

use vstd::prelude::*;

use crate::ota::bitmap::Bitmap;

verus! {

/// The state of the firmware image.
#[derive(Clone, Copy, Debug, PartialEq, Eq, Structural)]
pub enum ImageState {
    Unknown,
    Aborted,
    Rejected,
    Accepted,
    Testing,
}

/// What the platform is told when an update has ended.
#[derive(Clone, Copy, Debug, PartialEq, Eq, Structural)]
pub enum OtaEvent {
    /// The update is complete: activate it.
    Activate,
    /// The update failed: it is not to be used.
    Fail,
}

/// Asks a stream for blocks of a file.
#[derive(Debug)]
pub struct StreamRequest {
    pub client_token: &'static str,
    pub file_id: u8,
    pub block_size: usize,
    pub block_offset: u32,
    pub block_bitmap: Bitmap,
    pub number_of_blocks: u32,
}

/// What a [`StreamRequest`] says.
pub struct StreamRequestView {
    pub client_token: Seq<char>,
    pub file_id: u8,
    pub block_size: usize,
    pub block_offset: u32,
    pub block_bitmap: Seq<bool>,
    pub number_of_blocks: u32,
}

impl View for StreamRequest {
    type V = StreamRequestView;

    open spec fn view(&self) -> StreamRequestView {
        StreamRequestView {
            client_token: self.client_token@,
            file_id: self.file_id,
            block_size: self.block_size,
            block_offset: self.block_offset,
            block_bitmap: self.block_bitmap@,
            number_of_blocks: self.number_of_blocks,
        }
    }
}

/// A block of a file.
#[derive(Debug)]
pub struct StreamResponse {
    pub block_id: usize,
    pub block_payload: Vec<u8>,
    pub block_size: usize,
    pub file_id: u8,
}

/// What a [`StreamResponse`] says.
pub struct StreamResponseView {
    pub block_id: int,
    pub block_payload: Seq<u8>,
    pub block_size: int,
    pub file_id: u8,
}

impl View for StreamResponse {
    type V = StreamResponseView;

    open spec fn view(&self) -> StreamResponseView {
        StreamResponseView {
            block_id: self.block_id as int,
            block_payload: self.block_payload@,
            block_size: self.block_size as int,
            file_id: self.file_id,
        }
    }
}

} // verus!
