//! Why an OTA operation fails.

use vstd::prelude::*;

use crate::jobs::data::JobError;

verus! {

/// `mqttrust::MqttError`: why a client did not take a message.
#[verifier::external_type_specification]
#[verifier::external_body]
pub struct ExMqttError(mqttrust::MqttError);

/// `core::fmt::Error`: something could not be written.
#[verifier::external_type_specification]
#[verifier::external_body]
pub struct ExFmtError(core::fmt::Error);

/// A failure of the platform that stores and activates the firmware.
#[derive(Clone, Debug, PartialEq, Eq)]
pub struct OtaPalError<E>(pub E);

/// Why an OTA operation failed.
#[derive(Debug)]
pub enum OtaError<E> {
    /// The client could not send.
    Mqtt,
    /// A report on the job failed.
    Jobs(JobError),
    /// A block is not what a stream sends, or a request cannot be encoded.
    BadData,
    /// A list is full.
    Memory,
    /// A topic takes more bytes than there is room for.
    Formatting,
    /// The topic is none of the stream's.
    InvalidTopic,
    /// There is no update in progress.
    NoOtaActive,
    /// A block lies outside of the file, or is not of the size it must have.
    BlockOutOfRange,
    /// The platform failed.
    PalError(OtaPalError<E>),
    /// A block belongs to another file.
    BadFileHandle,
    /// The service rejected a request for blocks.
    RequestRejected,
    /// Another update is in progress.
    Busy,
    /// This many requests in a row went unanswered.
    MaxMomentumAbort(u8),
}

impl<E> From<core::fmt::Error> for OtaError<E> {
    fn from(_e: core::fmt::Error) -> (error: Self) {
        OtaError::Formatting
    }
}

impl<E> vstd::std_specs::convert::FromSpecImpl<core::fmt::Error> for OtaError<E> {
    open spec fn obeys_from_spec() -> bool {
        true
    }

    open spec fn from_spec(e: core::fmt::Error) -> Self {
        OtaError::Formatting
    }
}

impl<E> From<OtaPalError<E>> for OtaError<E> {
    fn from(e: OtaPalError<E>) -> (error: Self) {
        OtaError::PalError(e)
    }
}

impl<E> vstd::std_specs::convert::FromSpecImpl<OtaPalError<E>> for OtaError<E> {
    open spec fn obeys_from_spec() -> bool {
        true
    }

    open spec fn from_spec(e: OtaPalError<E>) -> Self {
        OtaError::PalError(e)
    }
}

impl<E> From<mqttrust::MqttError> for OtaError<E> {
    fn from(_e: mqttrust::MqttError) -> (error: Self) {
        OtaError::Mqtt
    }
}

impl<E> vstd::std_specs::convert::FromSpecImpl<mqttrust::MqttError> for OtaError<E> {
    open spec fn obeys_from_spec() -> bool {
        true
    }

    open spec fn from_spec(e: mqttrust::MqttError) -> Self {
        OtaError::Mqtt
    }
}

impl<E> From<JobError> for OtaError<E> {
    fn from(e: JobError) -> (error: Self) {
        OtaError::Jobs(e)
    }
}

impl<E> vstd::std_specs::convert::FromSpecImpl<JobError> for OtaError<E> {
    open spec fn obeys_from_spec() -> bool {
        true
    }

    open spec fn from_spec(e: JobError) -> Self {
        OtaError::Jobs(e)
    }
}

} // verus!
