//! The documents that AWS IoT Jobs exchanges with a thing.

use vstd::prelude::*;

use crate::bounded::{stream_clone, stream_text, token_text, ClientToken, StreamId};

verus! {

/// The status of a job execution.
#[derive(Clone, Copy, Debug, PartialEq, Eq, Structural)]
pub enum JobStatus {
    Queued,
    InProgress,
    Failed,
    Succeeded,
    Canceled,
    TimedOut,
    Rejected,
    Removed,
}

/// What the service says of a request that it rejects.
#[derive(Clone, Debug, PartialEq, Eq)]
pub struct ErrorResponse {
    pub code: String,
    pub message: String,
    pub client_token: String,
}

/// Why a job operation failed.
#[derive(Clone, Debug, PartialEq, Eq)]
pub enum JobError {
    /// A topic or a client token takes more bytes than there is room for.
    Formatting,
    /// The client could not send.
    Mqtt,
    /// A list is full.
    Memory,
    /// A request takes more bytes than there is room for.
    Serialize,
    /// A payload is not the document that its topic stands for.
    Deserialize,
    /// There is no job to report on.
    NoActiveJob,
    /// The topic, or what came on it, is none that a job topic carries.
    InvalidTopic,
    /// The service rejected a request.
    Rejected(ErrorResponse),
}

/// A file of an OTA job.
#[derive(Debug, PartialEq, Eq)]
pub struct FileDescription {
    pub filepath: String,
    pub filesize: usize,
    pub fileid: u8,
    pub certfile: String,
    pub signature: String,
}

impl Clone for FileDescription {
    fn clone(&self) -> (copy: Self)
        ensures
            copy == *self,
    {
        FileDescription {
            filepath: self.filepath.clone(),
            filesize: self.filesize,
            fileid: self.fileid,
            certfile: self.certfile.clone(),
            signature: self.signature.clone(),
        }
    }
}

/// An OTA job: files that can be fetched from a stream.
#[derive(Debug)]
pub struct OtaJob {
    pub streamname: StreamId,
    pub files: Vec<FileDescription>,
}

/// What an [`OtaJob`] says.
pub struct OtaJobView {
    pub streamname: Seq<char>,
    pub files: Seq<FileDescription>,
}

impl View for OtaJob {
    type V = OtaJobView;

    open spec fn view(&self) -> OtaJobView {
        OtaJobView { streamname: stream_text(self.streamname), files: self.files@ }
    }
}

impl Clone for OtaJob {
    fn clone(&self) -> (copy: Self)
        ensures
            copy@ == self@,
    {
        let mut files: Vec<FileDescription> = Vec::new();
        let mut i: usize = 0;
        while i < self.files.len()
            invariant
                i <= self.files@.len(),
                files@ == self.files@.take(i as int),
            decreases self.files@.len() - i,
        {
            files.push(self.files[i].clone());
            i = i + 1;
            assert(files@ =~= self.files@.take(i as int));
        }
        assert(self.files@.take(i as int) =~= self.files@);
        OtaJob { streamname: stream_clone(&self.streamname), files }
    }
}

/// The document of a job.
#[derive(Debug)]
pub enum JobDetails {
    Ota(OtaJob),
}

/// What a [`JobDetails`] says.
pub enum JobDetailsView {
    Ota(OtaJobView),
}

impl View for JobDetails {
    type V = JobDetailsView;

    open spec fn view(&self) -> JobDetailsView {
        match self {
            JobDetails::Ota(job) => JobDetailsView::Ota(job@),
        }
    }
}

impl Clone for JobDetails {
    fn clone(&self) -> (copy: Self)
        ensures
            copy@ == self@,
    {
        match self {
            JobDetails::Ota(job) => JobDetails::Ota(job.clone()),
        }
    }
}

/// What the agent tells its user of a job.
#[derive(Debug)]
pub struct JobNotification {
    pub job_id: String,
    pub version_number: i64,
    pub status: JobStatus,
    pub details: JobDetails,
}

/// What a [`JobNotification`] says.
pub struct JobNotificationView {
    pub job_id: Seq<char>,
    pub version_number: int,
    pub status: JobStatus,
    pub details: JobDetailsView,
}

impl View for JobNotification {
    type V = JobNotificationView;

    open spec fn view(&self) -> JobNotificationView {
        JobNotificationView {
            job_id: self.job_id@,
            version_number: self.version_number as int,
            status: self.status,
            details: self.details@,
        }
    }
}

impl Clone for JobNotification {
    fn clone(&self) -> (copy: Self)
        ensures
            copy@ == self@,
    {
        JobNotification {
            job_id: self.job_id.clone(),
            version_number: self.version_number,
            status: self.status,
            details: self.details.clone(),
        }
    }
}

/// The execution of a job on the thing, as the service reports it.
#[derive(Debug)]
pub struct JobExecution {
    pub job_id: String,
    pub version_number: i64,
    pub status: JobStatus,
    pub job_document: Option<JobDetails>,
}

/// What a [`JobExecution`] says.
pub struct JobExecutionView {
    pub job_id: Seq<char>,
    pub version_number: int,
    pub status: JobStatus,
    pub job_document: Option<JobDetailsView>,
}

/// What an optional value says.
pub open spec fn view_option<T: View>(value: Option<T>) -> Option<T::V> {
    match value {
        Some(v) => Some(v@),
        None => None,
    }
}

/// What the outcome of a call says.
pub open spec fn view_result<T: View, E>(value: Result<T, E>) -> Result<T::V, E> {
    match value {
        Ok(v) => Ok(v@),
        Err(e) => Err(e),
    }
}

impl View for JobExecution {
    type V = JobExecutionView;

    open spec fn view(&self) -> JobExecutionView {
        JobExecutionView {
            job_id: self.job_id@,
            version_number: self.version_number as int,
            status: self.status,
            job_document: view_option(self.job_document),
        }
    }
}

/// How far the execution of a job is, as the service reports it.
#[derive(Clone, Copy, Debug, PartialEq, Eq)]
pub struct JobExecutionState {
    pub version_number: i64,
    pub status: JobStatus,
}

/// Published on `notify-next`: the job that is to be executed next, if any.
#[derive(Debug)]
pub struct NextJobExecutionChanged {
    pub execution: Option<JobExecution>,
}

/// The answer to a [`DescribeJobExecutionRequest`].
#[derive(Debug)]
pub struct DescribeJobExecutionResponse {
    pub execution: Option<JobExecution>,
}

/// The answer to an [`UpdateJobExecutionRequest`].
#[derive(Debug)]
pub struct UpdateJobExecutionResponse {
    pub execution_state: Option<JobExecutionState>,
    pub job_document: Option<JobDetails>,
}

/// The payload of a message, read as the document that its topic stands for. That
/// field is `None` where the payload is not such a document. The other fields are
/// not looked at.
#[derive(Debug, Default)]
pub struct JobPayload {
    pub next_changed: Option<NextJobExecutionChanged>,
    pub described: Option<DescribeJobExecutionResponse>,
    pub updated: Option<UpdateJobExecutionResponse>,
    pub rejected: Option<ErrorResponse>,
}

/// Asks for the details of a job execution.
#[derive(Debug)]
pub struct DescribeJobExecutionRequest {
    pub execution_number: Option<i64>,
    pub include_job_document: Option<bool>,
    pub client_token: ClientToken,
}

/// What a [`DescribeJobExecutionRequest`] says.
pub struct DescribeJobExecutionRequestView {
    pub execution_number: Option<i64>,
    pub include_job_document: Option<bool>,
    pub client_token: Seq<char>,
}

impl View for DescribeJobExecutionRequest {
    type V = DescribeJobExecutionRequestView;

    open spec fn view(&self) -> DescribeJobExecutionRequestView {
        DescribeJobExecutionRequestView {
            execution_number: self.execution_number,
            include_job_document: self.include_job_document,
            client_token: token_text(self.client_token),
        }
    }
}

/// Asks for the list of all jobs that are not finished.
#[derive(Debug)]
pub struct GetPendingJobExecutionsRequest {
    pub client_token: ClientToken,
}

/// What a [`GetPendingJobExecutionsRequest`] says.
pub struct GetPendingJobExecutionsRequestView {
    pub client_token: Seq<char>,
}

impl View for GetPendingJobExecutionsRequest {
    type V = GetPendingJobExecutionsRequestView;

    open spec fn view(&self) -> GetPendingJobExecutionsRequestView {
        GetPendingJobExecutionsRequestView { client_token: token_text(self.client_token) }
    }
}

/// Asks for the next pending job and starts it.
#[derive(Debug)]
pub struct StartNextPendingJobExecutionRequest {
    pub step_timeout_in_minutes: Option<i64>,
    pub client_token: ClientToken,
}

/// What a [`StartNextPendingJobExecutionRequest`] says.
pub struct StartNextPendingJobExecutionRequestView {
    pub step_timeout_in_minutes: Option<i64>,
    pub client_token: Seq<char>,
}

impl View for StartNextPendingJobExecutionRequest {
    type V = StartNextPendingJobExecutionRequestView;

    open spec fn view(&self) -> StartNextPendingJobExecutionRequestView {
        StartNextPendingJobExecutionRequestView {
            step_timeout_in_minutes: self.step_timeout_in_minutes,
            client_token: token_text(self.client_token),
        }
    }
}

/// Reports the status of a job execution.
#[derive(Debug)]
pub struct UpdateJobExecutionRequest {
    pub execution_number: Option<i64>,
    pub expected_version: i64,
    pub include_job_document: Option<bool>,
    pub include_job_execution_state: Option<bool>,
    pub status: JobStatus,
    pub step_timeout_in_minutes: Option<i64>,
    pub client_token: ClientToken,
}

/// What an [`UpdateJobExecutionRequest`] says.
pub struct UpdateJobExecutionRequestView {
    pub execution_number: Option<i64>,
    pub expected_version: int,
    pub include_job_document: Option<bool>,
    pub include_job_execution_state: Option<bool>,
    pub status: JobStatus,
    pub step_timeout_in_minutes: Option<i64>,
    pub client_token: Seq<char>,
}

impl View for UpdateJobExecutionRequest {
    type V = UpdateJobExecutionRequestView;

    open spec fn view(&self) -> UpdateJobExecutionRequestView {
        UpdateJobExecutionRequestView {
            execution_number: self.execution_number,
            expected_version: self.expected_version as int,
            include_job_document: self.include_job_document,
            include_job_execution_state: self.include_job_execution_state,
            status: self.status,
            step_timeout_in_minutes: self.step_timeout_in_minutes,
            client_token: token_text(self.client_token),
        }
    }
}

} // verus!
