//! The agent that fetches an update, block by block.
//!
//! The agent talks to no one itself. Each operation hands back what is to be
//! done next, and takes the outcome in its next step.

use vstd::prelude::*;

use crate::bounded::{
    stream_clone, stream_str, stream_text, topic_texts, topics_new, topics_push, StreamId, TopicList,
};
use crate::jobs::data::{
    view_option, view_result, FileDescription, JobError, JobStatus, OtaJob, OtaJobView,
};
use crate::mqtt::{Publication, PublicationView, QoS, Subscription, SubscriptionView};
use crate::ota::bitmap::{
    block_count, lemma_block_geometry, lemma_outstanding_bounds, lemma_outstanding_clear, outstanding, Bitmap,
};
use crate::ota::config::OtaConfig;
use crate::ota::data::{
    ImageState, OtaEvent, StreamRequest, StreamRequestView, StreamResponse, StreamResponseView,
};
use crate::ota::error::{OtaError, OtaPalError};
use crate::ota::topic::{carries_block, ota_topic, stream_name_fits, OtaTopicType, OtaTopicView};
use crate::text::same_text;
use crate::topic::{levels, thing_path, thing_topic, topic_fits};

verus! {

/// An update in progress.
#[derive(Debug, PartialEq, Eq)]
pub struct OtaState {
    file: FileDescription,
    bitmap: Bitmap,
    stream_name: StreamId,
    total_blocks_remaining: usize,
    request_block_remaining: u32,
    request_momentum: u8,
}

/// What an [`OtaState`] says.
pub struct OtaStateView {
    /// The file that is fetched.
    pub file: FileDescription,
    /// For each block of the file, whether it is still to come.
    pub bitmap: Seq<bool>,
    /// The stream that sends the blocks.
    pub stream_name: Seq<char>,
    /// The number of blocks that are still to come.
    pub total_blocks_remaining: int,
    /// The number of blocks that the last request asked for and that are still
    /// to come.
    pub request_block_remaining: u32,
    /// The number of requests since the last good block.
    pub request_momentum: int,
}

impl View for OtaState {
    type V = OtaStateView;

    closed spec fn view(&self) -> OtaStateView {
        OtaStateView {
            file: self.file,
            bitmap: self.bitmap@,
            stream_name: stream_text(self.stream_name),
            total_blocks_remaining: self.total_blocks_remaining as int,
            request_block_remaining: self.request_block_remaining,
            request_momentum: self.request_momentum as int,
        }
    }
}

impl Clone for OtaState {
    fn clone(&self) -> (copy: Self)
        ensures
            copy@ == self@,
    {
        OtaState {
            file: self.file.clone(),
            bitmap: self.bitmap.clone(),
            stream_name: stream_clone(&self.stream_name),
            total_blocks_remaining: self.total_blocks_remaining,
            request_block_remaining: self.request_block_remaining,
            request_momentum: self.request_momentum,
        }
    }
}

/// Whether an update is in progress.
#[derive(Debug, PartialEq, Eq)]
pub enum AgentState {
    Ready,
    Active(OtaState),
}

/// What an [`AgentState`] says.
pub enum AgentStateView {
    Ready,
    Active(OtaStateView),
}

impl View for AgentState {
    type V = AgentStateView;

    open spec fn view(&self) -> AgentStateView {
        match self {
            AgentState::Ready => AgentStateView::Ready,
            AgentState::Active(state) => AgentStateView::Active(state@),
        }
    }
}

impl Clone for AgentState {
    fn clone(&self) -> (copy: Self)
        ensures
            copy@ == self@,
    {
        match self {
            AgentState::Ready => AgentState::Ready,
            AgentState::Active(state) => AgentState::Active(state.clone()),
        }
    }
}

/// Fetches updates, one at a time.
#[derive(Debug)]
pub struct OtaAgent {
    config: OtaConfig,
    agent_state: AgentState,
    pub image_state: ImageState,
    next_update_percentage: u8,
}

/// What an [`OtaAgent`] knows.
pub struct OtaAgentView {
    pub config: OtaConfig,
    pub agent_state: AgentStateView,
    pub image_state: ImageState,
    /// The progress at which the next report is due, in percent.
    pub next_update_percentage: int,
}

impl View for OtaAgent {
    type V = OtaAgentView;

    closed spec fn view(&self) -> OtaAgentView {
        OtaAgentView {
            config: self.config,
            agent_state: self.agent_state@,
            image_state: self.image_state,
            next_update_percentage: self.next_update_percentage as int,
        }
    }
}

impl OtaStateView {
    /// Whether the update is one that the agent can be in: the blocks are those
    /// of the file, their number is kept track of, and no more requests are
    /// unanswered than may be.
    pub open spec fn wf(self, config: OtaConfig) -> bool {
        &&& config.block_size > 0
        &&& self.file.filesize + config.block_size <= usize::MAX
        &&& self.bitmap.len() == block_count(self.file.filesize as int, config.block_size as int)
        &&& self.total_blocks_remaining == outstanding(self.bitmap)
        &&& 0 <= self.request_momentum <= config.max_request_momentum
    }

    /// The index of the last block of the file.
    pub open spec fn last_block(self) -> int {
        self.bitmap.len() - 1
    }

    /// The size that a block of the file must have.
    pub open spec fn block_len(self, config: OtaConfig, block_id: int) -> int {
        if block_id < self.last_block() {
            config.block_size as int
        } else {
            self.file.filesize - self.last_block() * config.block_size
        }
    }

    /// Whether a block lies in the file and is of the size that it must have.
    pub open spec fn in_range(self, config: OtaConfig, block: StreamResponseView) -> bool {
        &&& 0 <= block.block_id <= self.last_block()
        &&& block.block_size == self.block_len(config, block.block_id)
    }

    /// The progress with `remaining` blocks still to come, in percent. It is 100
    /// after the last block, and 0 after the first if that is not the last.
    pub open spec fn progress_with(self, remaining: int) -> int {
        if remaining == 0 {
            100
        } else {
            ((self.last_block() - remaining) * 100) / self.last_block()
        }
    }

    /// Whether the progress with `remaining` blocks still to come can be
    /// computed: the file has not too many blocks.
    pub open spec fn progress_known(self, remaining: int) -> bool {
        (self.last_block() - remaining) * 100 <= usize::MAX
    }

    /// The update, once a good block has shown that the stream answers.
    pub open spec fn answered(self) -> OtaStateView {
        OtaStateView { request_momentum: 0, ..self }
    }

    /// The update, once a block is stored.
    pub open spec fn stored(self, block_id: int) -> OtaStateView {
        OtaStateView {
            bitmap: self.bitmap.update(block_id, false),
            total_blocks_remaining: self.total_blocks_remaining - 1,
            ..self
        }
    }

    /// The request for the blocks that are still to come.
    pub open spec fn request(self, config: OtaConfig) -> StreamRequestView {
        StreamRequestView {
            client_token: "rdy"@,
            file_id: self.file.fileid,
            block_size: config.block_size,
            block_offset: 0,
            block_bitmap: self.bitmap,
            number_of_blocks: self.request_block_remaining,
        }
    }
}

impl OtaAgentView {
    /// Whether the agent is in a state that it can be in.
    pub open spec fn wf(self) -> bool {
        self.agent_state matches AgentStateView::Active(state) ==> state.wf(self.config)
    }

    /// The update in progress.
    pub open spec fn active(self) -> OtaStateView
        recommends
            self.agent_state is Active,
    {
        self.agent_state->Active_0
    }

    /// The agent, with another state of its update.
    pub open spec fn with_active(self, state: OtaStateView) -> OtaAgentView {
        OtaAgentView { agent_state: AgentStateView::Active(state), ..self }
    }

    /// The agent, without an update in progress.
    pub open spec fn at_rest(self) -> OtaAgentView {
        OtaAgentView { agent_state: AgentStateView::Ready, ..self }
    }

    /// The agent, with a new count of blocks to request.
    pub open spec fn with_request_blocks(self, blocks: u32) -> OtaAgentView {
        self.with_active(OtaStateView { request_block_remaining: blocks, ..self.active() })
    }
}

/// `$aws/things/{thingName}/streams/{streamId}/data/cbor`
pub open spec fn data_path(thing: Seq<char>, stream: Seq<char>) -> Seq<char> {
    thing_path(thing, "/streams/"@, stream, "/data/cbor"@)
}

/// `$aws/things/{thingName}/streams/{streamId}/get/cbor`
pub open spec fn get_path(thing: Seq<char>, stream: Seq<char>) -> Seq<char> {
    thing_path(thing, "/streams/"@, stream, "/get/cbor"@)
}

/// What is to be done next about a message.
#[derive(Debug)]
pub enum OtaStep<E> {
    /// Nothing: this is the outcome, with the progress in percent.
    Done(Result<u8, OtaError<E>>),
    /// Store the block at the offset in the file, and report to
    /// [`OtaAgent::block_written`].
    WriteBlock { file: FileDescription, offset: usize, payload: Vec<u8>, block_id: usize },
    /// The file is complete: close it, and report to [`OtaAgent::file_closed`].
    CloseFile { file: FileDescription, progress: u8 },
    /// Report the status of the job, and hand the outcome to
    /// [`OtaAgent::completion_reported`].
    ReportCompletion { status: JobStatus, progress: u8 },
    /// Report the status of the job, and hand the outcome to
    /// [`OtaAgent::progress_reported`].
    ReportProgress { status: JobStatus, progress: u8 },
    /// Encode the request, hand it to [`OtaAgent::request_encoded`], and the
    /// outcome to [`OtaAgent::blocks_requested`].
    RequestBlocks { request: StreamRequest, progress: u8 },
}

/// What an [`OtaStep`] asks for.
pub enum OtaStepView<E> {
    Done(Result<u8, OtaError<E>>),
    WriteBlock { file: FileDescription, offset: int, payload: Seq<u8>, block_id: int },
    CloseFile { file: FileDescription, progress: int },
    ReportCompletion { status: JobStatus, progress: int },
    ReportProgress { status: JobStatus, progress: int },
    RequestBlocks { request: StreamRequestView, progress: int },
}

impl<E> View for OtaStep<E> {
    type V = OtaStepView<E>;

    open spec fn view(&self) -> OtaStepView<E> {
        match self {
            OtaStep::Done(result) => OtaStepView::Done(*result),
            OtaStep::WriteBlock { file, offset, payload, block_id } => OtaStepView::WriteBlock {
                file: *file,
                offset: *offset as int,
                payload: payload@,
                block_id: *block_id as int,
            },
            OtaStep::CloseFile { file, progress } => OtaStepView::CloseFile {
                file: *file,
                progress: *progress as int,
            },
            OtaStep::ReportCompletion { status, progress } => OtaStepView::ReportCompletion {
                status: *status,
                progress: *progress as int,
            },
            OtaStep::ReportProgress { status, progress } => OtaStepView::ReportProgress {
                status: *status,
                progress: *progress as int,
            },
            OtaStep::RequestBlocks { request, progress } => OtaStepView::RequestBlocks {
                request: request@,
                progress: *progress as int,
            },
        }
    }
}

/// The request for blocks that the agent makes, if it may make one.
pub open spec fn blocks_request<E>(agent: OtaAgentView) -> Result<StreamRequestView, OtaError<E>> {
    match agent.agent_state {
        AgentStateView::Ready => Err(OtaError::NoOtaActive),
        AgentStateView::Active(state) => if state.request_momentum
            >= agent.config.max_request_momentum {
            Err(OtaError::MaxMomentumAbort(agent.config.max_request_momentum))
        } else {
            Ok(state.request(agent.config))
        },
    }
}

/// What follows a stored block that is not the last, and the report on it, if
/// one was due: the next request, where all blocks of the last one have come.
pub open spec fn next_request<E>(agent: OtaAgentView, progress: int) -> (
    OtaAgentView,
    OtaStepView<E>,
) {
    if agent.active().request_block_remaining > 1 {
        (
            agent.with_request_blocks((agent.active().request_block_remaining - 1) as u32),
            OtaStepView::Done(Ok(progress as u8)),
        )
    } else {
        let after = agent.with_request_blocks(agent.config.max_blocks_per_request);
        (
            after,
            match blocks_request(after) {
                Ok(request) => OtaStepView::RequestBlocks { request, progress },
                Err(e) => OtaStepView::Done(Err(e)),
            },
        )
    }
}

/// The outcome of a block that the stream sends, where there is an update in
/// progress. A block that has come before is not stored again.
pub open spec fn block_outcome<E>(agent: OtaAgentView, response: Option<StreamResponseView>) -> (
    OtaAgentView,
    OtaStepView<E>,
) {
    let state = agent.active();
    match response {
        None => (agent, OtaStepView::Done(Err(OtaError::BadData))),
        Some(block) => if block.file_id != state.file.fileid {
            (agent, OtaStepView::Done(Err(OtaError::BadFileHandle)))
        } else if !state.in_range(agent.config, block) {
            (agent, OtaStepView::Done(Err(OtaError::BlockOutOfRange)))
        } else if !state.bitmap[block.block_id] {
            (
                agent.with_active(state.answered()),
                OtaStepView::Done(
                    Ok(state.progress_with(state.total_blocks_remaining) as u8),
                ),
            )
        } else {
            (
                agent.with_active(state.answered()),
                OtaStepView::WriteBlock {
                    file: state.file,
                    offset: block.block_id * agent.config.block_size,
                    payload: block.block_payload,
                    block_id: block.block_id,
                },
            )
        },
    }
}

/// The outcome of a message: the agent, the time after which the timer is to go
/// off where it is to be started anew, and the next step.
pub open spec fn message_outcome<E>(
    agent: OtaAgentView,
    topic: Option<OtaTopicView>,
    response: Option<StreamResponseView>,
) -> (OtaAgentView, Option<u32>, OtaStepView<E>) {
    match agent.agent_state {
        AgentStateView::Ready => (agent, None, OtaStepView::Done(Err(OtaError::NoOtaActive))),
        AgentStateView::Active(_) => match topic {
            None | Some(OtaTopicView::Invalid) => (
                agent,
                None,
                OtaStepView::Done(Err(OtaError::InvalidTopic)),
            ),
            Some(OtaTopicView::CborData(_)) => {
                let (after, step) = block_outcome(agent, response);
                (after, Some(agent.config.request_wait_ms), step)
            },
            Some(OtaTopicView::CborGetRejected(_)) => (
                agent.at_rest(),
                None,
                OtaStepView::Done(Err(OtaError::RequestRejected)),
            ),
        },
    }
}

/// The outcome of storing a block.
pub open spec fn written_outcome<E>(
    agent: OtaAgentView,
    block_id: int,
    result: Result<(), OtaPalError<E>>,
) -> (OtaAgentView, OtaStepView<E>) {
    match result {
        Err(e) => (agent, OtaStepView::Done(Err(OtaError::PalError(e)))),
        Ok(_) => {
            let state = agent.active().stored(block_id);
            let after = agent.with_active(state);
            let progress = state.progress_with(state.total_blocks_remaining);
            if state.total_blocks_remaining == 0 {
                (after, OtaStepView::CloseFile { file: state.file, progress })
            } else if progress == agent.next_update_percentage {
                (after, OtaStepView::ReportProgress { status: JobStatus::InProgress, progress })
            } else {
                next_request(after, progress)
            }
        },
    }
}

/// How the job is to be reported once its file is complete, by whether the file
/// could be closed and its signature is valid.
pub open spec fn closed_outcome<E>(progress: int, result: Result<(), OtaPalError<E>>) -> OtaStepView<
    E,
> {
    OtaStepView::ReportCompletion {
        status: if result is Ok {
            JobStatus::Succeeded
        } else {
            JobStatus::Failed
        },
        progress,
    }
}

/// The outcome of the last block, once the end of the job is reported.
pub open spec fn completed_outcome<E>(progress: u8, result: Result<(), JobError>) -> OtaStepView<E> {
    OtaStepView::Done(
        match result {
            Ok(_) => Ok(progress),
            Err(e) => Err(OtaError::Jobs(e)),
        },
    )
}

/// The outcome of a report of the progress.
pub open spec fn progress_outcome<E>(
    agent: OtaAgentView,
    progress: int,
    result: Result<(), JobError>,
) -> (OtaAgentView, OtaStepView<E>) {
    match result {
        Err(e) => (agent, OtaStepView::Done(Err(OtaError::Jobs(e)))),
        Ok(_) => next_request(
            OtaAgentView {
                next_update_percentage: agent.next_update_percentage
                    + agent.config.percentage_change_between_status_update,
                ..agent
            },
            progress,
        ),
    }
}

/// A message for the stream, and the time to wait for its answer.
#[derive(Debug)]
pub struct BlocksRequest {
    pub publication: Publication<Vec<u8>>,
    pub wait_ms: u32,
}

/// What a [`BlocksRequest`] says.
pub struct BlocksRequestView {
    pub publication: PublicationView<Seq<u8>>,
    pub wait_ms: u32,
}

impl View for BlocksRequest {
    type V = BlocksRequestView;

    open spec fn view(&self) -> BlocksRequestView {
        BlocksRequestView { publication: self.publication@, wait_ms: self.wait_ms }
    }
}

/// The outcome of encoding a request for blocks. Each request counts as
/// unanswered until a good block comes.
pub open spec fn encoded_outcome<E>(
    agent: OtaAgentView,
    thing: Seq<char>,
    encoded: Option<Seq<u8>>,
) -> (OtaAgentView, Result<BlocksRequestView, OtaError<E>>) {
    let state = agent.active();
    match encoded {
        None => (agent, Err(OtaError::BadData)),
        Some(payload) => if !topic_fits(get_path(thing, state.stream_name)) {
            (agent, Err(OtaError::Formatting))
        } else {
            (
                agent.with_active(
                    OtaStateView { request_momentum: state.request_momentum + 1, ..state },
                ),
                Ok(
                    BlocksRequestView {
                        publication: PublicationView {
                            topic: get_path(thing, state.stream_name),
                            qos: QoS::AtMostOnce,
                            payload,
                        },
                        wait_ms: agent.config.request_wait_ms,
                    },
                ),
            )
        },
    }
}

/// The outcome of the timer. A request that may not be made is dropped.
pub open spec fn timer_outcome(agent: OtaAgentView, elapsed: bool) -> (
    OtaAgentView,
    Option<StreamRequestView>,
) {
    if elapsed && agent.agent_state is Active && agent.active().total_blocks_remaining > 0 {
        let after = agent.with_request_blocks(agent.config.max_blocks_per_request);
        (
            after,
            match blocks_request::<()>(after) {
                Ok(request) => Some(request),
                Err(_) => None,
            },
        )
    } else {
        (agent, None)
    }
}

/// What is to be done next to give up an update.
#[derive(Debug)]
pub enum CloseStep {
    /// Nothing: there is no update in progress.
    Closed,
    /// Unsubscribe from the topics, and report to [`OtaAgent::unsubscribed`].
    Unsubscribe(TopicList),
}

/// What a [`CloseStep`] asks for.
pub enum CloseStepView {
    Closed,
    Unsubscribe(Seq<Seq<char>>),
}

impl View for CloseStep {
    type V = CloseStepView;

    open spec fn view(&self) -> CloseStepView {
        match self {
            CloseStep::Closed => CloseStepView::Closed,
            CloseStep::Unsubscribe(topics) => CloseStepView::Unsubscribe(topic_texts(*topics)),
        }
    }
}

/// The first step of giving up an update.
pub open spec fn close_outcome<E>(agent: OtaAgentView, thing: Seq<char>) -> Result<
    CloseStepView,
    OtaError<E>,
> {
    match agent.agent_state {
        AgentStateView::Ready => Ok(CloseStepView::Closed),
        AgentStateView::Active(state) => if topic_fits(data_path(thing, state.stream_name)) {
            Ok(CloseStepView::Unsubscribe(seq![data_path(thing, state.stream_name)]))
        } else {
            Err(OtaError::Formatting)
        },
    }
}

/// What the platform is to be told when a job has ended with the given status.
pub open spec fn final_event(status: JobStatus) -> OtaEvent {
    if status is Succeeded {
        OtaEvent::Activate
    } else {
        OtaEvent::Fail
    }
}

/// What is to be done next about a new job.
#[derive(Debug)]
pub enum JobStep {
    /// Nothing: the job is already in progress.
    InProgress,
    /// Subscribe, and report to [`OtaAgent::job_subscribed`], with the job.
    Subscribe { subscription: Subscription, job: OtaJob },
}

/// What a [`JobStep`] asks for.
pub enum JobStepView {
    InProgress,
    Subscribe { subscription: SubscriptionView, job: OtaJobView },
}

impl View for JobStep {
    type V = JobStepView;

    open spec fn view(&self) -> JobStepView {
        match self {
            JobStep::InProgress => JobStepView::InProgress,
            JobStep::Subscribe { subscription, job } => JobStepView::Subscribe {
                subscription: subscription@,
                job: job@,
            },
        }
    }
}

/// The first step of a new job. Only one job is handled at a time.
pub open spec fn job_outcome<E>(agent: OtaAgentView, thing: Seq<char>, job: OtaJobView) -> Result<
    JobStepView,
    OtaError<E>,
> {
    match agent.agent_state {
        AgentStateView::Active(state) => if state.stream_name == job.streamname {
            Ok(JobStepView::InProgress)
        } else {
            Err(OtaError::Busy)
        },
        AgentStateView::Ready => if topic_fits(data_path(thing, job.streamname)) {
            Ok(
                JobStepView::Subscribe {
                    subscription: SubscriptionView {
                        topics: seq![data_path(thing, job.streamname)],
                        qos: QoS::AtMostOnce,
                    },
                    job,
                },
            )
        } else {
            Err(OtaError::Formatting)
        },
    }
}

/// The number of blocks that the first request of an update asks for: as many
/// as one request may ask for, but no more than 128 KiB. The block size is taken
/// in 32 bits.
pub open spec fn first_request_blocks(config: OtaConfig) -> u32 {
    let most = 131072int / (config.block_size as int % 0x1_0000_0000);
    if config.max_blocks_per_request <= most {
        config.max_blocks_per_request
    } else {
        most as u32
    }
}

/// Whether the first file of a job can be cut into blocks, and the number of
/// blocks of the first request computed.
pub open spec fn job_admissible(config: OtaConfig, job: OtaJobView) -> bool {
    &&& job.files.len() > 0
    &&& config.block_size as int % 0x1_0000_0000 != 0
    &&& job.files[0].filesize + config.block_size <= usize::MAX
}

/// The update that a job starts: all blocks of its first file are to come.
pub open spec fn started(config: OtaConfig, job: OtaJobView) -> OtaStateView {
    let blocks = block_count(job.files[0].filesize as int, config.block_size as int);
    OtaStateView {
        file: job.files[0],
        bitmap: Seq::new(blocks as nat, |i: int| true),
        stream_name: job.streamname,
        total_blocks_remaining: blocks,
        request_block_remaining: first_request_blocks(config),
        request_momentum: 0,
    }
}

/// The outcome of creating the file of a job.
pub open spec fn created_outcome<E>(
    agent: OtaAgentView,
    job: OtaJobView,
    result: Result<(), OtaPalError<E>>,
) -> (OtaAgentView, Result<StreamRequestView, OtaError<E>>) {
    match result {
        Err(e) => (agent, Err(OtaError::PalError(e))),
        Ok(_) => {
            let after = agent.with_active(started(agent.config, job));
            (after, blocks_request(after))
        },
    }
}

/// Whether a block that comes can be told apart from others and its progress
/// computed: the file is not empty, and for a block that has come before, the
/// progress is known.
pub open spec fn block_admissible(agent: OtaAgentView, response: Option<StreamResponseView>) -> bool {
    let state = agent.active();
    match response {
        Some(block) => block.file_id == state.file.fileid ==> {
            &&& state.file.filesize > 0
            &&& state.in_range(agent.config, block) && !state.bitmap[block.block_id]
                ==> state.progress_known(state.total_blocks_remaining)
        },
        None => true,
    }
}

/// Whether the agent can act on a message: its stream has a name that is short
/// enough, and a block that it carries can be taken.
pub open spec fn message_admissible(
    agent: OtaAgentView,
    topic: Option<OtaTopicView>,
    response: Option<StreamResponseView>,
) -> bool {
    agent.agent_state is Active ==> {
        &&& stream_name_fits(topic)
        &&& carries_block(topic) ==> block_admissible(agent, response)
    }
}

/// Whether a block can be stored: it is one that is still to come, and the
/// progress is known once it is stored.
pub open spec fn storable(agent: OtaAgentView, block_id: int) -> bool {
    &&& agent.agent_state is Active
    &&& 0 <= block_id < agent.active().bitmap.len()
    &&& agent.active().bitmap[block_id]
    &&& agent.active().progress_known(agent.active().total_blocks_remaining - 1)
}

impl OtaState {
    /// The index of the last block of the file.
    fn last_block(&self, config: OtaConfig) -> (last: usize)
        requires
            self@.wf(config),
            self@.file.filesize > 0,
        ensures
            last == self@.last_block(),
    {
        proof {
            lemma_block_geometry(self.file.filesize as int, config.block_size as int);
        }
        (self.file.filesize + config.block_size - 1) / config.block_size - 1
    }

    /// Whether a block lies in the file and is of the size that it must have.
    fn in_range(&self, config: OtaConfig, block: &StreamResponse) -> (is: bool)
        requires
            self@.wf(config),
            self@.file.filesize > 0,
        ensures
            is == self@.in_range(config, block@),
    {
        let last_block: usize = self.last_block(config);
        proof {
            lemma_block_geometry(self.file.filesize as int, config.block_size as int);
        }
        if block.block_id < last_block {
            block.block_size == config.block_size
        } else {
            block.block_id == last_block && block.block_size == self.file.filesize - last_block
                * config.block_size
        }
    }

    /// Whether the progress with `remaining` blocks still to come can be
    /// computed.
    fn knows_progress(&self, config: OtaConfig, remaining: usize) -> (knows: bool)
        requires
            self@.wf(config),
            self@.file.filesize > 0,
            remaining <= self@.last_block(),
        ensures
            knows == self@.progress_known(remaining as int),
    {
        self.last_block(config) - remaining <= usize::MAX / 100
    }

    /// The progress, in percent.
    fn progress(&self, config: OtaConfig) -> (progress: u8)
        requires
            self@.wf(config),
            self@.file.filesize > 0,
            self@.total_blocks_remaining <= self@.last_block(),
            self@.progress_known(self@.total_blocks_remaining),
        ensures
            progress == self@.progress_with(self@.total_blocks_remaining),
            progress <= 100,
    {
        let remaining: usize = self.total_blocks_remaining;
        if remaining == 0 {
            return 100;
        }
        let last_block: usize = self.last_block(config);
        proof {
            lemma_progress_bounds(last_block as int, remaining as int);
        }
        let progress: usize = ((last_block - remaining) * 100) / last_block;
        progress as u8
    }
}

/// The progress lies between 0 and 100.
proof fn lemma_progress_bounds(last: int, remaining: int)
    requires
        last > 0,
        0 <= remaining <= last,
    ensures
        0 <= ((last - remaining) * 100) / last <= 100,
{
    let done = (last - remaining) * 100;
    assert(0 <= done <= last * 100);
    vstd::arithmetic::div_mod::lemma_div_is_ordered(0, done, last);
    vstd::arithmetic::div_mod::lemma_div_is_ordered(done, last * 100, last);
    vstd::arithmetic::div_mod::lemma_div_multiples_vanish(100, last);
    vstd::arithmetic::div_mod::lemma_div_of0(last);
    assert(last * 100 == 100 * last);
}

/// A block begins within its file.
proof fn lemma_block_offset(state: OtaStateView, config: OtaConfig, block_id: int)
    requires
        state.wf(config),
        state.file.filesize > 0,
        0 <= block_id <= state.last_block(),
    ensures
        0 <= block_id * config.block_size < state.file.filesize,
{
    let (size, last) = (config.block_size as int, state.last_block());
    lemma_block_geometry(state.file.filesize as int, size);
    assert(0 <= block_id * size <= last * size) by (nonlinear_arith)
        requires
            0 <= block_id <= last,
            size > 0,
    ;
}

impl OtaAgent {
    /// Creates an agent without an update in progress.
    pub fn new(config: OtaConfig) -> (agent: Self)
        ensures
            agent@ == (OtaAgentView {
                config,
                agent_state: AgentStateView::Ready,
                image_state: ImageState::Unknown,
                next_update_percentage: 0,
            }),
            agent@.wf(),
    {
        OtaAgent {
            config,
            agent_state: AgentState::Ready,
            image_state: ImageState::Unknown,
            next_update_percentage: 0,
        }
    }

    /// Whether an update is in progress.
    pub fn is_active(&self) -> (active: bool)
        ensures
            active == (self@.agent_state is Active),
    {
        match &self.agent_state {
            AgentState::Ready => false,
            AgentState::Active(_) => true,
        }
    }

    /// The settings of the agent.
    pub fn config(&self) -> (config: OtaConfig)
        ensures
            config == self@.config,
    {
        self.config
    }

    /// Whether a message on a topic is to carry a block for the agent, so that its
    /// payload has to be read.
    pub fn expects_block(&self, thing_name: &str, topic_name: &str) -> (expects: bool)
        ensures
            expects == (self@.agent_state is Active && carries_block(
                ota_topic(thing_name@, levels(topic_name@)),
            )),
    {
        self.is_active() && OtaTopicType::carries_block(thing_name, topic_name)
    }

    /// Whether the agent can act on a message.
    pub fn admits_message(
        &self,
        thing_name: &str,
        topic_name: &str,
        response: &Option<StreamResponse>,
    ) -> (admits: bool)
        requires
            self@.wf(),
        ensures
            admits == message_admissible(
                self@,
                ota_topic(thing_name@, levels(topic_name@)),
                view_option(*response),
            ),
    {
        let state = match &self.agent_state {
            AgentState::Active(state) => state,
            AgentState::Ready => return true,
        };
        if !OtaTopicType::admits(thing_name, topic_name) {
            return false;
        }
        match OtaTopicType::check(thing_name, topic_name) {
            Some(OtaTopicType::CborData(_)) => {},
            _ => return true,
        }
        let block = match response {
            Some(block) => block,
            None => return true,
        };
        if state.file.fileid != block.file_id {
            return true;
        }
        if state.file.filesize == 0 {
            return false;
        }
        proof {
            lemma_outstanding_bounds(state.bitmap@);
        }
        if !state.in_range(self.config, block) || state.bitmap.get(block.block_id) {
            return true;
        }
        state.knows_progress(self.config, state.total_blocks_remaining)
    }

    /// Whether a block can be stored.
    pub fn admits_block(&self, block_id: usize) -> (admits: bool)
        requires
            self@.wf(),
        ensures
            admits == storable(self@, block_id as int),
    {
        let state = match &self.agent_state {
            AgentState::Active(state) => state,
            AgentState::Ready => return false,
        };
        if state.file.filesize == 0 {
            proof {
                lemma_block_geometry(0, self.config.block_size as int);
            }
            return false;
        }
        if block_id > state.last_block(self.config) || !state.bitmap.get(block_id) {
            return false;
        }
        proof {
            lemma_outstanding_bounds(state.bitmap@);
            lemma_outstanding_clear(state.bitmap@, block_id as int);
        }
        state.knows_progress(self.config, state.total_blocks_remaining - 1)
    }

    /// Whether the progress at which the next report is due can be moved on.
    pub fn admits_report(&self) -> (admits: bool)
        ensures
            admits == (self@.next_update_percentage
                + self@.config.percentage_change_between_status_update <= u8::MAX),
    {
        self.next_update_percentage <= u8::MAX - self.config.percentage_change_between_status_update
    }

    /// Whether an update can be started from a job.
    pub fn admits_job(&self, job: &OtaJob) -> (admits: bool)
        ensures
            admits == job_admissible(self@.config, job@),
    {
        job.files.len() > 0 && low_bits(self.config.block_size) != 0 && job.files[0].filesize
            <= usize::MAX - self.config.block_size
    }

    /// Makes the request for the blocks that are still to come. Where too many
    /// requests went unanswered, the stream is taken to be out of reach.
    fn publish_get_stream_message<E>(&self) -> (result: Result<StreamRequest, OtaError<E>>)
        ensures
            view_result(result) == blocks_request::<E>(self@),
    {
        match &self.agent_state {
            AgentState::Active(state) => {
                if state.request_momentum >= self.config.max_request_momentum {
                    return Err(OtaError::MaxMomentumAbort(self.config.max_request_momentum));
                }
                Ok(
                    StreamRequest {
                        client_token: "rdy",
                        file_id: state.file.fileid,
                        block_size: self.config.block_size,
                        block_offset: 0,
                        block_bitmap: state.bitmap.clone(),
                        number_of_blocks: state.request_block_remaining,
                    },
                )
            },
            AgentState::Ready => Err(OtaError::NoOtaActive),
        }
    }

    /// Takes the encoded request for blocks, `None` where it could not be
    /// encoded, and hands back the message for the stream.
    pub fn request_encoded<E>(&mut self, thing_name: &str, encoded: Option<Vec<u8>>) -> (result: Result<
        BlocksRequest,
        OtaError<E>,
    >)
        requires
            old(self)@.wf(),
            old(self)@.agent_state is Active,
            blocks_request::<E>(old(self)@) is Ok,
        ensures
            (final(self)@, view_result(result)) == encoded_outcome::<E>(
                old(self)@,
                thing_name@,
                view_option(encoded),
            ),
            final(self)@.wf(),
    {
        match &mut self.agent_state {
            AgentState::Active(state) => {
                let payload = match encoded {
                    Some(bytes) => bytes,
                    None => return Err(OtaError::BadData),
                };
                let topic = match thing_topic(
                    thing_name,
                    "/streams/",
                    stream_str(&state.stream_name),
                    "/get/cbor",
                ) {
                    Ok(topic) => topic,
                    Err(()) => return Err(OtaError::Formatting),
                };
                state.request_momentum = state.request_momentum + 1;
                Ok(
                    BlocksRequest {
                        publication: Publication { topic, qos: QoS::AtMostOnce, payload },
                        wait_ms: self.config.request_wait_ms,
                    },
                )
            },
            AgentState::Ready => Err(OtaError::NoOtaActive),
        }
    }

    /// Counts a stored block against the last request, and makes the next one
    /// where all blocks of the last one have come.
    fn next_blocks<E>(&mut self, progress: u8) -> (step: OtaStep<E>)
        requires
            old(self)@.wf(),
            old(self)@.agent_state is Active,
        ensures
            (final(self)@, step@) == next_request::<E>(old(self)@, progress as int),
            final(self)@.wf(),
    {
        match &mut self.agent_state {
            AgentState::Active(state) => {
                if state.request_block_remaining > 1 {
                    state.request_block_remaining = state.request_block_remaining - 1;
                    return OtaStep::Done(Ok(progress));
                }
                state.request_block_remaining = self.config.max_blocks_per_request;
            },
            AgentState::Ready => {},
        }
        match self.publish_get_stream_message() {
            Ok(request) => OtaStep::RequestBlocks { request, progress },
            Err(e) => OtaStep::Done(Err(e)),
        }
    }

    /// Acts on a message. `response` is its payload, `None` where that is not a
    /// block of a file. Where a time is handed back, the timer is to be started
    /// anew, to go off after so many milliseconds, before the next step.
    pub fn handle_message<E>(
        &mut self,
        thing_name: &str,
        topic_name: &str,
        response: Option<StreamResponse>,
    ) -> (result: (Option<u32>, OtaStep<E>))
        requires
            old(self)@.wf(),
            message_admissible(
                old(self)@,
                ota_topic(thing_name@, levels(topic_name@)),
                view_option(response),
            ),
        ensures
            (final(self)@, result.0, result.1@) == message_outcome::<E>(
                old(self)@,
                ota_topic(thing_name@, levels(topic_name@)),
                view_option(response),
            ),
            final(self)@.wf(),
    {
        if !self.is_active() {
            return (None, OtaStep::Done(Err(OtaError::NoOtaActive)));
        }
        match OtaTopicType::check(thing_name, topic_name) {
            None | Some(OtaTopicType::Invalid) => (
                None,
                OtaStep::Done(Err(OtaError::InvalidTopic)),
            ),
            Some(OtaTopicType::CborData(_)) => {
                let step = self.handle_block(response);
                (Some(self.config.request_wait_ms), step)
            },
            Some(OtaTopicType::CborGetRejected(_)) => {
                self.agent_state = AgentState::Ready;
                (None, OtaStep::Done(Err(OtaError::RequestRejected)))
            },
        }
    }

    /// Acts on a block that the stream sends.
    fn handle_block<E>(&mut self, response: Option<StreamResponse>) -> (step: OtaStep<E>)
        requires
            old(self)@.wf(),
            old(self)@.agent_state is Active,
            block_admissible(old(self)@, view_option(response)),
        ensures
            (final(self)@, step@) == block_outcome::<E>(old(self)@, view_option(response)),
            final(self)@.wf(),
    {
        let block = match response {
            Some(block) => block,
            None => return OtaStep::Done(Err(OtaError::BadData)),
        };
        let config: OtaConfig = self.config;
        match &mut self.agent_state {
            AgentState::Active(state) => {
                if state.file.fileid != block.file_id {
                    return OtaStep::Done(Err(OtaError::BadFileHandle));
                }
                if !state.in_range(config, &block) {
                    return OtaStep::Done(Err(OtaError::BlockOutOfRange));
                }
                // A good block shows that the stream answers.
                state.request_momentum = 0;
                proof {
                    lemma_outstanding_bounds(state.bitmap@);
                    lemma_block_offset(state@, config, block.block_id as int);
                }
                if !state.bitmap.get(block.block_id) {
                    return OtaStep::Done(Ok(state.progress(config)));
                }
                OtaStep::WriteBlock {
                    file: state.file.clone(),
                    offset: block.block_id * config.block_size,
                    payload: block.block_payload,
                    block_id: block.block_id,
                }
            },
            AgentState::Ready => OtaStep::Done(Err(OtaError::NoOtaActive)),
        }
    }

    /// Takes note of whether a block was stored.
    pub fn block_written<E>(&mut self, block_id: usize, result: Result<(), OtaPalError<E>>) -> (step:
        OtaStep<E>)
        requires
            old(self)@.wf(),
            result is Ok ==> storable(old(self)@, block_id as int),
        ensures
            (final(self)@, step@) == written_outcome(old(self)@, block_id as int, result),
            final(self)@.wf(),
    {
        match result {
            Ok(()) => {},
            Err(e) => return OtaStep::Done(Err(OtaError::from(e))),
        }
        let config: OtaConfig = self.config;
        let next_update_percentage: u8 = self.next_update_percentage;
        let progress: u8 = match &mut self.agent_state {
            AgentState::Active(state) => {
                proof {
                    lemma_block_geometry(state.file.filesize as int, config.block_size as int);
                    lemma_outstanding_bounds(state.bitmap@);
                    lemma_outstanding_clear(state.bitmap@, block_id as int);
                }
                state.bitmap.set(block_id, false);
                state.total_blocks_remaining = state.total_blocks_remaining - 1;
                let progress: u8 = state.progress(config);
                if state.total_blocks_remaining == 0 {
                    return OtaStep::CloseFile { file: state.file.clone(), progress };
                }
                progress
            },
            AgentState::Ready => 0,
        };
        if progress == next_update_percentage {
            OtaStep::ReportProgress { status: JobStatus::InProgress, progress }
        } else {
            self.next_blocks(progress)
        }
    }

    /// Decides how the job is to be reported, by whether the file could be closed
    /// and its signature is valid.
    pub fn file_closed<E>(&self, progress: u8, result: Result<(), OtaPalError<E>>) -> (step: OtaStep<
        E,
    >)
        ensures
            step@ == closed_outcome(progress as int, result),
    {
        let status = match result {
            Ok(()) => JobStatus::Succeeded,
            Err(_) => JobStatus::Failed,
        };
        OtaStep::ReportCompletion { status, progress }
    }

    /// Ends the handling of the last block with the outcome of its report.
    pub fn completion_reported<E>(&self, progress: u8, result: Result<(), JobError>) -> (step:
        OtaStep<E>)
        ensures
            step@ == completed_outcome::<E>(progress, result),
    {
        match result {
            Ok(()) => OtaStep::Done(Ok(progress)),
            Err(e) => OtaStep::Done(Err(OtaError::from(e))),
        }
    }

    /// Goes on after a report of the progress. The next one is due when the
    /// progress has grown by the configured number of percents.
    pub fn progress_reported<E>(&mut self, progress: u8, result: Result<(), JobError>) -> (step:
        OtaStep<E>)
        requires
            old(self)@.wf(),
            old(self)@.agent_state is Active,
            result is Ok ==> old(self)@.next_update_percentage
                + old(self)@.config.percentage_change_between_status_update <= u8::MAX,
        ensures
            (final(self)@, step@) == progress_outcome::<E>(old(self)@, progress as int, result),
            final(self)@.wf(),
    {
        match result {
            Ok(()) => {},
            Err(e) => return OtaStep::Done(Err(OtaError::from(e))),
        }
        self.next_update_percentage = self.next_update_percentage
            + self.config.percentage_change_between_status_update;
        self.next_blocks(progress)
    }

    /// Ends the handling of a block with the outcome of the request for the next
    /// ones.
    pub fn blocks_requested<E>(&self, progress: u8, result: Result<(), OtaError<E>>) -> (step:
        OtaStep<E>)
        ensures
            step@ == OtaStepView::<E>::Done(
                match result {
                    Ok(_) => Ok(progress),
                    Err(e) => Err(e),
                },
            ),
    {
        match result {
            Ok(()) => OtaStep::Done(Ok(progress)),
            Err(e) => OtaStep::Done(Err(e)),
        }
    }

    /// Asks for the blocks that are still to come, once the timer has gone off.
    /// To be called when it does, or regularly.
    pub fn request_timer_irq(&mut self, elapsed: bool) -> (request: Option<StreamRequest>)
        requires
            old(self)@.wf(),
        ensures
            (final(self)@, view_option(request)) == timer_outcome(old(self)@, elapsed),
            final(self)@.wf(),
    {
        if !elapsed {
            return None;
        }
        match &mut self.agent_state {
            AgentState::Active(state) => {
                if state.total_blocks_remaining == 0 {
                    return None;
                }
                state.request_block_remaining = self.config.max_blocks_per_request;
            },
            AgentState::Ready => return None,
        }
        match self.publish_get_stream_message::<()>() {
            Ok(request) => Some(request),
            Err(_) => None,
        }
    }

    /// Begins to give up the update in progress, if there is one.
    pub fn close<E>(&self, thing_name: &str) -> (result: Result<CloseStep, OtaError<E>>)
        ensures
            view_result(result) == close_outcome::<E>(self@, thing_name@),
    {
        match &self.agent_state {
            AgentState::Ready => Ok(CloseStep::Closed),
            AgentState::Active(state) => {
                match Self::data_topics(thing_name, stream_str(&state.stream_name)) {
                    Ok(topics) => Ok(CloseStep::Unsubscribe(topics)),
                    Err(e) => Err(e),
                }
            },
        }
    }

    /// The list of the one topic on which a stream sends its blocks.
    fn data_topics<E>(thing_name: &str, stream: &str) -> (result: Result<TopicList, OtaError<E>>)
        ensures
            match result {
                Ok(topics) => topic_fits(data_path(thing_name@, stream@)) && topic_texts(topics)
                    == seq![data_path(thing_name@, stream@)],
                Err(e) => !topic_fits(data_path(thing_name@, stream@)) && e
                    == OtaError::<E>::Formatting,
            },
    {
        let topic = match thing_topic(thing_name, "/streams/", stream, "/data/cbor") {
            Ok(topic) => topic,
            Err(()) => return Err(OtaError::Formatting),
        };
        let mut topics = topics_new();
        if topics_push(&mut topics, topic).is_err() {
            return Err(OtaError::Memory);
        }
        assert(topic_texts(topics) =~= seq![data_path(thing_name@, stream@)]);
        Ok(topics)
    }

    /// Goes on after the topics of the update are unsubscribed from: the platform
    /// is to abort the file that is handed back, and the outcome to be reported
    /// to [`OtaAgent::file_aborted`].
    pub fn unsubscribed<E>(&self, done: bool) -> (result: Result<FileDescription, OtaError<E>>)
        requires
            self@.agent_state is Active,
        ensures
            match result {
                Ok(file) => done && file == self@.active().file,
                Err(e) => !done && e == OtaError::<E>::Mqtt,
            },
    {
        if !done {
            return Err(OtaError::Mqtt);
        }
        match &self.agent_state {
            AgentState::Active(state) => Ok(state.file.clone()),
            AgentState::Ready => Err(OtaError::NoOtaActive),
        }
    }

    /// Ends the update, once its file is aborted.
    pub fn file_aborted<E>(&mut self, result: Result<(), OtaPalError<E>>) -> (outcome: Result<
        (),
        OtaError<E>,
    >)
        ensures
            match outcome {
                Ok(()) => result is Ok && final(self)@ == old(self)@.at_rest(),
                Err(e) => result is Err && e == OtaError::PalError(result->Err_0) && final(self)@
                    == old(self)@,
            },
    {
        match result {
            Ok(()) => {
                self.agent_state = AgentState::Ready;
                Ok(())
            },
            Err(e) => Err(OtaError::from(e)),
        }
    }

    /// Begins to give up the update, as [`OtaAgent::close`] does, and says what
    /// the platform is to be told once it is given up. The outcome of that is to
    /// be reported to [`OtaAgent::job_finalized`].
    pub fn finalize_ota_job<E>(&self, thing_name: &str, status: JobStatus) -> (result: Result<
        (CloseStep, OtaEvent),
        OtaError<E>,
    >)
        ensures
            match result {
                Ok((step, event)) => {
                    &&& close_outcome::<E>(self@, thing_name@) == Ok::<CloseStepView, OtaError<E>>(
                        step@,
                    )
                    &&& event == final_event(status)
                },
                Err(e) => close_outcome::<E>(self@, thing_name@) == Err::<
                    CloseStepView,
                    OtaError<E>,
                >(e),
            },
    {
        let event = match status {
            JobStatus::Succeeded => OtaEvent::Activate,
            _ => OtaEvent::Fail,
        };
        match self.close(thing_name) {
            Ok(step) => Ok((step, event)),
            Err(e) => Err(e),
        }
    }

    /// Ends the job with the outcome of telling the platform.
    pub fn job_finalized<E>(&self, result: Result<(), OtaPalError<E>>) -> (outcome: Result<
        (),
        OtaError<E>,
    >)
        ensures
            match result {
                Ok(_) => outcome == Ok::<(), OtaError<E>>(()),
                Err(e) => outcome == Err::<(), OtaError<E>>(OtaError::PalError(e)),
            },
    {
        match result {
            Ok(()) => Ok(()),
            Err(e) => Err(OtaError::from(e)),
        }
    }

    /// Takes up a new job, if there is none in progress.
    pub fn process_ota_job<E>(&self, thing_name: &str, job: OtaJob) -> (result: Result<
        JobStep,
        OtaError<E>,
    >)
        ensures
            view_result(result) == job_outcome::<E>(self@, thing_name@, job@),
    {
        match &self.agent_state {
            AgentState::Active(state) => {
                return if same_text(stream_str(&state.stream_name), stream_str(&job.streamname)) {
                    Ok(JobStep::InProgress)
                } else {
                    // There is no handling of jobs in parallel.
                    Err(OtaError::Busy)
                };
            },
            AgentState::Ready => {},
        }
        match Self::data_topics(thing_name, stream_str(&job.streamname)) {
            Ok(topics) => Ok(
                JobStep::Subscribe {
                    subscription: Subscription { topics, qos: QoS::AtMostOnce },
                    job,
                },
            ),
            Err(e) => Err(e),
        }
    }

    /// Goes on after the topics of a new job are subscribed to: the platform is
    /// to create the file that is handed back, and the outcome to be reported to
    /// [`OtaAgent::file_created`].
    pub fn job_subscribed<E>(&self, job: &OtaJob, done: bool) -> (result: Result<
        FileDescription,
        OtaError<E>,
    >)
        requires
            done ==> job@.files.len() > 0,
        ensures
            match result {
                Ok(file) => done && file == job@.files[0],
                Err(e) => !done && e == OtaError::<E>::Mqtt,
            },
    {
        if !done {
            return Err(OtaError::Mqtt);
        }
        Ok(job.files[0].clone())
    }

    /// Starts the update, once its file is created. The request that is handed
    /// back is to be encoded, and handed to [`OtaAgent::request_encoded`].
    pub fn file_created<E>(&mut self, job: OtaJob, result: Result<(), OtaPalError<E>>) -> (request: Result<
        StreamRequest,
        OtaError<E>,
    >)
        requires
            old(self)@.agent_state is Ready,
            result is Ok ==> job_admissible(old(self)@.config, job@),
        ensures
            (final(self)@, view_result(request)) == created_outcome(old(self)@, job@, result),
            final(self)@.wf(),
    {
        match result {
            Ok(()) => {},
            Err(e) => return Err(OtaError::from(e)),
        }
        let block_size: usize = self.config.block_size;
        let file = job.files[0].clone();
        let bitmap = Bitmap::new(file.filesize, block_size);
        let total_blocks_remaining: usize = (file.filesize + block_size - 1) / block_size;
        let most: u32 = (128 * 1024) / low_bits(block_size);
        let number_of_blocks: u32 = if self.config.max_blocks_per_request <= most {
            self.config.max_blocks_per_request
        } else {
            most
        };
        self.agent_state = AgentState::Active(
            OtaState {
                file,
                bitmap,
                stream_name: job.streamname,
                total_blocks_remaining,
                request_block_remaining: number_of_blocks,
                request_momentum: 0,
            },
        );
        self.publish_get_stream_message()
    }
}

/// The low 32 bits of a size.
fn low_bits(size: usize) -> (low: u32)
    ensures
        low == size as int % 0x1_0000_0000,
{
    let wide: u64 = size as u64;
    assert(wide as u32 == wide % 0x1_0000_0000) by (bit_vector);
    #[verifier::truncate]
    let low: u32 = wide as u32;
    low
}

} // verus!
