//! The agent that follows the jobs of a thing.
//!
//! The agent sends nothing itself: what it wants published comes back as a
//! [`Publication`], and the caller reports what became of it.

use vstd::prelude::*;

use crate::bounded::{
    token_new, token_text, token_write, token_write_number, topic_texts, topics_new,
    topics_push, ClientToken, TopicList,
};
use crate::consts::MAX_CLIENT_TOKEN_LEN;
use crate::jobs::data::{
    view_option, view_result, DescribeJobExecutionRequest, DescribeJobExecutionRequestView,
    GetPendingJobExecutionsRequest, GetPendingJobExecutionsRequestView, JobError, JobExecution,
    JobExecutionView, JobNotification, JobNotificationView, JobPayload, JobStatus,
    StartNextPendingJobExecutionRequest, StartNextPendingJobExecutionRequestView,
    UpdateJobExecutionRequest, UpdateJobExecutionRequestView, UpdateJobExecutionResponse,
};
use crate::jobs::topic::{job_topic, JobTopicType, JobTopicView};
use crate::mqtt::{Publication, PublicationView, PublishOutcome, QoS, Subscription, SubscriptionView};
use crate::text::{decimal, lemma_encode_concat, utf8_len};
use crate::topic::{levels, thing_path, thing_topic, topic_fits, topic_levels};

verus! {

/// Follows the jobs of a thing.
#[derive(Debug)]
pub struct JobAgent {
    request_cnt: u32,
    active_job: Option<JobNotification>,
}

/// What a [`JobAgent`] knows.
pub struct JobAgentView {
    /// The number of client tokens that were handed out.
    pub request_cnt: nat,
    /// The job that is being executed.
    pub active_job: Option<JobNotificationView>,
}

impl View for JobAgent {
    type V = JobAgentView;

    closed spec fn view(&self) -> JobAgentView {
        JobAgentView {
            request_cnt: self.request_cnt as nat,
            active_job: view_option(self.active_job),
        }
    }
}

/// What the caller has to do about a message.
#[derive(Debug)]
pub enum JobAction {
    /// Nothing. The notification, if there is one, is for the user.
    Notify(Option<JobNotification>),
    /// Publish the request and report what became of it to
    /// [`JobAgent::message_reported`].
    Publish(Publication<UpdateJobExecutionRequest>),
}

/// What a [`JobAction`] asks for.
pub enum JobActionView {
    Notify(Option<JobNotificationView>),
    Publish(PublicationView<UpdateJobExecutionRequestView>),
}

impl View for JobAction {
    type V = JobActionView;

    open spec fn view(&self) -> JobActionView {
        match self {
            JobAction::Notify(notification) => JobActionView::Notify(view_option(*notification)),
            JobAction::Publish(publication) => JobActionView::Publish(publication@),
        }
    }
}

/// The client token of the request with the given number: `{number}:{thingName}`.
pub open spec fn client_token(number: nat, thing: Seq<char>) -> Seq<char> {
    decimal(number) + ":"@ + thing
}

/// Whether the client token of the next request is short enough.
pub open spec fn token_fits(agent: JobAgentView, thing: Seq<char>) -> bool {
    utf8_len(client_token(agent.request_cnt, thing)) <= MAX_CLIENT_TOKEN_LEN
}

/// The agent, once it has handed out a client token.
pub open spec fn token_taken(agent: JobAgentView) -> JobAgentView {
    JobAgentView { request_cnt: agent.request_cnt + 1, ..agent }
}

/// Whether the next request can be counted. One that gets no client token is not
/// counted.
pub open spec fn request_admissible(agent: JobAgentView, thing: Seq<char>) -> bool {
    token_fits(agent, thing) ==> agent.request_cnt < u32::MAX
}

/// `$aws/things/{thingName}/jobs/{jobId}/get`
pub open spec fn describe_path(thing: Seq<char>, job_id: Seq<char>) -> Seq<char> {
    thing_path(thing, "/jobs/"@, job_id, "/get"@)
}

/// `$aws/things/{thingName}/jobs/{jobId}/update`
pub open spec fn update_path(thing: Seq<char>, job_id: Seq<char>) -> Seq<char> {
    thing_path(thing, "/jobs/"@, job_id, "/update"@)
}

/// `$aws/things/{thingName}/jobs/get`
pub open spec fn get_pending_path(thing: Seq<char>) -> Seq<char> {
    thing_path(thing, "/jobs/"@, "get"@, ""@)
}

/// `$aws/things/{thingName}/jobs/start-next`
pub open spec fn start_next_path(thing: Seq<char>) -> Seq<char> {
    thing_path(thing, "/jobs/"@, "start-next"@, ""@)
}

/// The topics on which the agent listens: the answers to its `get` and `update`
/// requests, for any job, and the notifications of the next job.
pub open spec fn job_subscriptions(thing: Seq<char>) -> Seq<Seq<char>> {
    seq![
        thing_path(thing, "/jobs/"@, "+/get/+"@, ""@),
        thing_path(thing, "/jobs/"@, "+/update/+"@, ""@),
        thing_path(thing, "/jobs/"@, "notify-next"@, ""@),
    ]
}

/// Whether every topic on which the agent listens is short enough.
pub open spec fn subscriptions_fit(thing: Seq<char>) -> bool {
    forall|i: int|
        0 <= i < job_subscriptions(thing).len() ==> topic_fits(#[trigger] job_subscriptions(thing)[i])
}

/// The outcome of a request to `path`: the message with `payload`, where its
/// topic and its client token are both short enough.
pub open spec fn request_outcome<V>(
    agent: JobAgentView,
    thing: Seq<char>,
    path: Seq<char>,
    payload: V,
) -> (JobAgentView, Result<PublicationView<V>, JobError>) {
    if topic_fits(path) && token_fits(agent, thing) {
        (
            token_taken(agent),
            Ok(PublicationView { topic: path, qos: QoS::AtLeastOnce, payload }),
        )
    } else {
        (agent, Err(JobError::Formatting))
    }
}

/// The status report on `job` that carries the given client token.
pub open spec fn update_request(
    job: JobNotificationView,
    execution_number: Option<i64>,
    step_timeout_in_minutes: Option<i64>,
    client_token: Seq<char>,
) -> UpdateJobExecutionRequestView {
    UpdateJobExecutionRequestView {
        execution_number,
        expected_version: job.version_number,
        include_job_document: Some(true),
        include_job_execution_state: Some(true),
        status: job.status,
        step_timeout_in_minutes,
        client_token,
    }
}

/// The outcome of a report on the active job. A client token is used up even
/// where there is no job to report on, or its topic is too long.
pub open spec fn update_outcome(
    agent: JobAgentView,
    thing: Seq<char>,
    execution_number: Option<i64>,
    step_timeout_in_minutes: Option<i64>,
) -> (JobAgentView, Result<PublicationView<UpdateJobExecutionRequestView>, JobError>) {
    if !token_fits(agent, thing) {
        (agent, Err(JobError::Formatting))
    } else {
        let result = match agent.active_job {
            None => Err(JobError::NoActiveJob),
            Some(job) => if topic_fits(update_path(thing, job.job_id)) {
                Ok(
                    PublicationView {
                        topic: update_path(thing, job.job_id),
                        qos: QoS::AtLeastOnce,
                        payload: update_request(
                            job,
                            execution_number,
                            step_timeout_in_minutes,
                            client_token(agent.request_cnt, thing),
                        ),
                    },
                )
            } else {
                Err(JobError::Formatting)
            },
        };
        (token_taken(agent), result)
    }
}

/// The agent, with `status` as the status of its active job.
pub open spec fn with_status(agent: JobAgentView, status: JobStatus) -> JobAgentView {
    JobAgentView {
        active_job: match agent.active_job {
            Some(job) => Some(JobNotificationView { status, ..job }),
            None => None,
        },
        ..agent
    }
}

/// The agent, once a report on its active job has reached the service.
pub open spec fn report_sent(agent: JobAgentView) -> JobAgentView {
    JobAgentView {
        active_job: match agent.active_job {
            Some(job) => Some(
                JobNotificationView { version_number: job.version_number + 1, ..job },
            ),
            None => None,
        },
        ..agent
    }
}

/// The agent, once it knows what became of a report on its active job. Only one
/// that was sent makes a new version.
pub open spec fn published(agent: JobAgentView, outcome: PublishOutcome) -> JobAgentView {
    if outcome is Sent {
        report_sent(agent)
    } else {
        agent
    }
}

/// Whether an execution makes the agent take up a job: there is no active job,
/// the execution comes with its document, and it is queued or in progress.
pub open spec fn takes_up(agent: JobAgentView, execution: JobExecutionView) -> bool {
    &&& agent.active_job is None
    &&& execution.job_document is Some
    &&& execution.status is Queued || execution.status is InProgress
}

/// The agent, with the job of `execution` as its active job. A queued job goes
/// into progress. One that is in progress, though the agent does not know of it,
/// was lost track of and has failed.
pub open spec fn taken_up(agent: JobAgentView, execution: JobExecutionView) -> JobAgentView {
    JobAgentView {
        active_job: Some(
            JobNotificationView {
                job_id: execution.job_id,
                version_number: execution.version_number,
                status: if execution.status is Queued {
                    JobStatus::InProgress
                } else {
                    JobStatus::Failed
                },
                details: execution.job_document->0,
            },
        ),
        ..agent
    }
}

/// Whether an execution puts an end to the active job.
pub open spec fn cancels(agent: JobAgentView, execution: JobExecutionView) -> bool {
    &&& agent.active_job is Some
    &&& execution.status is Canceled || execution.status is Removed
}

/// The outcome of a reported execution. A job that is taken up is reported on at
/// once. A canceled job is given up, and the user is told. An execution in
/// progress, where there is an active job, has the user told of that job.
pub open spec fn execution_outcome(
    agent: JobAgentView,
    thing: Seq<char>,
    execution: JobExecutionView,
) -> (JobAgentView, Result<JobActionView, JobError>) {
    if takes_up(agent, execution) {
        let (after, report) = update_outcome(taken_up(agent, execution), thing, None, None);
        (
            after,
            match report {
                Ok(publication) => Ok(JobActionView::Publish(publication)),
                Err(e) => Err(e),
            },
        )
    } else if cancels(agent, execution) {
        let told = JobNotificationView { status: JobStatus::Canceled, ..agent.active_job->0 };
        (JobAgentView { active_job: None, ..agent }, Ok(JobActionView::Notify(Some(told))))
    } else if execution.status is InProgress {
        (agent, Ok(JobActionView::Notify(agent.active_job)))
    } else {
        (agent, Ok(JobActionView::Notify(None)))
    }
}

/// The execution that a message on a topic reports, if it reports one.
pub open spec fn reported_execution(topic: Option<JobTopicView>, payload: JobPayload) -> Option<
    JobExecutionView,
> {
    match topic {
        Some(JobTopicView::NotifyNext) => match payload.next_changed {
            Some(response) => view_option(response.execution),
            None => None,
        },
        Some(JobTopicView::GetAccepted(_)) => match payload.described {
            Some(response) => view_option(response.execution),
            None => None,
        },
        _ => None,
    }
}

/// Whether the agent can act on a message: if it takes up a job on that account,
/// the report on it can be counted.
pub open spec fn message_admissible(
    agent: JobAgentView,
    thing: Seq<char>,
    topic: Option<JobTopicView>,
    payload: JobPayload,
) -> bool {
    match reported_execution(topic, payload) {
        Some(execution) => takes_up(agent, execution) ==> request_admissible(agent, thing),
        None => true,
    }
}

/// The agent, once the service has accepted a report on the job with the given
/// id. The version number never goes back.
pub open spec fn update_accepted(
    agent: JobAgentView,
    job_id: Seq<char>,
    response: UpdateJobExecutionResponse,
) -> JobAgentView {
    let state = response.execution_state->0;
    JobAgentView {
        active_job: if state.status is Canceled || state.status is Removed {
            None
        } else {
            Some(
                JobNotificationView {
                    job_id,
                    version_number: match agent.active_job {
                        Some(job) => if state.version_number > job.version_number {
                            state.version_number as int
                        } else {
                            job.version_number
                        },
                        None => state.version_number as int,
                    },
                    status: state.status,
                    details: response.job_document->0@,
                },
            )
        },
        ..agent
    }
}

/// The outcome of a message on a topic.
pub open spec fn message_outcome(
    agent: JobAgentView,
    thing: Seq<char>,
    topic: Option<JobTopicView>,
    payload: JobPayload,
) -> (JobAgentView, Result<JobActionView, JobError>) {
    match topic {
        None | Some(JobTopicView::Notify) => (agent, Ok(JobActionView::Notify(None))),
        Some(JobTopicView::NotifyNext) => if payload.next_changed is None {
            (agent, Err(JobError::Deserialize))
        } else {
            match reported_execution(topic, payload) {
                Some(execution) => execution_outcome(agent, thing, execution),
                None => (agent, Ok(JobActionView::Notify(None))),
            }
        },
        Some(JobTopicView::GetAccepted(_)) => match reported_execution(topic, payload) {
            Some(execution) => execution_outcome(agent, thing, execution),
            None => (agent, Ok(JobActionView::Notify(None))),
        },
        Some(JobTopicView::UpdateAccepted(job_id)) => match payload.updated {
            None => (agent, Err(JobError::InvalidTopic)),
            Some(response) => if response.execution_state is Some && response.job_document is Some {
                let after = update_accepted(agent, job_id, response);
                (after, Ok(JobActionView::Notify(after.active_job)))
            } else {
                (agent, Ok(JobActionView::Notify(None)))
            },
        },
        Some(JobTopicView::GetRejected(_)) | Some(JobTopicView::UpdateRejected(_)) => (
            agent,
            match payload.rejected {
                None => Err(JobError::Deserialize),
                Some(response) => Err(JobError::Rejected(response)),
            },
        ),
        Some(JobTopicView::Invalid) => (agent, Err(JobError::InvalidTopic)),
    }
}

impl JobAgent {
    /// Creates an agent that knows of no job.
    pub fn new() -> (agent: Self)
        ensures
            agent@ == (JobAgentView { request_cnt: 0, active_job: None }),
    {
        JobAgent { request_cnt: 0, active_job: None }
    }

    /// The number of client tokens that were handed out.
    pub fn request_count(&self) -> (count: u32)
        ensures
            count == self@.request_cnt,
    {
        self.request_cnt
    }

    /// The job that is being executed.
    pub fn active_job(&self) -> (job: Option<&JobNotification>)
        ensures
            match job {
                Some(j) => self@.active_job == Some(j@),
                None => self@.active_job is None,
            },
    {
        match &self.active_job {
            Some(job) => Some(job),
            None => None,
        }
    }

    /// Whether the next report can be counted, if its client token is short
    /// enough.
    pub fn admits_report(&self, thing_name: &str) -> (admits: bool)
        ensures
            admits == request_admissible(self@, thing_name@),
    {
        self.request_cnt < u32::MAX || self.next_token(thing_name).is_err()
    }

    /// Whether the next request can be counted, if it goes out to the topic with
    /// the given `name` and `suffix`.
    fn admits_request(&self, thing_name: &str, name: &str, suffix: &str) -> (admits: bool)
        ensures
            admits == (topic_fits(thing_path(thing_name@, "/jobs/"@, name@, suffix@))
                ==> request_admissible(self@, thing_name@)),
    {
        self.admits_report(thing_name) || thing_topic(thing_name, "/jobs/", name, suffix).is_err()
    }

    /// Whether [`JobAgent::describe_job_execution`] can be counted.
    pub fn admits_describe(&self, thing_name: &str, job_id: &str) -> (admits: bool)
        ensures
            admits == (topic_fits(describe_path(thing_name@, job_id@)) ==> request_admissible(
                self@,
                thing_name@,
            )),
    {
        self.admits_request(thing_name, job_id, "/get")
    }

    /// Whether [`JobAgent::get_pending_job_executions`] can be counted.
    pub fn admits_get_pending(&self, thing_name: &str) -> (admits: bool)
        ensures
            admits == (topic_fits(get_pending_path(thing_name@)) ==> request_admissible(
                self@,
                thing_name@,
            )),
    {
        self.admits_request(thing_name, "get", "")
    }

    /// Whether [`JobAgent::start_next_pending_job_execution`] can be counted.
    pub fn admits_start_next(&self, thing_name: &str) -> (admits: bool)
        ensures
            admits == (topic_fits(start_next_path(thing_name@)) ==> request_admissible(
                self@,
                thing_name@,
            )),
    {
        self.admits_request(thing_name, "start-next", "")
    }

    /// Whether the agent can act on a message.
    pub fn admits_message(&self, thing_name: &str, topic_name: &str, payload: &JobPayload) -> (admits:
        bool)
        ensures
            admits == message_admissible(
                self@,
                thing_name@,
                job_topic(thing_name@, levels(topic_name@)),
                *payload,
            ),
    {
        if self.admits_report(thing_name) || self.active_job.is_some() {
            return true;
        }
        let reported = match JobTopicType::check(thing_name, &topic_levels(topic_name)) {
            Some(JobTopicType::NotifyNext) => match &payload.next_changed {
                Some(response) => &response.execution,
                None => return true,
            },
            Some(JobTopicType::GetAccepted(_)) => match &payload.described {
                Some(response) => &response.execution,
                None => return true,
            },
            _ => return true,
        };
        match reported {
            Some(execution) => match execution.status {
                JobStatus::Queued | JobStatus::InProgress => execution.job_document.is_none(),
                _ => true,
            },
            None => true,
        }
    }

    /// The client token of the next request, `{requestNumber}:{thingName}`.
    fn next_token(&self, thing_name: &str) -> (result: Result<ClientToken, JobError>)
        ensures
            match result {
                Ok(token) => {
                    &&& token_fits(self@, thing_name@)
                    &&& token_text(token) == client_token(self@.request_cnt, thing_name@)
                },
                Err(e) => !token_fits(self@, thing_name@) && e == JobError::Formatting,
            },
    {
        let mut token = token_new();
        proof {
            let number = decimal(self@.request_cnt);
            assert(Seq::<char>::empty() + number =~= number);
            lemma_encode_concat(number, ":"@);
            lemma_encode_concat(number + ":"@, thing_name@);
        }
        if token_write_number(&mut token, self.request_cnt).is_err() {
            return Err(JobError::Formatting);
        }
        if token_write(&mut token, ":").is_err() {
            return Err(JobError::Formatting);
        }
        if token_write(&mut token, thing_name).is_err() {
            return Err(JobError::Formatting);
        }
        Ok(token)
    }

    /// Hands out a client token, and counts it.
    pub fn get_client_token(&mut self, thing_name: &str) -> (result: Result<ClientToken, JobError>)
        requires
            request_admissible(old(self)@, thing_name@),
        ensures
            match result {
                Ok(token) => {
                    &&& token_fits(old(self)@, thing_name@)
                    &&& token_text(token) == client_token(old(self)@.request_cnt, thing_name@)
                    &&& final(self)@ == token_taken(old(self)@)
                },
                Err(e) => {
                    &&& !token_fits(old(self)@, thing_name@)
                    &&& e == JobError::Formatting
                    &&& final(self)@ == old(self)@
                },
            },
    {
        let token = match self.next_token(thing_name) {
            Ok(token) => token,
            Err(e) => return Err(e),
        };
        self.request_cnt = self.request_cnt + 1;
        Ok(token)
    }

    /// Asks for the details of a job execution.
    pub fn describe_job_execution(
        &mut self,
        thing_name: &str,
        job_id: &str,
        execution_number: Option<i64>,
        include_job_document: Option<bool>,
    ) -> (result: Result<Publication<DescribeJobExecutionRequest>, JobError>)
        requires
            topic_fits(describe_path(thing_name@, job_id@)) ==> request_admissible(
                old(self)@,
                thing_name@,
            ),
        ensures
            (final(self)@, view_result(result)) == request_outcome(
                old(self)@,
                thing_name@,
                describe_path(thing_name@, job_id@),
                (DescribeJobExecutionRequestView {
                    execution_number,
                    include_job_document,
                    client_token: client_token(old(self)@.request_cnt, thing_name@),
                }),
            ),
    {
        let topic = match thing_topic(thing_name, "/jobs/", job_id, "/get") {
            Ok(topic) => topic,
            Err(()) => return Err(JobError::Formatting),
        };
        let client_token = match self.get_client_token(thing_name) {
            Ok(token) => token,
            Err(e) => return Err(e),
        };
        Ok(
            Publication {
                topic,
                qos: QoS::AtLeastOnce,
                payload: DescribeJobExecutionRequest {
                    execution_number,
                    include_job_document,
                    client_token,
                },
            },
        )
    }

    /// Asks for the list of all jobs that are not finished.
    pub fn get_pending_job_executions(&mut self, thing_name: &str) -> (result: Result<
        Publication<GetPendingJobExecutionsRequest>,
        JobError,
    >)
        requires
            topic_fits(get_pending_path(thing_name@)) ==> request_admissible(
                old(self)@,
                thing_name@,
            ),
        ensures
            (final(self)@, view_result(result)) == request_outcome(
                old(self)@,
                thing_name@,
                get_pending_path(thing_name@),
                (GetPendingJobExecutionsRequestView {
                    client_token: client_token(old(self)@.request_cnt, thing_name@),
                }),
            ),
    {
        let topic = match thing_topic(thing_name, "/jobs/", "get", "") {
            Ok(topic) => topic,
            Err(()) => return Err(JobError::Formatting),
        };
        let client_token = match self.get_client_token(thing_name) {
            Ok(token) => token,
            Err(e) => return Err(e),
        };
        Ok(
            Publication {
                topic,
                qos: QoS::AtLeastOnce,
                payload: GetPendingJobExecutionsRequest { client_token },
            },
        )
    }

    /// Asks for the next pending job and starts it.
    pub fn start_next_pending_job_execution(
        &mut self,
        thing_name: &str,
        step_timeout_in_minutes: Option<i64>,
    ) -> (result: Result<Publication<StartNextPendingJobExecutionRequest>, JobError>)
        requires
            topic_fits(start_next_path(thing_name@)) ==> request_admissible(
                old(self)@,
                thing_name@,
            ),
        ensures
            (final(self)@, view_result(result)) == request_outcome(
                old(self)@,
                thing_name@,
                start_next_path(thing_name@),
                (StartNextPendingJobExecutionRequestView {
                    step_timeout_in_minutes,
                    client_token: client_token(old(self)@.request_cnt, thing_name@),
                }),
            ),
    {
        let topic = match thing_topic(thing_name, "/jobs/", "start-next", "") {
            Ok(topic) => topic,
            Err(()) => return Err(JobError::Formatting),
        };
        let client_token = match self.get_client_token(thing_name) {
            Ok(token) => token,
            Err(e) => return Err(e),
        };
        Ok(
            Publication {
                topic,
                qos: QoS::AtLeastOnce,
                payload: StartNextPendingJobExecutionRequest {
                    step_timeout_in_minutes,
                    client_token,
                },
            },
        )
    }

    /// Reports on the active job. The job document and the state of the job
    /// execution are always asked for.
    fn update_job_execution_internal(
        &mut self,
        thing_name: &str,
        execution_number: Option<i64>,
        step_timeout_in_minutes: Option<i64>,
    ) -> (result: Result<Publication<UpdateJobExecutionRequest>, JobError>)
        requires
            request_admissible(old(self)@, thing_name@),
        ensures
            (final(self)@, view_result(result)) == update_outcome(
                old(self)@,
                thing_name@,
                execution_number,
                step_timeout_in_minutes,
            ),
    {
        let client_token = match self.get_client_token(thing_name) {
            Ok(token) => token,
            Err(e) => return Err(e),
        };
        match &self.active_job {
            Some(active_job) => {
                let topic = match thing_topic(
                    thing_name,
                    "/jobs/",
                    active_job.job_id.as_str(),
                    "/update",
                ) {
                    Ok(topic) => topic,
                    Err(()) => return Err(JobError::Formatting),
                };
                Ok(
                    Publication {
                        topic,
                        qos: QoS::AtLeastOnce,
                        payload: UpdateJobExecutionRequest {
                            execution_number,
                            expected_version: active_job.version_number,
                            include_job_document: Some(true),
                            include_job_execution_state: Some(true),
                            status: active_job.status,
                            step_timeout_in_minutes,
                            client_token,
                        },
                    },
                )
            },
            None => Err(JobError::NoActiveJob),
        }
    }

    /// Sets the status of the active job and reports it. What becomes of the
    /// report is to be told to [`JobAgent::update_published`].
    pub fn update_job_execution(&mut self, thing_name: &str, status: JobStatus) -> (result: Result<
        Publication<UpdateJobExecutionRequest>,
        JobError,
    >)
        requires
            request_admissible(old(self)@, thing_name@),
        ensures
            (final(self)@, view_result(result)) == update_outcome(
                with_status(old(self)@, status),
                thing_name@,
                None,
                None,
            ),
    {
        match &mut self.active_job {
            Some(active_job) => {
                active_job.status = status;
            },
            None => {},
        }
        self.update_job_execution_internal(thing_name, None, None)
    }

    /// Takes note of what became of a report on the active job. The service
    /// counts each report that reaches it as a new version of the execution.
    pub fn update_published(&mut self, outcome: PublishOutcome) -> (result: Result<(), JobError>)
        requires
            outcome is Sent ==> old(self)@.active_job is Some
                && old(self)@.active_job->0.version_number < i64::MAX,
        ensures
            final(self)@ == published(old(self)@, outcome),
            match result {
                Ok(()) => outcome.error() is None,
                Err(e) => outcome.error() == Some(e),
            },
    {
        let result = outcome.into_result();
        if result.is_ok() {
            match &mut self.active_job {
                Some(active_job) => {
                    active_job.version_number = active_job.version_number + 1;
                },
                None => {},
            }
        }
        result
    }

    /// Takes note of what became of the report that a message had the agent make,
    /// and ends the handling of that message: there is nothing to tell the user.
    pub fn message_reported(&mut self, outcome: PublishOutcome) -> (result: Result<
        Option<JobNotification>,
        JobError,
    >)
        requires
            outcome is Sent ==> old(self)@.active_job is Some
                && old(self)@.active_job->0.version_number < i64::MAX,
        ensures
            final(self)@ == published(old(self)@, outcome),
            match result {
                Ok(notification) => notification is None && outcome.error() is None,
                Err(e) => outcome.error() == Some(e),
            },
    {
        match self.update_published(outcome) {
            Ok(()) => Ok(None),
            Err(e) => Err(e),
        }
    }

    /// The topics on which the agent listens.
    fn subscription_topics(thing_name: &str) -> (result: Result<TopicList, JobError>)
        ensures
            match result {
                Ok(topics) => subscriptions_fit(thing_name@) && topic_texts(topics)
                    == job_subscriptions(thing_name@),
                Err(e) => !subscriptions_fit(thing_name@) && e == JobError::Formatting,
            },
    {
        let ghost paths = job_subscriptions(thing_name@);
        let mut topics = topics_new();
        match thing_topic(thing_name, "/jobs/", "+/get/+", "") {
            Ok(topic) => {
                if topics_push(&mut topics, topic).is_err() {
                    return Err(JobError::Memory);
                }
            },
            Err(()) => {
                assert(!topic_fits(paths[0]));
                return Err(JobError::Formatting);
            },
        }
        match thing_topic(thing_name, "/jobs/", "+/update/+", "") {
            Ok(topic) => {
                if topics_push(&mut topics, topic).is_err() {
                    return Err(JobError::Memory);
                }
            },
            Err(()) => {
                assert(!topic_fits(paths[1]));
                return Err(JobError::Formatting);
            },
        }
        match thing_topic(thing_name, "/jobs/", "notify-next", "") {
            Ok(topic) => {
                if topics_push(&mut topics, topic).is_err() {
                    return Err(JobError::Memory);
                }
            },
            Err(()) => {
                assert(!topic_fits(paths[2]));
                return Err(JobError::Formatting);
            },
        }
        assert(topic_texts(topics) =~= paths);
        Ok(topics)
    }

    /// Asks for a subscription to the topics on which the agent listens. Whether
    /// the client took it is to be reported to [`JobAgent::subscribed`].
    pub fn subscribe_to_jobs(&self, thing_name: &str) -> (result: Result<Subscription, JobError>)
        ensures
            match result {
                Ok(subscription) => subscriptions_fit(thing_name@) && subscription@ == (
                SubscriptionView {
                    topics: job_subscriptions(thing_name@),
                    qos: QoS::AtLeastOnce,
                }),
                Err(e) => !subscriptions_fit(thing_name@) && e == JobError::Formatting,
            },
    {
        match Self::subscription_topics(thing_name) {
            Ok(topics) => Ok(Subscription { topics, qos: QoS::AtLeastOnce }),
            Err(e) => Err(e),
        }
    }

    /// Ends the subscription, or its giving up, with whether the client took it.
    pub fn subscribed(&self, done: bool) -> (result: Result<(), JobError>)
        ensures
            match result {
                Ok(()) => done,
                Err(e) => !done && e == JobError::Mqtt,
            },
    {
        if done {
            Ok(())
        } else {
            Err(JobError::Mqtt)
        }
    }

    /// The topics of the subscription that is to be given up. Whether the client
    /// took it is to be reported to [`JobAgent::subscribed`].
    pub fn unsubscribe_from_jobs(&self, thing_name: &str) -> (result: Result<TopicList, JobError>)
        ensures
            match result {
                Ok(topics) => subscriptions_fit(thing_name@) && topic_texts(topics)
                    == job_subscriptions(thing_name@),
                Err(e) => !subscriptions_fit(thing_name@) && e == JobError::Formatting,
            },
    {
        Self::subscription_topics(thing_name)
    }

    /// Acts on an execution that the service reports.
    fn handle_job_execution(&mut self, thing_name: &str, execution: JobExecution) -> (result: Result<
        JobAction,
        JobError,
    >)
        requires
            takes_up(old(self)@, execution@) ==> request_admissible(old(self)@, thing_name@),
        ensures
            (final(self)@, view_result(result)) == execution_outcome(
                old(self)@,
                thing_name@,
                execution@,
            ),
    {
        let status = match execution.status {
            // A new job is available, and there is none in progress: it goes into
            // progress, and is active once the report is accepted.
            JobStatus::Queued => JobStatus::InProgress,
            // The service takes the job to be in progress. If it is not active,
            // it was lost track of.
            JobStatus::InProgress => JobStatus::Failed,
            // The active job is canceled.
            JobStatus::Canceled | JobStatus::Removed => {
                return match self.active_job.take() {
                    Some(job) => Ok(
                        JobAction::Notify(
                            Some(JobNotification { status: JobStatus::Canceled, ..job }),
                        ),
                    ),
                    None => Ok(JobAction::Notify(None)),
                };
            },
            _ => return Ok(JobAction::Notify(None)),
        };
        if self.active_job.is_some() {
            return match execution.status {
                JobStatus::InProgress => Ok(JobAction::Notify(self.active_job_copy())),
                _ => Ok(JobAction::Notify(None)),
            };
        }
        match execution.job_document {
            Some(details) => {
                self.active_job = Some(
                    JobNotification {
                        job_id: execution.job_id,
                        version_number: execution.version_number,
                        status,
                        details,
                    },
                );
                match self.update_job_execution_internal(thing_name, None, None) {
                    Ok(publication) => Ok(JobAction::Publish(publication)),
                    Err(e) => Err(e),
                }
            },
            None => Ok(JobAction::Notify(None)),
        }
    }

    /// A copy of the active job.
    fn active_job_copy(&self) -> (copy: Option<JobNotification>)
        ensures
            view_option(copy) == self@.active_job,
    {
        match &self.active_job {
            Some(job) => Some(job.clone()),
            None => None,
        }
    }

    /// Acts on a message. A message on a topic that is not a job topic of the
    /// thing is left alone.
    pub fn handle_message(&mut self, thing_name: &str, topic_name: &str, payload: JobPayload) -> (result: Result<
        JobAction,
        JobError,
    >)
        requires
            message_admissible(
                old(self)@,
                thing_name@,
                job_topic(thing_name@, levels(topic_name@)),
                payload,
            ),
        ensures
            (final(self)@, view_result(result)) == message_outcome(
                old(self)@,
                thing_name@,
                job_topic(thing_name@, levels(topic_name@)),
                payload,
            ),
    {
        match JobTopicType::check(thing_name, &topic_levels(topic_name)) {
            None => Ok(JobAction::Notify(None)),
            Some(JobTopicType::NotifyNext) => match payload.next_changed {
                Some(response) => match response.execution {
                    Some(execution) => self.handle_job_execution(thing_name, execution),
                    // The queue is empty.
                    None => Ok(JobAction::Notify(None)),
                },
                None => Err(JobError::Deserialize),
            },
            // The next job is announced on `notify-next` as well.
            Some(JobTopicType::Notify) => Ok(JobAction::Notify(None)),
            Some(JobTopicType::GetAccepted(_)) => match payload.described {
                Some(response) => match response.execution {
                    Some(execution) => self.handle_job_execution(thing_name, execution),
                    None => Ok(JobAction::Notify(None)),
                },
                // The job document is of an unknown kind.
                None => Ok(JobAction::Notify(None)),
            },
            Some(JobTopicType::UpdateAccepted(job_id)) => match payload.updated {
                Some(response) => self.handle_update_accepted(job_id, response),
                None => Err(JobError::InvalidTopic),
            },
            Some(JobTopicType::GetRejected(_)) | Some(JobTopicType::UpdateRejected(_)) => {
                match payload.rejected {
                    Some(response) => Err(JobError::Rejected(response)),
                    None => Err(JobError::Deserialize),
                }
            },
            Some(JobTopicType::Invalid) => Err(JobError::InvalidTopic),
        }
    }

    /// Acts on the acceptance of a report.
    fn handle_update_accepted(&mut self, job_id: String, response: UpdateJobExecutionResponse) -> (result: Result<
        JobAction,
        JobError,
    >)
        ensures
            response.execution_state is Some && response.job_document is Some ==> {
                &&& final(self)@ == update_accepted(old(self)@, job_id@, response)
                &&& view_result(result) == Ok::<JobActionView, JobError>(
                    JobActionView::Notify(final(self)@.active_job),
                )
            },
            !(response.execution_state is Some && response.job_document is Some) ==> {
                &&& final(self)@ == old(self)@
                &&& view_result(result) == Ok::<JobActionView, JobError>(
                    JobActionView::Notify(None),
                )
            },
    {
        let (state, details) = match (response.execution_state, response.job_document) {
            (Some(state), Some(details)) => (state, details),
            _ => return Ok(JobAction::Notify(None)),
        };
        match state.status {
            JobStatus::Canceled | JobStatus::Removed => {
                self.active_job = None;
            },
            _ => {
                let version_number: i64 = match &self.active_job {
                    Some(active) => if state.version_number > active.version_number {
                        state.version_number
                    } else {
                        active.version_number
                    },
                    None => state.version_number,
                };
                self.active_job = Some(
                    JobNotification { job_id, version_number, status: state.status, details },
                );
            },
        }
        Ok(JobAction::Notify(self.active_job_copy()))
    }
}

impl Default for JobAgent {
    fn default() -> (agent: Self)
        ensures
            agent@ == (JobAgentView { request_cnt: 0, active_job: None }),
    {
        JobAgent::new()
    }
}

} // verus!
