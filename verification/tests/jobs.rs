use rustot::jobs::agent::{JobAction, JobAgent};
use rustot::jobs::data::{
    DescribeJobExecutionResponse, ErrorResponse, FileDescription, JobDetails, JobError,
    JobExecution, JobExecutionState, JobNotification, JobPayload, JobStatus,
    NextJobExecutionChanged, OtaJob, UpdateJobExecutionRequest, UpdateJobExecutionResponse,
};
use rustot::jobs::topic::{expected_document, JobDocument};
use rustot::mqtt::{Publication, PublishOutcome, QoS};

const THING: &str = "thing";
const NOTIFY_NEXT: &str = "$aws/things/thing/jobs/notify-next";

fn details(stream: &str) -> JobDetails {
    JobDetails::Ota(OtaJob {
        streamname: heapless::String::from(stream),
        files: vec![FileDescription {
            filepath: "/bin".to_owned(),
            filesize: 10,
            fileid: 1,
            certfile: "cert".to_owned(),
            signature: "sig".to_owned(),
        }],
    })
}

fn execution(status: JobStatus, document: Option<JobDetails>) -> JobExecution {
    JobExecution {
        job_id: "17".to_owned(),
        version_number: 4,
        status,
        job_document: document,
    }
}

fn empty() -> JobPayload {
    JobPayload::default()
}

fn next(execution: Option<JobExecution>) -> JobPayload {
    JobPayload { next_changed: Some(NextJobExecutionChanged { execution }), ..empty() }
}

fn described(execution: Option<JobExecution>) -> JobPayload {
    JobPayload { described: Some(DescribeJobExecutionResponse { execution }), ..empty() }
}

fn updated(state: Option<JobExecutionState>, document: Option<JobDetails>) -> JobPayload {
    JobPayload {
        updated: Some(UpdateJobExecutionResponse {
            execution_state: state,
            job_document: document,
        }),
        ..empty()
    }
}

fn refusal() -> ErrorResponse {
    ErrorResponse {
        code: "InvalidRequest".to_owned(),
        message: "no".to_owned(),
        client_token: "0:thing".to_owned(),
    }
}

fn publication(result: Result<JobAction, JobError>) -> Publication<UpdateJobExecutionRequest> {
    match result {
        Ok(JobAction::Publish(publication)) => publication,
        other => panic!("{:?}", other),
    }
}

fn notification(result: Result<JobAction, JobError>) -> Option<JobNotification> {
    match result {
        Ok(JobAction::Notify(notification)) => notification,
        other => panic!("{:?}", other),
    }
}

/// An agent with job 17 in progress, at version 5.
fn busy_agent() -> JobAgent {
    let mut agent = JobAgent::new();
    let queued = next(Some(execution(JobStatus::Queued, Some(details("s")))));
    publication(agent.handle_message(THING, NOTIFY_NEXT, queued));
    agent.update_published(PublishOutcome::Sent).unwrap();
    agent
}

#[test]
fn a_new_agent_knows_of_no_job() {
    assert!(JobAgent::new().active_job().is_none());
    assert!(JobAgent::default().active_job().is_none());
    assert_eq!(JobAgent::default().request_count(), 0);
}

#[test]
fn describe_asks_for_a_job() {
    let mut agent = JobAgent::new();
    let message = agent.describe_job_execution(THING, "$next", Some(3), Some(true)).unwrap();
    assert_eq!(message.topic.as_str(), "$aws/things/thing/jobs/$next/get");
    assert_eq!(message.qos, QoS::AtLeastOnce);
    assert_eq!(message.payload.execution_number, Some(3));
    assert_eq!(message.payload.include_job_document, Some(true));
    assert_eq!(message.payload.client_token.as_str(), "0:thing");
    assert_eq!(agent.request_count(), 1);
}

#[test]
fn get_pending_asks_for_all_jobs() {
    let mut agent = JobAgent::new();
    let message = agent.get_pending_job_executions(THING).unwrap();
    assert_eq!(message.topic.as_str(), "$aws/things/thing/jobs/get");
    assert_eq!(message.qos, QoS::AtLeastOnce);
    assert_eq!(message.payload.client_token.as_str(), "0:thing");
}

#[test]
fn start_next_asks_for_the_next_job() {
    let mut agent = JobAgent::new();
    let message = agent.start_next_pending_job_execution(THING, Some(7)).unwrap();
    assert_eq!(message.topic.as_str(), "$aws/things/thing/jobs/start-next");
    assert_eq!(message.qos, QoS::AtLeastOnce);
    assert_eq!(message.payload.step_timeout_in_minutes, Some(7));
    assert_eq!(message.payload.client_token.as_str(), "0:thing");
}

#[test]
fn client_tokens_are_numbered() {
    let mut agent = JobAgent::new();
    for n in 0..12u32 {
        let message = agent.get_pending_job_executions(THING).unwrap();
        assert_eq!(message.payload.client_token.as_str(), format!("{}:thing", n));
    }
    assert_eq!(agent.request_count(), 12);
}

#[test]
fn a_token_that_does_not_fit_is_not_counted() {
    let mut agent = JobAgent::new();
    let fits = "x".repeat(62);
    let message = agent.get_pending_job_executions(&fits).unwrap();
    assert_eq!(message.payload.client_token.as_str(), format!("0:{}", fits));
    let long = "x".repeat(63);
    assert_eq!(agent.get_pending_job_executions(&long).unwrap_err(), JobError::Formatting);
    assert_eq!(
        agent.describe_job_execution(&long, "17", None, None).unwrap_err(),
        JobError::Formatting
    );
    assert_eq!(
        agent.start_next_pending_job_execution(&long, None).unwrap_err(),
        JobError::Formatting
    );
    assert_eq!(
        agent.update_job_execution(&long, JobStatus::Succeeded).unwrap_err(),
        JobError::Formatting
    );
    assert_eq!(agent.request_count(), 1);
}

#[test]
fn a_topic_that_does_not_fit_uses_no_token() {
    let mut agent = JobAgent::new();
    let job_id = "j".repeat(240);
    assert_eq!(
        agent.describe_job_execution(THING, &job_id, None, None).unwrap_err(),
        JobError::Formatting
    );
    assert_eq!(agent.request_count(), 0);
}

#[test]
fn a_report_without_a_job_uses_a_token() {
    let mut agent = JobAgent::new();
    assert_eq!(
        agent.update_job_execution(THING, JobStatus::Succeeded).unwrap_err(),
        JobError::NoActiveJob
    );
    assert_eq!(agent.request_count(), 1);
}

#[test]
fn a_report_whose_topic_does_not_fit_uses_a_token() {
    let mut agent = JobAgent::new();
    let mut queued = execution(JobStatus::Queued, Some(details("s")));
    queued.job_id = "j".repeat(240);
    assert_eq!(
        agent.handle_message(THING, NOTIFY_NEXT, next(Some(queued))).unwrap_err(),
        JobError::Formatting
    );
    assert_eq!(agent.request_count(), 1);
    assert_eq!(agent.active_job().unwrap().job_id, "j".repeat(240));
}

#[test]
fn a_queued_job_goes_into_progress() {
    let mut agent = JobAgent::new();
    let queued = next(Some(execution(JobStatus::Queued, Some(details("s")))));
    let report = publication(agent.handle_message(THING, NOTIFY_NEXT, queued));
    assert_eq!(report.topic.as_str(), "$aws/things/thing/jobs/17/update");
    assert_eq!(report.qos, QoS::AtLeastOnce);
    assert_eq!(report.payload.status, JobStatus::InProgress);
    assert_eq!(report.payload.expected_version, 4);
    assert_eq!(report.payload.execution_number, None);
    assert_eq!(report.payload.step_timeout_in_minutes, None);
    assert_eq!(report.payload.include_job_document, Some(true));
    assert_eq!(report.payload.include_job_execution_state, Some(true));
    assert_eq!(report.payload.client_token.as_str(), "0:thing");
    agent.update_published(PublishOutcome::Sent).unwrap();
    let active = agent.active_job().unwrap();
    assert_eq!(active.version_number, 5);
    assert_eq!(active.status, JobStatus::InProgress);
    assert_eq!(active.job_id, "17");
}

#[test]
fn a_queued_job_comes_with_a_describe_answer_too() {
    let mut agent = JobAgent::new();
    let queued = described(Some(execution(JobStatus::Queued, Some(details("s")))));
    let topic = "$aws/things/thing/jobs/$next/get/accepted";
    let report = publication(agent.handle_message(THING, topic, queued));
    assert_eq!(report.topic.as_str(), "$aws/things/thing/jobs/17/update");
}

#[test]
fn a_job_that_was_lost_track_of_has_failed() {
    let mut agent = JobAgent::new();
    let lost = next(Some(execution(JobStatus::InProgress, Some(details("s")))));
    let report = publication(agent.handle_message(THING, NOTIFY_NEXT, lost));
    assert_eq!(report.payload.status, JobStatus::Failed);
    assert_eq!(agent.active_job().unwrap().status, JobStatus::Failed);
}

#[test]
fn a_job_without_its_document_is_left_alone() {
    let mut agent = JobAgent::new();
    for status in [JobStatus::Queued, JobStatus::InProgress, JobStatus::Canceled] {
        let payload = next(Some(execution(status, None)));
        assert!(notification(agent.handle_message(THING, NOTIFY_NEXT, payload)).is_none());
    }
    assert!(agent.active_job().is_none());
    assert_eq!(agent.request_count(), 0);
}

#[test]
fn the_active_job_is_not_displaced() {
    let mut agent = busy_agent();
    let mut other = execution(JobStatus::Queued, Some(details("t")));
    other.job_id = "18".to_owned();
    assert!(notification(agent.handle_message(THING, NOTIFY_NEXT, next(Some(other)))).is_none());
    assert_eq!(agent.active_job().unwrap().job_id, "17");
}

#[test]
fn progress_tells_of_the_active_job() {
    let mut agent = busy_agent();
    let payload = next(Some(execution(JobStatus::InProgress, Some(details("t")))));
    let told = notification(agent.handle_message(THING, NOTIFY_NEXT, payload)).unwrap();
    assert_eq!(told.job_id, "17");
    assert_eq!(told.version_number, 5);
    assert_eq!(told.status, JobStatus::InProgress);
    let JobDetails::Ota(job) = told.details;
    assert_eq!(job.streamname.as_str(), "s");
    assert_eq!(job.files[0].filepath, "/bin");
    assert_eq!(job.files[0].signature, "sig");
}

#[test]
fn a_canceled_job_is_given_up() {
    for status in [JobStatus::Canceled, JobStatus::Removed] {
        let mut agent = busy_agent();
        let payload = next(Some(execution(status, None)));
        let told = notification(agent.handle_message(THING, NOTIFY_NEXT, payload)).unwrap();
        assert_eq!(told.status, JobStatus::Canceled);
        assert_eq!(told.job_id, "17");
        assert!(agent.active_job().is_none());
    }
}

#[test]
fn an_empty_queue_is_no_news() {
    let mut agent = busy_agent();
    assert!(notification(agent.handle_message(THING, NOTIFY_NEXT, next(None))).is_none());
    assert!(agent.active_job().is_some());
}

#[test]
fn a_payload_that_is_no_notification_is_an_error() {
    let mut agent = JobAgent::new();
    assert_eq!(
        agent.handle_message(THING, NOTIFY_NEXT, empty()).unwrap_err(),
        JobError::Deserialize
    );
}

#[test]
fn an_unknown_job_document_is_left_alone() {
    let mut agent = JobAgent::new();
    let topic = "$aws/things/thing/jobs/17/get/accepted";
    assert!(notification(agent.handle_message(THING, topic, empty())).is_none());
    assert!(notification(agent.handle_message(THING, topic, described(None))).is_none());
}

#[test]
fn an_accepted_report_updates_the_active_job() {
    let mut agent = busy_agent();
    let topic = "$aws/things/thing/jobs/17/update/accepted";
    let state = JobExecutionState { version_number: 9, status: JobStatus::InProgress };
    let told =
        notification(agent.handle_message(THING, topic, updated(Some(state), Some(details("u")))))
            .unwrap();
    assert_eq!(told.job_id, "17");
    assert_eq!(told.version_number, 9);
    assert_eq!(told.status, JobStatus::InProgress);
    assert_eq!(agent.active_job().unwrap().version_number, 9);
}

#[test]
fn the_version_never_goes_back() {
    let mut agent = busy_agent();
    let topic = "$aws/things/thing/jobs/17/update/accepted";
    let state = JobExecutionState { version_number: 2, status: JobStatus::Succeeded };
    let told =
        notification(agent.handle_message(THING, topic, updated(Some(state), Some(details("u")))))
            .unwrap();
    assert_eq!(told.version_number, 5);
    assert_eq!(told.status, JobStatus::Succeeded);
    let mut fresh = JobAgent::new();
    let told =
        notification(fresh.handle_message(THING, topic, updated(Some(state), Some(details("u")))))
            .unwrap();
    assert_eq!(told.version_number, 2);
}

#[test]
fn an_accepted_cancellation_ends_the_job() {
    for status in [JobStatus::Canceled, JobStatus::Removed] {
        let mut agent = busy_agent();
        let topic = "$aws/things/thing/jobs/17/update/accepted";
        let state = JobExecutionState { version_number: 9, status };
        let payload = updated(Some(state), Some(details("u")));
        assert!(notification(agent.handle_message(THING, topic, payload)).is_none());
        assert!(agent.active_job().is_none());
    }
}

#[test]
fn an_incomplete_acceptance_is_left_alone() {
    let mut agent = busy_agent();
    let topic = "$aws/things/thing/jobs/17/update/accepted";
    let state = JobExecutionState { version_number: 9, status: JobStatus::Canceled };
    assert!(notification(agent.handle_message(THING, topic, updated(Some(state), None))).is_none());
    assert!(
        notification(agent.handle_message(THING, topic, updated(None, Some(details("u"))))).is_none()
    );
    assert_eq!(
        agent.handle_message(THING, topic, empty()).unwrap_err(),
        JobError::InvalidTopic
    );
    assert_eq!(agent.active_job().unwrap().version_number, 5);
}

#[test]
fn a_rejection_is_handed_on() {
    let mut agent = busy_agent();
    for topic in [
        "$aws/things/thing/jobs/17/get/rejected",
        "$aws/things/thing/jobs/17/update/rejected",
    ] {
        let payload = JobPayload { rejected: Some(refusal()), ..empty() };
        assert_eq!(
            agent.handle_message(THING, topic, payload).unwrap_err(),
            JobError::Rejected(refusal())
        );
        assert_eq!(
            agent.handle_message(THING, topic, empty()).unwrap_err(),
            JobError::Deserialize
        );
    }
    assert_eq!(agent.active_job().unwrap().version_number, 5);
}

#[test]
fn other_topics_are_left_alone_or_invalid() {
    let mut agent = busy_agent();
    for topic in ["$aws/things/thing/jobs/notify", "$aws/things/other/jobs/notify-next", "x"] {
        assert!(notification(agent.handle_message(THING, topic, empty())).is_none());
    }
    assert_eq!(
        agent.handle_message(THING, "$aws/things/thing/jobs/17", empty()).unwrap_err(),
        JobError::InvalidTopic
    );
}

#[test]
fn reports_expect_consecutive_versions() {
    let mut agent = busy_agent();
    let first = agent.update_job_execution(THING, JobStatus::InProgress).unwrap();
    assert_eq!(first.payload.expected_version, 5);
    assert_eq!(first.payload.client_token.as_str(), "1:thing");
    agent.update_published(PublishOutcome::Sent).unwrap();
    let second = agent.update_job_execution(THING, JobStatus::Succeeded).unwrap();
    assert_eq!(second.payload.expected_version, 6);
    assert_eq!(second.payload.status, JobStatus::Succeeded);
    assert_eq!(second.payload.client_token.as_str(), "2:thing");
}

#[test]
fn a_report_that_was_not_sent_is_no_new_version() {
    let mut agent = busy_agent();
    agent.update_job_execution(THING, JobStatus::Failed).unwrap();
    assert_eq!(agent.update_published(PublishOutcome::NotSent), Err(JobError::Mqtt));
    assert_eq!(agent.update_published(PublishOutcome::NotSerialized), Err(JobError::Serialize));
    let active = agent.active_job().unwrap();
    assert_eq!(active.version_number, 5);
    assert_eq!(active.status, JobStatus::Failed);
    // The report is made again, under another token.
    let again = agent.update_job_execution(THING, JobStatus::Failed).unwrap();
    assert_eq!(again.payload.expected_version, 5);
    assert_eq!(again.payload.client_token.as_str(), "2:thing");
}

#[test]
fn a_report_on_a_message_is_nothing_to_tell() {
    let mut agent = JobAgent::new();
    let queued = next(Some(execution(JobStatus::Queued, Some(details("s")))));
    publication(agent.handle_message(THING, NOTIFY_NEXT, queued));
    assert_eq!(agent.message_reported(PublishOutcome::NotSent).unwrap_err(), JobError::Mqtt);
    assert_eq!(agent.active_job().unwrap().version_number, 4);
    assert!(agent.message_reported(PublishOutcome::Sent).unwrap().is_none());
    assert_eq!(agent.active_job().unwrap().version_number, 5);
}

#[test]
fn tokens_of_one_agent_differ() {
    let mut agent = JobAgent::new();
    assert_eq!(agent.get_client_token("a").unwrap().as_str(), "0:a");
    assert_eq!(agent.get_client_token("a").unwrap().as_str(), "1:a");
    assert_eq!(agent.get_client_token("1:a").unwrap().as_str(), "2:1:a");
    assert_eq!(agent.get_client_token(&"x".repeat(63)).unwrap_err(), JobError::Formatting);
    assert_eq!(agent.request_count(), 3);
}

#[test]
fn executions_without_effect_are_left_alone() {
    let mut agent = JobAgent::new();
    for status in [JobStatus::Canceled, JobStatus::Removed, JobStatus::Succeeded] {
        let payload = next(Some(execution(status, Some(details("s")))));
        assert!(notification(agent.handle_message(THING, NOTIFY_NEXT, payload)).is_none());
    }
    assert!(agent.active_job().is_none());
    assert_eq!(agent.request_count(), 0);
}

#[test]
fn one_document_is_read() {
    let mut agent = JobAgent::new();
    // The other fields do not matter.
    let payload = JobPayload { rejected: Some(refusal()), ..next(None) };
    assert!(notification(agent.handle_message(THING, NOTIFY_NEXT, payload)).is_none());
    let cases = vec![
        ("notify-next", Some(JobDocument::NextChanged)),
        ("17/get/accepted", Some(JobDocument::Described)),
        ("17/update/accepted", Some(JobDocument::Updated)),
        ("17/get/rejected", Some(JobDocument::Rejected)),
        ("17/update/rejected", Some(JobDocument::Rejected)),
        ("notify", None),
        ("17", None),
    ];
    for (tail, document) in cases {
        let topic = format!("$aws/things/thing/jobs/{}", tail);
        assert_eq!(expected_document(THING, &topic), document);
        assert_eq!(expected_document("other", &topic), None);
    }
}

#[test]
fn outcomes_of_publishing_become_results() {
    assert_eq!(PublishOutcome::Sent.into_result(), Ok(()));
    assert_eq!(PublishOutcome::NotSent.into_result(), Err(JobError::Mqtt));
    assert_eq!(PublishOutcome::NotSerialized.into_result(), Err(JobError::Serialize));
}

#[test]
fn requests_can_be_counted() {
    let mut agent = JobAgent::new();
    assert!(agent.admits_report(THING));
    assert!(agent.admits_report(&"x".repeat(63)));
    assert!(agent.admits_describe(THING, "17"));
    assert!(agent.admits_describe(THING, &"j".repeat(240)));
    assert!(agent.admits_get_pending(THING));
    assert!(agent.admits_start_next(THING));
    let queued = next(Some(execution(JobStatus::Queued, Some(details("s")))));
    assert!(agent.admits_message(THING, NOTIFY_NEXT, &queued));
    assert!(agent.admits_message(THING, "x", &empty()));
    publication(agent.handle_message(THING, NOTIFY_NEXT, queued));
    assert_eq!(agent.request_count(), 1);
}

#[test]
fn the_agent_listens_on_three_topics() {
    let agent = JobAgent::new();
    let expected = vec![
        "$aws/things/thing/jobs/+/get/+",
        "$aws/things/thing/jobs/+/update/+",
        "$aws/things/thing/jobs/notify-next",
    ];
    assert_eq!(agent.subscribed(true), Ok(()));
    assert_eq!(agent.subscribed(false), Err(JobError::Mqtt));
    let subscription = agent.subscribe_to_jobs(THING).unwrap();
    assert_eq!(subscription.qos, QoS::AtLeastOnce);
    let topics: Vec<&str> = subscription.topics.iter().map(|t| t.as_str()).collect();
    assert_eq!(topics, expected);
    let given_up = agent.unsubscribe_from_jobs(THING).unwrap();
    let topics: Vec<&str> = given_up.iter().map(|t| t.as_str()).collect();
    assert_eq!(topics, expected);
}

#[test]
fn topics_to_listen_on_have_to_fit() {
    let agent = JobAgent::new();
    let long = "x".repeat(230);
    assert_eq!(agent.subscribe_to_jobs(&long).unwrap_err(), JobError::Formatting);
    assert_eq!(agent.unsubscribe_from_jobs(&long).unwrap_err(), JobError::Formatting);
    // `$aws/things/` and `/jobs/notify-next` take 29 bytes, one more than the
    // next longest of the three.
    assert!(agent.subscribe_to_jobs(&"x".repeat(227)).is_ok());
    assert!(agent.subscribe_to_jobs(&"x".repeat(228)).is_err());
}
