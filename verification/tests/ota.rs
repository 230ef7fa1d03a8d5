use rustot::jobs::data::{FileDescription, JobError, JobStatus, OtaJob};
use rustot::mqtt::QoS;
use rustot::ota::agent::{AgentState, CloseStep, JobStep, OtaAgent, OtaStep};
use rustot::ota::bitmap::Bitmap;
use rustot::ota::config::OtaConfig;
use rustot::ota::data::{ImageState, OtaEvent, StreamRequest, StreamResponse};
use rustot::ota::error::{OtaError, OtaPalError};

const THING: &str = "thing";
const DATA: &str = "$aws/things/thing/streams/s/data/cbor";
const REJECTED: &str = "$aws/things/thing/streams/s/get/cbor/rejected";

/// What the platform of these tests fails with.
type Failure = &'static str;

fn file(size: usize) -> FileDescription {
    FileDescription {
        filepath: "/bin".to_owned(),
        filesize: size,
        fileid: 7,
        certfile: "cert".to_owned(),
        signature: "sig".to_owned(),
    }
}

fn job(stream: &str, size: usize) -> OtaJob {
    OtaJob { streamname: heapless::String::from(stream), files: vec![file(size)] }
}

fn config(block_size: usize, blocks: u32) -> OtaConfig {
    OtaConfig::default().set_block_size(block_size).set_max_blocks_per_request(blocks)
}

/// An agent that has begun to fetch a file, before its first request is sent.
fn begun(size: usize, config: OtaConfig) -> (OtaAgent, StreamRequest) {
    let mut agent = OtaAgent::new(config);
    let request = agent.file_created::<Failure>(job("s", size), Ok(())).unwrap();
    (agent, request)
}

fn block_from(source: &[u8], block_size: usize, block_id: usize) -> StreamResponse {
    let start = block_id * block_size;
    let end = std::cmp::min(start + block_size, source.len());
    StreamResponse {
        block_id,
        block_payload: source[start..end].to_vec(),
        block_size: end - start,
        file_id: 7,
    }
}

fn block(block_id: usize, block_size: usize) -> StreamResponse {
    StreamResponse { block_id, block_payload: vec![0; block_size], block_size, file_id: 7 }
}

fn send(agent: &mut OtaAgent, response: StreamResponse) -> OtaStep<Failure> {
    let (wait, step) = agent.handle_message(THING, DATA, Some(response));
    assert_eq!(wait, Some(agent.config().request_wait_ms));
    step
}

/// Sends a block that is stored without trouble.
fn store(agent: &mut OtaAgent, response: StreamResponse) -> OtaStep<Failure> {
    match send(agent, response) {
        OtaStep::WriteBlock { block_id, .. } => {
            assert!(agent.admits_block(block_id));
            agent.block_written(block_id, Ok(()))
        }
        other => panic!("{:?}", other),
    }
}

fn error(step: OtaStep<Failure>) -> OtaError<Failure> {
    match step {
        OtaStep::Done(Err(error)) => error,
        other => panic!("{:?}", other),
    }
}

fn progress(step: OtaStep<Failure>) -> u8 {
    match step {
        OtaStep::Done(Ok(progress)) => progress,
        other => panic!("{:?}", other),
    }
}

#[test]
fn settings_have_defaults() {
    let config = OtaConfig::default();
    assert_eq!(config.block_size, 1024);
    assert_eq!(config.max_request_momentum, 3);
    assert_eq!(config.request_wait_ms, 4500);
    assert_eq!(config.max_blocks_per_request, 128);
    assert_eq!(config.percentage_change_between_status_update, 5);
}

#[test]
fn each_setting_changes_alone() {
    let config = OtaConfig::default();
    assert_eq!(config.set_block_size(1), OtaConfig { block_size: 1, ..config });
    assert_eq!(config.set_request_wait_ms(2), OtaConfig { request_wait_ms: 2, ..config });
    assert_eq!(
        config.set_max_blocks_per_request(3),
        OtaConfig { max_blocks_per_request: 3, ..config }
    );
}

#[test]
fn a_new_agent_is_at_rest() {
    let agent = OtaAgent::new(config(4, 2));
    assert!(!agent.is_active());
    assert_eq!(agent.image_state, ImageState::Unknown);
    assert_eq!(agent.config(), config(4, 2));
}

#[test]
fn errors_of_others_become_errors_of_the_update() {
    assert!(matches!(OtaError::<Failure>::from(core::fmt::Error), OtaError::Formatting));
    assert!(matches!(OtaError::<Failure>::from(mqttrust::MqttError::Full), OtaError::Mqtt));
    assert!(matches!(
        OtaError::<Failure>::from(JobError::NoActiveJob),
        OtaError::Jobs(JobError::NoActiveJob)
    ));
    assert!(matches!(
        OtaError::from(OtaPalError("full")),
        OtaError::PalError(OtaPalError("full"))
    ));
}

#[test]
fn a_new_job_is_subscribed_to() {
    let agent = OtaAgent::new(config(4, 2));
    match agent.process_ota_job::<Failure>(THING, job("s", 10)).unwrap() {
        JobStep::Subscribe { subscription, job } => {
            let topics: Vec<&str> = subscription.topics.iter().map(|t| t.as_str()).collect();
            assert_eq!(topics, vec![DATA]);
            assert_eq!(subscription.qos, QoS::AtMostOnce);
            assert_eq!(job.streamname.as_str(), "s");
            assert_eq!(agent.job_subscribed::<Failure>(&job, true).unwrap(), file(10));
            assert!(matches!(
                agent.job_subscribed::<Failure>(&job, false),
                Err(OtaError::Mqtt)
            ));
        }
        other => panic!("{:?}", other),
    }
}

#[test]
fn one_update_at_a_time() {
    let (agent, _) = begun(10, config(4, 2));
    assert!(matches!(
        agent.process_ota_job::<Failure>(THING, job("s", 10)),
        Ok(JobStep::InProgress)
    ));
    assert!(matches!(
        agent.process_ota_job::<Failure>(THING, job("t", 10)),
        Err(OtaError::Busy)
    ));
}

#[test]
fn a_topic_that_is_too_long_fails_the_job() {
    let mut agent = OtaAgent::new(config(4, 2));
    let long = "x".repeat(250);
    assert!(matches!(
        agent.process_ota_job::<Failure>(&long, job("s", 10)),
        Err(OtaError::Formatting)
    ));
    agent.file_created::<Failure>(job("s", 10), Ok(())).unwrap();
    assert!(matches!(agent.close::<Failure>(&long), Err(OtaError::Formatting)));
    assert!(matches!(
        agent.finalize_ota_job::<Failure>(&long, JobStatus::Failed),
        Err(OtaError::Formatting)
    ));
    assert!(matches!(
        agent.request_encoded::<Failure>(&long, Some(vec![1])),
        Err(OtaError::Formatting)
    ));
}

#[test]
fn a_file_that_cannot_be_created_fails_the_job() {
    let mut agent = OtaAgent::new(config(4, 2));
    assert!(matches!(
        agent.file_created(job("s", 10), Err(OtaPalError("full"))),
        Err(OtaError::PalError(OtaPalError("full")))
    ));
    assert!(!agent.is_active());
}

#[test]
fn the_first_request_asks_for_every_block() {
    let (agent, request) = begun(10, config(4, 2));
    assert!(agent.is_active());
    assert_eq!(request.client_token, "rdy");
    assert_eq!(request.file_id, 7);
    assert_eq!(request.block_size, 4);
    assert_eq!(request.block_offset, 0);
    assert_eq!(request.number_of_blocks, 2);
    assert_eq!(request.block_bitmap.to_bytes(), vec![0b111]);
}

#[test]
fn the_first_request_asks_for_128_kib_at_most() {
    assert_eq!(begun(1 << 20, config(1024, 128)).1.number_of_blocks, 128);
    assert_eq!(begun(1 << 20, config(1024, 129)).1.number_of_blocks, 128);
    assert_eq!(begun(1 << 20, config(4096, 128)).1.number_of_blocks, 32);
    assert_eq!(begun(1 << 20, config(256, 128)).1.number_of_blocks, 128);
    assert_eq!(begun(1 << 20, config(200_000, 128)).1.number_of_blocks, 0);
}

#[test]
fn a_request_becomes_a_message() {
    let (mut agent, _) = begun(10, config(4, 2).set_request_wait_ms(99));
    let sent = agent.request_encoded::<Failure>(THING, Some(vec![1, 2, 3])).unwrap();
    assert_eq!(sent.publication.topic.as_str(), "$aws/things/thing/streams/s/get/cbor");
    assert_eq!(sent.publication.qos, QoS::AtMostOnce);
    assert_eq!(sent.publication.payload, vec![1, 2, 3]);
    assert_eq!(sent.wait_ms, 99);
    assert!(matches!(
        agent.request_encoded::<Failure>(THING, None),
        Err(OtaError::BadData)
    ));
}

#[test]
fn blocks_in_any_order_make_up_the_file() {
    let source: Vec<u8> = (0..38u8).collect();
    for order in [[3, 0, 4, 1, 2], [0, 1, 2, 3, 4], [4, 3, 2, 1, 0]] {
        let (mut agent, _) = begun(source.len(), config(8, 128));
        let mut contents = vec![0xffu8; source.len()];
        let mut last: Option<u8> = None;
        for block_id in order {
            let step = send(&mut agent, block_from(&source, 8, block_id));
            let mut next: OtaStep<Failure> = match step {
                OtaStep::WriteBlock { file: target, offset, payload, block_id } => {
                    assert_eq!(target, file(source.len()));
                    contents[offset..offset + payload.len()].copy_from_slice(&payload);
                    agent.block_written(block_id, Ok(()))
                }
                other => panic!("{:?}", other),
            };
            if let OtaStep::ReportProgress { status, progress } = next {
                assert_eq!(status, JobStatus::InProgress);
                assert!(agent.admits_report());
                next = agent.progress_reported(progress, Ok(()));
            }
            match next {
                OtaStep::Done(Ok(progress)) => last = Some(progress),
                OtaStep::CloseFile { file: closed, progress } => {
                    assert_eq!(closed, file(source.len()));
                    last = Some(progress);
                }
                other => panic!("{:?}", other),
            }
        }
        assert_eq!(contents, source);
        assert_eq!(last, Some(100));
    }
}

#[test]
fn progress_goes_from_0_to_100() {
    let (mut agent, _) = begun(32, config(8, 128));
    assert!(matches!(store(&mut agent, block(0, 8)), OtaStep::ReportProgress { progress: 0, .. }));
    agent.progress_reported::<Failure>(0, Ok(()));
    assert_eq!(progress(store(&mut agent, block(1, 8))), 33);
    assert_eq!(progress(store(&mut agent, block(2, 8))), 66);
    assert!(matches!(store(&mut agent, block(3, 8)), OtaStep::CloseFile { progress: 100, .. }));
}

#[test]
fn the_only_block_of_a_file_completes_it() {
    let (mut agent, _) = begun(500, OtaConfig::default());
    let only = StreamResponse {
        block_id: 0,
        block_payload: vec![7; 500],
        block_size: 500,
        file_id: 7,
    };
    match send(&mut agent, only) {
        OtaStep::WriteBlock { file: target, offset, payload, block_id } => {
            assert_eq!(target, file(500));
            assert_eq!(offset, 0);
            assert_eq!(payload, vec![7; 500]);
            assert_eq!(block_id, 0);
        }
        other => panic!("{:?}", other),
    }
    assert!(agent.admits_block(0));
    match agent.block_written::<Failure>(0, Ok(())) {
        OtaStep::CloseFile { file: closed, progress } => {
            assert_eq!(closed, file(500));
            assert_eq!(progress, 100);
        }
        other => panic!("{:?}", other),
    }
    assert!(matches!(
        agent.file_closed::<Failure>(100, Ok(())),
        OtaStep::ReportCompletion { status: JobStatus::Succeeded, progress: 100 }
    ));
    assert_eq!(progress(agent.completion_reported(100, Ok(()))), 100);
    // The same block again is a duplicate.
    assert_eq!(progress(send(&mut agent, block(0, 500))), 100);
}

#[test]
fn duplicates_are_not_stored_again() {
    let (mut agent, _) = begun(32, config(8, 128));
    store(&mut agent, block(0, 8));
    assert_eq!(progress(send(&mut agent, block(0, 8))), 0);
    store(&mut agent, block(2, 8));
    assert_eq!(progress(send(&mut agent, block(0, 8))), 33);
    assert_eq!(progress(send(&mut agent, block(2, 8))), 33);
}

#[test]
fn the_last_block_is_as_long_as_the_rest_of_the_file() {
    let (mut agent, _) = begun(20, config(8, 128));
    assert!(matches!(error(send(&mut agent, block(2, 8))), OtaError::BlockOutOfRange));
    match send(&mut agent, block(2, 4)) {
        OtaStep::WriteBlock { offset, block_id, .. } => {
            assert_eq!(offset, 16);
            assert_eq!(block_id, 2);
        }
        other => panic!("{:?}", other),
    }
}

#[test]
fn blocks_outside_of_the_file_are_refused() {
    let (mut agent, _) = begun(16, config(8, 128));
    assert!(matches!(error(send(&mut agent, block(2, 8))), OtaError::BlockOutOfRange));
    assert!(matches!(error(send(&mut agent, block(0, 7))), OtaError::BlockOutOfRange));
    assert!(matches!(error(send(&mut agent, block(1, 9))), OtaError::BlockOutOfRange));
}

#[test]
fn blocks_of_another_file_are_refused() {
    let (mut agent, _) = begun(16, config(8, 128));
    let other = StreamResponse { file_id: 8, ..block(0, 8) };
    assert!(matches!(error(send(&mut agent, other)), OtaError::BadFileHandle));
}

#[test]
fn what_is_not_a_block_is_bad_data() {
    let (mut agent, _) = begun(16, config(8, 128));
    let (wait, step) = agent.handle_message::<Failure>(THING, DATA, None);
    assert_eq!(wait, Some(4500));
    assert!(matches!(error(step), OtaError::BadData));
}

#[test]
fn other_topics_are_invalid() {
    let (mut agent, _) = begun(16, config(8, 128));
    for topic in [
        "$aws/things/other/streams/s/data/cbor",
        "$aws/things/thing/streams/s/data/json",
        "$aws/things/thing/jobs/notify-next",
    ] {
        let (wait, step) = agent.handle_message(THING, topic, Some(block(0, 8)));
        assert_eq!(wait, None);
        assert!(matches!(error(step), OtaError::InvalidTopic));
    }
    assert!(agent.is_active());
}

#[test]
fn a_rejected_request_ends_the_update() {
    let (mut agent, _) = begun(16, config(8, 128));
    let (wait, step) = agent.handle_message(THING, REJECTED, None);
    assert_eq!(wait, None);
    assert!(matches!(error(step), OtaError::RequestRejected));
    assert!(!agent.is_active());
}

#[test]
fn without_an_update_messages_are_refused() {
    let mut agent = OtaAgent::new(config(8, 128));
    let (wait, step) = agent.handle_message(THING, DATA, Some(block(0, 8)));
    assert_eq!(wait, None);
    assert!(matches!(error(step), OtaError::NoOtaActive));
}

#[test]
fn a_block_that_is_not_stored_is_still_to_come() {
    let (mut agent, _) = begun(32, config(8, 128));
    match send(&mut agent, block(1, 8)) {
        OtaStep::WriteBlock { block_id, .. } => assert!(matches!(
            error(agent.block_written(block_id, Err(OtaPalError("full")))),
            OtaError::PalError(OtaPalError("full"))
        )),
        other => panic!("{:?}", other),
    }
    assert!(matches!(send(&mut agent, block(1, 8)), OtaStep::WriteBlock { block_id: 1, .. }));
}

#[test]
fn the_next_blocks_are_asked_for_when_those_asked_for_have_come() {
    let (mut agent, _) = begun(64, config(8, 2));
    store(&mut agent, block(0, 8));
    assert_eq!(progress(agent.progress_reported::<Failure>(0, Ok(()))), 0);
    match store(&mut agent, block(2, 8)) {
        OtaStep::RequestBlocks { request, progress } => {
            assert_eq!(progress, 14);
            assert_eq!(request.number_of_blocks, 2);
            assert_eq!(request.block_bitmap.to_bytes(), vec![0b1111_1010]);
        }
        other => panic!("{:?}", other),
    }
    assert_eq!(progress(agent.blocks_requested(14, Ok(()))), 14);
    assert!(matches!(
        error(agent.blocks_requested(14, Err(OtaError::BadData))),
        OtaError::BadData
    ));
}

#[test]
fn progress_is_reported_when_it_is_due() {
    let (mut agent, _) = begun(21, config(1, 128));
    // With 21 blocks, each block after the first is worth 5 percent.
    for block_id in 0..20usize {
        match store(&mut agent, block(block_id, 1)) {
            OtaStep::ReportProgress { status: JobStatus::InProgress, progress } => {
                assert_eq!(progress as usize, 5 * block_id);
                assert!(matches!(
                    agent.progress_reported::<Failure>(progress, Ok(())),
                    OtaStep::Done(Ok(p)) if p == progress
                ));
            }
            other => panic!("{:?}", other),
        }
    }
    assert!(matches!(store(&mut agent, block(20, 1)), OtaStep::CloseFile { progress: 100, .. }));
}

#[test]
fn a_report_that_was_skipped_over_stays_due() {
    let (mut agent, _) = begun(11, config(1, 128));
    assert!(matches!(store(&mut agent, block(0, 1)), OtaStep::ReportProgress { progress: 0, .. }));
    agent.progress_reported::<Failure>(0, Ok(()));
    // The next report is due at 5 percent, which is never reached.
    for block_id in 1..10usize {
        assert_eq!(progress(store(&mut agent, block(block_id, 1))) as usize, 10 * block_id);
    }
}

#[test]
fn a_report_that_fails_is_handed_on() {
    let (mut agent, _) = begun(32, config(8, 128));
    store(&mut agent, block(0, 8));
    assert!(matches!(
        error(agent.progress_reported(0, Err(JobError::Mqtt))),
        OtaError::Jobs(JobError::Mqtt)
    ));
}

#[test]
fn the_job_ends_as_the_file_is_closed() {
    let (agent, _) = begun(32, config(8, 128));
    assert!(matches!(
        agent.file_closed::<Failure>(100, Ok(())),
        OtaStep::ReportCompletion { status: JobStatus::Succeeded, progress: 100 }
    ));
    assert!(matches!(
        agent.file_closed(100, Err(OtaPalError("signature"))),
        OtaStep::ReportCompletion { status: JobStatus::Failed, progress: 100 }
    ));
    assert_eq!(progress(agent.completion_reported(100, Ok(()))), 100);
    assert!(matches!(
        error(agent.completion_reported(100, Err(JobError::NoActiveJob))),
        OtaError::Jobs(JobError::NoActiveJob)
    ));
}

#[test]
fn the_timer_asks_again_until_too_many_went_unanswered() {
    let (mut agent, _) = begun(32, config(8, 2));
    agent.request_encoded::<Failure>(THING, Some(vec![])).unwrap();
    assert!(agent.request_timer_irq(false).is_none());
    for _ in 0..2 {
        let request = agent.request_timer_irq(true).unwrap();
        assert_eq!(request.number_of_blocks, 2);
        assert_eq!(request.block_bitmap.to_bytes(), vec![0b1111]);
        agent.request_encoded::<Failure>(THING, Some(vec![])).unwrap();
    }
    // Three requests in all, however often the timer goes off.
    for _ in 0..3 {
        assert!(agent.request_timer_irq(true).is_none());
    }
    assert!(agent.is_active());
}

#[test]
fn silence_is_told_when_blocks_are_asked_for() {
    // No request may go unanswered.
    let strict = OtaConfig { max_request_momentum: 0, ..config(8, 1) };
    let mut agent = OtaAgent::new(strict);
    assert!(matches!(
        agent.file_created::<Failure>(job("s", 32), Ok(())),
        Err(OtaError::MaxMomentumAbort(0))
    ));
    assert!(matches!(store(&mut agent, block(0, 8)), OtaStep::ReportProgress { .. }));
    assert!(matches!(
        error(agent.progress_reported(0, Ok(()))),
        OtaError::MaxMomentumAbort(0)
    ));
}

#[test]
fn a_good_block_ends_the_silence() {
    let (mut agent, _) = begun(32, config(8, 128));
    for _ in 0..3 {
        agent.request_encoded::<Failure>(THING, Some(vec![])).unwrap();
    }
    assert!(agent.request_timer_irq(true).is_none());
    assert!(matches!(error(send(&mut agent, block(9, 8))), OtaError::BlockOutOfRange));
    assert!(agent.request_timer_irq(true).is_none());
    store(&mut agent, block(0, 8));
    assert!(agent.request_timer_irq(true).is_some());
}

#[test]
fn the_timer_rests_with_the_agent() {
    let mut agent = OtaAgent::new(config(8, 128));
    assert!(agent.request_timer_irq(true).is_none());
    let (mut agent, _) = begun(16, config(8, 128));
    store(&mut agent, block(0, 8));
    store(&mut agent, block(1, 8));
    assert!(agent.request_timer_irq(true).is_none());
}

#[test]
fn closing_gives_up_the_update() {
    let (mut agent, _) = begun(16, config(8, 128));
    match agent.close::<Failure>(THING).unwrap() {
        CloseStep::Unsubscribe(topics) => {
            let topics: Vec<&str> = topics.iter().map(|t| t.as_str()).collect();
            assert_eq!(topics, vec![DATA]);
        }
        other => panic!("{:?}", other),
    }
    assert!(matches!(agent.unsubscribed::<Failure>(false), Err(OtaError::Mqtt)));
    assert_eq!(agent.unsubscribed::<Failure>(true).unwrap(), file(16));
    assert!(matches!(
        agent.file_aborted(Err(OtaPalError("busy"))),
        Err(OtaError::PalError(OtaPalError("busy")))
    ));
    assert!(agent.is_active());
    agent.file_aborted::<Failure>(Ok(())).unwrap();
    assert!(!agent.is_active());
    assert!(matches!(agent.close::<Failure>(THING), Ok(CloseStep::Closed)));
    assert!(matches!(
        agent.process_ota_job::<Failure>(THING, job("t", 16)),
        Ok(JobStep::Subscribe { .. })
    ));
}

#[test]
fn the_platform_is_told_how_the_job_ended() {
    let (agent, _) = begun(16, config(8, 128));
    let (step, event) = agent.finalize_ota_job::<Failure>(THING, JobStatus::Succeeded).unwrap();
    assert!(matches!(step, CloseStep::Unsubscribe(_)));
    assert_eq!(event, OtaEvent::Activate);
    for status in [JobStatus::Failed, JobStatus::Canceled, JobStatus::InProgress] {
        let (_, event) = agent.finalize_ota_job::<Failure>(THING, status).unwrap();
        assert_eq!(event, OtaEvent::Fail);
    }
    assert!(agent.job_finalized::<Failure>(Ok(())).is_ok());
    assert!(matches!(
        agent.job_finalized(Err(OtaPalError("reset"))),
        Err(OtaError::PalError(OtaPalError("reset")))
    ));
}

#[test]
fn blocks_are_expected_on_the_data_topic_of_an_update() {
    assert!(!OtaAgent::new(config(8, 128)).expects_block(THING, DATA));
    let (agent, _) = begun(16, config(8, 128));
    assert!(agent.expects_block(THING, DATA));
    assert!(!agent.expects_block("other", DATA));
    assert!(!agent.expects_block(THING, REJECTED));
    assert!(!agent.expects_block(THING, "$aws/things/thing/jobs/notify-next"));
}

#[test]
fn a_report_that_fails_leaves_its_block_stored() {
    let (mut agent, _) = begun(32, config(8, 128));
    store(&mut agent, block(0, 8));
    error(agent.progress_reported(0, Err(JobError::Mqtt)));
    assert_eq!(progress(send(&mut agent, block(0, 8))), 0);
    let request = agent.request_timer_irq(true).unwrap();
    assert_eq!(request.block_bitmap.to_bytes(), vec![0b1110]);
}

#[test]
fn a_bitmap_holds_a_bit_per_block() {
    let mut bitmap = Bitmap::new(100, 10);
    assert_eq!(bitmap.to_bytes(), vec![0xff, 0b11]);
    bitmap.set(0, false);
    bitmap.set(9, false);
    assert!(!bitmap.get(0));
    assert!(bitmap.get(1));
    assert_eq!(bitmap.to_bytes(), vec![0xfe, 0b01]);
    assert_eq!(bitmap.clone(), bitmap);
    assert_eq!(Bitmap::new(0, 10).to_bytes(), Vec::<u8>::new());
    assert_eq!(Bitmap::new(80, 10).to_bytes(), vec![0xff]);
    assert_eq!(Bitmap::new(81, 10).to_bytes(), vec![0xff, 0b01]);
}

#[test]
fn states_can_be_compared() {
    assert_eq!(AgentState::Ready.clone(), AgentState::Ready);
}

#[test]
fn what_cannot_be_acted_on_is_told_beforehand() {
    let agent = OtaAgent::new(config(8, 128));
    assert!(agent.admits_job(&job("s", 16)));
    assert!(!agent.admits_job(&job("s", usize::MAX)));
    assert!(!agent.admits_job(&OtaJob {
        streamname: heapless::String::from("s"),
        files: vec![],
    }));
    assert!(!OtaAgent::new(config(0, 128)).admits_job(&job("s", 16)));
    assert!(agent.admits_message(THING, DATA, &Some(block(0, 8))));
    assert!(!agent.admits_block(0));

    // An empty file has no blocks to tell apart.
    let (agent, _) = begun(0, config(8, 128));
    assert!(!agent.admits_message(THING, DATA, &Some(block(0, 8))));
    assert!(agent.admits_message(THING, DATA, &None));
    assert!(!agent.admits_block(0));

    let (mut agent, _) = begun(8, config(8, 128));
    assert!(agent.admits_message(THING, DATA, &Some(block(0, 8))));
    assert!(agent.admits_block(0));
    store(&mut agent, block(0, 8));
    assert!(agent.admits_message(THING, DATA, &Some(block(0, 8))));

    let (mut agent, _) = begun(16, config(8, 128));
    assert!(agent.admits_block(1));
    assert!(!agent.admits_block(2));
    store(&mut agent, block(1, 8));
    assert!(!agent.admits_block(1));
    let long = format!("$aws/things/thing/streams/{}/data/cbor", "s".repeat(129));
    assert!(!agent.admits_message(THING, &long, &None));

    assert!(agent.admits_report());
    let steep = OtaConfig { percentage_change_between_status_update: 255, ..config(1, 128) };
    let (mut agent, _) = begun(11, steep);
    assert!(agent.admits_report());
    store(&mut agent, block(0, 1));
    agent.progress_reported::<Failure>(0, Ok(()));
    assert!(!agent.admits_report());
}
