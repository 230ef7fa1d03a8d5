use rustot::jobs::topic::{is_job_message, JobTopicType};
use rustot::ota::topic::{is_ota_message, OtaTopicType};
use rustot::text::same_text;
use rustot::topic::{thing_topic, topic_levels};

fn levels(path: &str) -> Vec<&str> {
    topic_levels(path).iter().copied().collect()
}

fn job_topic(thing: &str, path: &str) -> Option<JobTopicType> {
    JobTopicType::check(thing, &topic_levels(path))
}

#[test]
fn a_path_is_split_at_its_separators() {
    assert_eq!(levels("$aws/things/thing/jobs"), vec!["$aws", "things", "thing", "jobs"]);
    assert_eq!(levels(""), vec![""]);
    assert_eq!(levels("/"), vec!["", ""]);
    assert_eq!(levels("a//b/"), vec!["a", "", "b", ""]);
    assert_eq!(levels("plain"), vec!["plain"]);
}

#[test]
fn the_last_level_keeps_the_rest() {
    assert_eq!(
        levels("1/2/3/4/5/6/7/8/9/10"),
        vec!["1", "2", "3", "4", "5", "6", "7", "8/9/10"]
    );
    assert_eq!(levels("1/2/3/4/5/6/7/8"), vec!["1", "2", "3", "4", "5", "6", "7", "8"]);
}

#[test]
fn levels_may_hold_any_character() {
    assert_eq!(levels("måske/日本/x"), vec!["måske", "日本", "x"]);
    assert_eq!(levels("日本/måske/x").join("/"), "日本/måske/x");
}

#[test]
fn texts_are_compared_whole() {
    assert!(same_text("", ""));
    assert!(same_text("måske", "måske"));
    assert!(!same_text("get", "got"));
    assert!(!same_text("get", "gets"));
}

#[test]
fn a_topic_is_put_together_from_its_pieces() {
    let topic = thing_topic("thing", "/jobs/", "17", "/update").unwrap();
    assert_eq!(topic.as_str(), "$aws/things/thing/jobs/17/update");
}

#[test]
fn a_topic_of_256_bytes_is_the_longest() {
    // `$aws/things/` and `/jobs/get` take 21 bytes.
    let longest = "x".repeat(235);
    let topic = thing_topic(&longest, "/jobs/", "get", "").unwrap();
    assert_eq!(topic.as_str(), format!("$aws/things/{}/jobs/get", longest));
    assert_eq!(topic.len(), 256);
    assert!(thing_topic(&"x".repeat(236), "/jobs/", "get", "").is_err());
    assert!(thing_topic(&"å".repeat(118), "/jobs/", "get", "").is_err());
    assert!(thing_topic(&"å".repeat(117), "/jobs/", "get", "").is_ok());
}

#[test]
fn job_messages_are_told_by_their_levels() {
    assert!(is_job_message("$aws/things/thing/jobs/notify-next"));
    assert!(is_job_message("$aws/things/thing/jobs"));
    assert!(!is_job_message("$aws/things/thing/streams/1/data/cbor"));
    assert!(!is_job_message("aws/things/thing/jobs/notify"));
    assert!(!is_job_message("$aws/thing/thing/jobs/notify"));
    assert!(!is_job_message("$aws/things/jobs"));
    assert!(!is_job_message(""));
}

#[test]
fn ota_messages_are_told_by_their_levels() {
    assert!(is_ota_message("$aws/things/thing/streams/1/data/cbor"));
    assert!(is_ota_message("$aws/things/thing/streams"));
    assert!(!is_ota_message("$aws/things/thing/jobs/notify-next"));
    assert!(!is_ota_message("$aws/things/streams"));
    assert!(!is_ota_message(""));
}

#[test]
fn job_topics_are_recognised() {
    let base = "$aws/things/thing/jobs/";
    let cases = vec![
        ("notify", JobTopicType::Notify),
        ("notify-next", JobTopicType::NotifyNext),
        ("$next/get/accepted", JobTopicType::GetAccepted("$next".to_owned())),
        ("17/get/rejected", JobTopicType::GetRejected("17".to_owned())),
        ("17/update/accepted", JobTopicType::UpdateAccepted("17".to_owned())),
        ("17/update/rejected", JobTopicType::UpdateRejected("17".to_owned())),
        ("17/get", JobTopicType::Invalid),
        ("17/get/else", JobTopicType::Invalid),
        ("17/update/else", JobTopicType::Invalid),
        ("17/delete/accepted", JobTopicType::Invalid),
        ("17", JobTopicType::Invalid),
    ];
    for (tail, expected) in cases {
        assert_eq!(job_topic("thing", &format!("{}{}", base, tail)), Some(expected));
    }
    assert_eq!(job_topic("thing", "$aws/things/thing/jobs"), Some(JobTopicType::Invalid));
}

#[test]
fn job_topics_of_other_things_are_none() {
    assert_eq!(job_topic("thing", "$aws/things/other/jobs/notify"), None);
    assert_eq!(job_topic("thing", "$aws/things/thing/streams/1/data/cbor"), None);
}

#[test]
fn ota_topic_of_a_stream_is_recognised() {
    let topic_path = "$aws/things/SomeThingName/streams/AFR_OTA-fc149b0e-cb4e-456a-8cfb-7f0998a2855a/data/cbor";
    assert!(OtaTopicType::check("SomeThingName", topic_path).is_some());
    assert_eq!(
        OtaTopicType::check("SomeThingName", topic_path),
        Some(OtaTopicType::CborData(heapless::String::from(
            "AFR_OTA-fc149b0e-cb4e-456a-8cfb-7f0998a2855a"
        )))
    );
}

#[test]
fn other_ota_topics_are_recognised() {
    assert_eq!(
        OtaTopicType::check("thing", "$aws/things/thing/streams/s/get/cbor/rejected"),
        Some(OtaTopicType::CborGetRejected(heapless::String::from("s")))
    );
    for tail in ["s/get/cbor", "s/get/cbor/accepted", "s/data/json", "s", "s/data"] {
        assert_eq!(
            OtaTopicType::check("thing", &format!("$aws/things/thing/streams/{}", tail)),
            Some(OtaTopicType::Invalid)
        );
    }
    assert_eq!(
        OtaTopicType::check("thing", "$aws/things/thing/streams"),
        Some(OtaTopicType::Invalid)
    );
    assert_eq!(OtaTopicType::check("thing", "$aws/things/other/streams/s/data/cbor"), None);
    assert_eq!(OtaTopicType::check("thing", "$aws/things/thing/jobs/notify"), None);
}

#[test]
fn long_stream_names_are_not_admitted() {
    let long = format!("$aws/things/t/streams/{}/data/cbor", "s".repeat(129));
    let fits = format!("$aws/things/t/streams/{}/data/cbor", "s".repeat(128));
    assert!(!OtaTopicType::admits("t", &long));
    assert!(OtaTopicType::admits("t", &fits));
    assert!(OtaTopicType::admits("other", &long));
    assert!(OtaTopicType::check("t", &fits).is_some());
    let rejected = format!("$aws/things/t/streams/{}/get/cbor/rejected", "s".repeat(129));
    assert!(!OtaTopicType::admits("t", &rejected));
    let unrelated = format!("$aws/things/t/streams/{}/put", "s".repeat(129));
    assert!(OtaTopicType::admits("t", &unrelated));
}
