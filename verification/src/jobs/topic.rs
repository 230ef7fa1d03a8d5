//! The topics on which AWS IoT Jobs answers and notifies a thing.

use vstd::prelude::*;

use crate::bounded::{level_texts, levels_get, TopicLevels};
use crate::topic::{level_is, level_reads, levels, topic_levels};

verus! {

/// What a message on a job topic is about.
#[derive(Debug, PartialEq, Eq)]
pub enum JobTopicType {
    /// `$aws/things/{thingName}/jobs/notify`
    Notify,
    /// `$aws/things/{thingName}/jobs/notify-next`
    NotifyNext,
    /// `$aws/things/{thingName}/jobs/{jobId}/get/accepted`
    GetAccepted(String),
    /// `$aws/things/{thingName}/jobs/{jobId}/get/rejected`
    GetRejected(String),
    /// `$aws/things/{thingName}/jobs/{jobId}/update/accepted`
    UpdateAccepted(String),
    /// `$aws/things/{thingName}/jobs/{jobId}/update/rejected`
    UpdateRejected(String),
    /// A job topic of the thing that is none of these.
    Invalid,
}

/// What a [`JobTopicType`] says.
pub enum JobTopicView {
    Notify,
    NotifyNext,
    GetAccepted(Seq<char>),
    GetRejected(Seq<char>),
    UpdateAccepted(Seq<char>),
    UpdateRejected(Seq<char>),
    Invalid,
}

impl View for JobTopicType {
    type V = JobTopicView;

    open spec fn view(&self) -> JobTopicView {
        match self {
            JobTopicType::Notify => JobTopicView::Notify,
            JobTopicType::NotifyNext => JobTopicView::NotifyNext,
            JobTopicType::GetAccepted(job_id) => JobTopicView::GetAccepted(job_id@),
            JobTopicType::GetRejected(job_id) => JobTopicView::GetRejected(job_id@),
            JobTopicType::UpdateAccepted(job_id) => JobTopicView::UpdateAccepted(job_id@),
            JobTopicType::UpdateRejected(job_id) => JobTopicView::UpdateRejected(job_id@),
            JobTopicType::Invalid => JobTopicView::Invalid,
        }
    }
}

/// Whether the levels are those of a topic under `$aws/things/{thingName}/jobs`.
pub open spec fn is_job_path(levels: Seq<Seq<char>>) -> bool {
    &&& level_is(levels, 0, "$aws"@)
    &&& level_is(levels, 1, "things"@)
    &&& level_is(levels, 3, "jobs"@)
}

/// What the topic with these levels is about, for the thing of the given name:
/// `None` where it is not a job topic of that thing.
pub open spec fn job_topic(thing: Seq<char>, levels: Seq<Seq<char>>) -> Option<JobTopicView> {
    if !is_job_path(levels) || !level_is(levels, 2, thing) {
        None
    } else if level_is(levels, 4, "notify"@) {
        Some(JobTopicView::Notify)
    } else if level_is(levels, 4, "notify-next"@) {
        Some(JobTopicView::NotifyNext)
    } else if level_is(levels, 5, "get"@) && level_is(levels, 6, "accepted"@) {
        Some(JobTopicView::GetAccepted(levels[4]))
    } else if level_is(levels, 5, "get"@) && level_is(levels, 6, "rejected"@) {
        Some(JobTopicView::GetRejected(levels[4]))
    } else if level_is(levels, 5, "update"@) && level_is(levels, 6, "accepted"@) {
        Some(JobTopicView::UpdateAccepted(levels[4]))
    } else if level_is(levels, 5, "update"@) && level_is(levels, 6, "rejected"@) {
        Some(JobTopicView::UpdateRejected(levels[4]))
    } else {
        Some(JobTopicView::Invalid)
    }
}

/// A document that a job topic can carry.
#[derive(Clone, Copy, Debug, PartialEq, Eq)]
pub enum JobDocument {
    /// [`crate::jobs::data::NextJobExecutionChanged`]
    NextChanged,
    /// [`crate::jobs::data::DescribeJobExecutionResponse`]
    Described,
    /// [`crate::jobs::data::UpdateJobExecutionResponse`]
    Updated,
    /// [`crate::jobs::data::ErrorResponse`]
    Rejected,
}

/// The document that a message on a topic is to carry, if it is to carry one.
pub open spec fn document_on(topic: Option<JobTopicView>) -> Option<JobDocument> {
    match topic {
        Some(JobTopicView::NotifyNext) => Some(JobDocument::NextChanged),
        Some(JobTopicView::GetAccepted(_)) => Some(JobDocument::Described),
        Some(JobTopicView::UpdateAccepted(_)) => Some(JobDocument::Updated),
        Some(JobTopicView::GetRejected(_)) => Some(JobDocument::Rejected),
        Some(JobTopicView::UpdateRejected(_)) => Some(JobDocument::Rejected),
        Some(JobTopicView::Notify) | Some(JobTopicView::Invalid) | None => None,
    }
}

/// Tells which document a message on a topic is to carry, so that its payload is
/// read as that one alone.
pub fn expected_document(thing_name: &str, topic_name: &str) -> (document: Option<JobDocument>)
    ensures
        document == document_on(job_topic(thing_name@, levels(topic_name@))),
{
    match JobTopicType::check(thing_name, &topic_levels(topic_name)) {
        Some(JobTopicType::NotifyNext) => Some(JobDocument::NextChanged),
        Some(JobTopicType::GetAccepted(_)) => Some(JobDocument::Described),
        Some(JobTopicType::UpdateAccepted(_)) => Some(JobDocument::Updated),
        Some(JobTopicType::GetRejected(_)) => Some(JobDocument::Rejected),
        Some(JobTopicType::UpdateRejected(_)) => Some(JobDocument::Rejected),
        Some(JobTopicType::Notify) | Some(JobTopicType::Invalid) | None => None,
    }
}

/// Whether levels that were already split off are those of a job topic.
fn is_job_levels(list: &TopicLevels) -> (is: bool)
    ensures
        is == is_job_path(level_texts(*list)),
{
    level_reads(list, 0, "$aws") && level_reads(list, 1, "things") && level_reads(list, 3, "jobs")
}

/// Whether a topic lies under `$aws/things/{thingName}/jobs`, for any thing.
pub fn is_job_message(topic_name: &str) -> (is: bool)
    ensures
        is == is_job_path(levels(topic_name@)),
{
    is_job_levels(&topic_levels(topic_name))
}

impl JobTopicType {
    /// Tells what a topic is about, from its levels. `None` means that it is not
    /// a job topic of the expected thing.
    pub fn check(expected_thing_name: &str, topic_tokens: &TopicLevels) -> (topic: Option<
        JobTopicType,
    >)
        ensures
            match topic {
                Some(t) => job_topic(expected_thing_name@, level_texts(*topic_tokens)) == Some(t@),
                None => job_topic(expected_thing_name@, level_texts(*topic_tokens)) is None,
            },
    {
        if !is_job_levels(topic_tokens) || !level_reads(topic_tokens, 2, expected_thing_name) {
            return None;
        }
        let job_id = match levels_get(topic_tokens, 4) {
            Some(level) => level,
            None => return Some(JobTopicType::Invalid),
        };
        if level_reads(topic_tokens, 4, "notify") {
            Some(JobTopicType::Notify)
        } else if level_reads(topic_tokens, 4, "notify-next") {
            Some(JobTopicType::NotifyNext)
        } else if level_reads(topic_tokens, 5, "get") {
            if level_reads(topic_tokens, 6, "accepted") {
                Some(JobTopicType::GetAccepted(job_id.to_owned()))
            } else if level_reads(topic_tokens, 6, "rejected") {
                Some(JobTopicType::GetRejected(job_id.to_owned()))
            } else {
                proof {
                    reveal_strlit("get");
                    reveal_strlit("update");
                }
                Some(JobTopicType::Invalid)
            }
        } else if level_reads(topic_tokens, 5, "update") {
            if level_reads(topic_tokens, 6, "accepted") {
                Some(JobTopicType::UpdateAccepted(job_id.to_owned()))
            } else if level_reads(topic_tokens, 6, "rejected") {
                Some(JobTopicType::UpdateRejected(job_id.to_owned()))
            } else {
                Some(JobTopicType::Invalid)
            }
        } else {
            Some(JobTopicType::Invalid)
        }
    }
}

} // verus!
