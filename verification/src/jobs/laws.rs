//! What holds of the job agent as a whole.

use vstd::prelude::*;
use vstd::utf8::encode_utf8;

use crate::bounded::{stream_text, token_text, topic_text, topic_texts};
use crate::jobs::agent::{
    cancels, client_token, describe_path, execution_outcome, get_pending_path, job_subscriptions,
    message_admissible, message_outcome, published, report_sent, reported_execution,
    request_admissible, request_outcome, start_next_path, subscriptions_fit, takes_up, token_fits,
    token_taken, update_outcome, update_path, with_status, JobAction, JobActionView, JobAgentView,
};
use crate::jobs::data::{
    view_option, view_result, DescribeJobExecutionRequest, GetPendingJobExecutionsRequest,
    JobDetails, JobDetailsView, JobError, JobExecution, JobExecutionState, JobExecutionView,
    JobNotification, JobNotificationView, JobPayload, JobStatus, OtaJob,
    StartNextPendingJobExecutionRequest, UpdateJobExecutionRequest, UpdateJobExecutionRequestView,
    UpdateJobExecutionResponse,
};
use crate::jobs::topic::{document_on, is_job_path, job_topic, JobDocument, JobTopicType, JobTopicView};
use crate::mqtt::{Publication, PublicationView, PublishOutcome, QoS, Subscription};
use crate::text::{
    decimal, law_decimal_is_unique, law_decimal_reads_back, lemma_ascii_len,
    lemma_decimal_has_no_colon, lemma_encode_concat, number_read,
};
use crate::topic::{
    join_levels, law_levels_are_found, law_topics_are_measured, lemma_thing_path_levels, levels,
    thing_path, topic_fits, LEVEL_SEPARATOR,
};

verus! {

/// A client token is unique: it tells both the number of the request and the
/// name of the thing.
pub proof fn law_client_tokens_are_unique(n: nat, a: Seq<char>, m: nat, b: Seq<char>)
    requires
        client_token(n, a) == client_token(m, b),
    ensures
        n == m,
        a == b,
{
    reveal_strlit(":");
    lemma_decimal_has_no_colon(n);
    lemma_decimal_has_no_colon(m);
    let (x, y) = (decimal(n), decimal(m));
    let s = client_token(n, a);
    let t = client_token(m, b);
    assert(s[x.len() as int] == ':');
    assert(t[y.len() as int] == ':');
    if x.len() < y.len() {
        assert(y[x.len() as int] == t[x.len() as int]);
        assert(y.contains(':'));
    }
    if y.len() < x.len() {
        assert(x[y.len() as int] == s[y.len() as int]);
        assert(x.contains(':'));
    }
    assert(x =~= s.take(x.len() as int));
    assert(y =~= t.take(y.len() as int));
    law_decimal_is_unique(n, m);
    assert(a =~= s.skip(x.len() as int + 1));
    assert(b =~= t.skip(y.len() as int + 1));
}

/// The count of client tokens never goes back, whatever the agent is asked or
/// told, and goes on by one with each request that goes out. So no two requests
/// of an agent carry the same token.
pub proof fn law_tokens_are_counted<V>(
    agent: JobAgentView,
    thing: Seq<char>,
    path: Seq<char>,
    payload: V,
    status: JobStatus,
    topic: Option<JobTopicView>,
    document: JobPayload,
)
    ensures
        request_outcome(agent, thing, path, payload).1 is Ok ==> request_outcome(
            agent,
            thing,
            path,
            payload,
        ).0.request_cnt == agent.request_cnt + 1,
        request_outcome(agent, thing, path, payload).0.request_cnt >= agent.request_cnt,
        update_outcome(with_status(agent, status), thing, None, None).1 matches Ok(report)
            ==> report.payload.client_token == client_token(agent.request_cnt, thing)
            && update_outcome(with_status(agent, status), thing, None, None).0.request_cnt
            == agent.request_cnt + 1,
        update_outcome(with_status(agent, status), thing, None, None).0.request_cnt
            >= agent.request_cnt,
        message_outcome(agent, thing, topic, document).1 matches Ok(JobActionView::Publish(report))
            ==> report.payload.client_token == client_token(agent.request_cnt, thing)
            && message_outcome(agent, thing, topic, document).0.request_cnt == agent.request_cnt
            + 1,
        message_outcome(agent, thing, topic, document).0.request_cnt >= agent.request_cnt,
        report_sent(agent).request_cnt == agent.request_cnt,
{
}

/// The active job is not displaced: while there is one, an execution either
/// cancels it or leaves the agent as it is.
pub proof fn law_active_job_is_not_displaced(
    agent: JobAgentView,
    thing: Seq<char>,
    execution: JobExecutionView,
)
    requires
        agent.active_job is Some,
    ensures
        !cancels(agent, execution) ==> execution_outcome(agent, thing, execution).0 == agent,
        cancels(agent, execution) ==> {
            &&& execution_outcome(agent, thing, execution).0.active_job is None
            &&& execution_outcome(agent, thing, execution).1 == Ok::<JobActionView, JobError>(
                JobActionView::Notify(
                    Some(
                        JobNotificationView { status: JobStatus::Canceled, ..agent.active_job->0 },
                    ),
                ),
            )
        },
{
}

/// An execution has one of four outcomes. The agent takes up its job, and a
/// report goes out, only where there is no active job. The user is told of a job
/// only where there is an active one: it is given up, or it is in progress.
/// Otherwise nothing happens.
pub proof fn law_executions_have_four_outcomes(
    agent: JobAgentView,
    thing: Seq<char>,
    execution: JobExecutionView,
)
    ensures
        ({
            let (after, result) = execution_outcome(agent, thing, execution);
            let told_of = agent.active_job is Some && execution.status is InProgress;
            &&& result matches Ok(JobActionView::Publish(_)) ==> agent.active_job is None
                && takes_up(agent, execution)
            &&& result matches Ok(JobActionView::Notify(Some(_))) ==> agent.active_job is Some && (
            cancels(agent, execution) || told_of)
            &&& result is Err ==> takes_up(agent, execution)
            &&& told_of ==> after == agent && result == Ok::<JobActionView, JobError>(
                JobActionView::Notify(agent.active_job),
            )
            &&& !takes_up(agent, execution) && !cancels(agent, execution) && !told_of ==> after
                == agent && result == Ok::<JobActionView, JobError>(JobActionView::Notify(None))
        }),
{
}

/// A queued job that the agent takes up is reported as in progress, with the
/// version that the service announced. Once the report is out, the agent expects
/// the next version.
pub proof fn law_queued_job_goes_into_progress(
    agent: JobAgentView,
    thing: Seq<char>,
    execution: JobExecutionView,
)
    requires
        takes_up(agent, execution),
        execution.status is Queued,
        execution_outcome(agent, thing, execution).1 is Ok,
    ensures
        execution_outcome(agent, thing, execution).1 matches Ok(JobActionView::Publish(report)) && {
            &&& report.topic == update_path(thing, execution.job_id)
            &&& report.qos == QoS::AtLeastOnce
            &&& report.payload.status == JobStatus::InProgress
            &&& report.payload.expected_version == execution.version_number
        },
        report_sent(execution_outcome(agent, thing, execution).0).active_job == Some(
            JobNotificationView {
                job_id: execution.job_id,
                version_number: execution.version_number + 1,
                status: JobStatus::InProgress,
                details: execution.job_document->0,
            },
        ),
{
}

/// The version number of the active job never goes back, whatever message
/// comes, as long as there is an active job.
pub proof fn law_version_never_goes_back(
    agent: JobAgentView,
    thing: Seq<char>,
    topic: Option<JobTopicView>,
    payload: JobPayload,
)
    requires
        agent.active_job is Some,
        message_outcome(agent, thing, topic, payload).0.active_job is Some,
    ensures
        message_outcome(agent, thing, topic, payload).0.active_job->0.version_number
            >= agent.active_job->0.version_number,
{
}

/// The agent, once it has made a report and what became of that is known. A
/// report that fails is not published.
pub open spec fn reported(
    agent: JobAgentView,
    thing: Seq<char>,
    status: JobStatus,
    outcome: PublishOutcome,
) -> JobAgentView {
    let (after, report) = update_outcome(with_status(agent, status), thing, None, None);
    if report is Ok {
        published(after, outcome)
    } else {
        after
    }
}

/// Two reports in a row on the same job expect consecutive versions where the
/// first was sent. Where it was not, the second expects the version that the
/// first did. Either way it carries another client token.
pub proof fn law_reports_expect_consecutive_versions(
    agent: JobAgentView,
    thing: Seq<char>,
    first: JobStatus,
    outcome: PublishOutcome,
    second: JobStatus,
)
    requires
        update_outcome(with_status(agent, first), thing, None, None).1 is Ok,
        update_outcome(
            with_status(reported(agent, thing, first, outcome), second),
            thing,
            None,
            None,
        ).1 is Ok,
    ensures
        ({
            let report = update_outcome(with_status(agent, first), thing, None, None).1->Ok_0;
            let next = update_outcome(
                with_status(reported(agent, thing, first, outcome), second),
                thing,
                None,
                None,
            ).1->Ok_0;
            &&& report.payload.status == first
            &&& next.payload.status == second
            &&& next.payload.expected_version == report.payload.expected_version + if outcome is Sent {
                1int
            } else {
                0int
            }
            &&& next.payload.client_token != report.payload.client_token
        }),
{
    let n = agent.request_cnt;
    if client_token(n, thing) == client_token(n + 1, thing) {
        law_client_tokens_are_unique(n, thing, n + 1, thing);
    }
}

/// The agent, once it has made all of `reports`: for each of them the status, and
/// what became of it.
pub open spec fn reported_all(
    agent: JobAgentView,
    thing: Seq<char>,
    reports: Seq<(JobStatus, PublishOutcome)>,
) -> JobAgentView
    decreases reports.len(),
{
    if reports.len() == 0 {
        agent
    } else {
        let (status, outcome) = reports.last();
        reported(reported_all(agent, thing, reports.drop_last()), thing, status, outcome)
    }
}

/// The number of `reports` that were sent.
pub open spec fn sent_count(
    agent: JobAgentView,
    thing: Seq<char>,
    reports: Seq<(JobStatus, PublishOutcome)>,
) -> nat
    decreases reports.len(),
{
    if reports.len() == 0 {
        0
    } else {
        let (status, outcome) = reports.last();
        let before = reported_all(agent, thing, reports.drop_last());
        sent_count(agent, thing, reports.drop_last()) + if update_outcome(
            with_status(before, status),
            thing,
            None,
            None,
        ).1 is Ok && outcome is Sent {
            1nat
        } else {
            0nat
        }
    }
}

/// Each report on the active job expects the version that the job had at first,
/// plus one for each earlier report that was sent. Reports that were not sent, or
/// failed before, do not count.
pub proof fn law_sent_reports_make_versions(
    agent: JobAgentView,
    thing: Seq<char>,
    reports: Seq<(JobStatus, PublishOutcome)>,
    status: JobStatus,
)
    requires
        agent.active_job is Some,
    ensures
        ({
            let before = reported_all(agent, thing, reports);
            let report = update_outcome(with_status(before, status), thing, None, None).1;
            &&& before.active_job is Some
            &&& before.active_job->0.job_id == agent.active_job->0.job_id
            &&& before.active_job->0.version_number == agent.active_job->0.version_number
                + sent_count(agent, thing, reports)
            &&& before.request_cnt >= agent.request_cnt
            &&& report is Ok ==> {
                &&& report->Ok_0.payload.status == status
                &&& report->Ok_0.payload.expected_version == agent.active_job->0.version_number
                    + sent_count(agent, thing, reports)
                &&& report->Ok_0.payload.client_token == client_token(before.request_cnt, thing)
            }
        }),
    decreases reports.len(),
{
    if reports.len() > 0 {
        law_sent_reports_make_versions(agent, thing, reports.drop_last(), reports.last().0);
    }
}

/// What an agent can be asked or told.
pub enum JobCall {
    /// A client token is asked for.
    Token { thing: Seq<char> },
    /// A request to `path` is asked for.
    Request { thing: Seq<char>, path: Seq<char> },
    /// A report on the active job is asked for.
    Report { thing: Seq<char>, status: JobStatus },
    /// A message comes.
    Message { thing: Seq<char>, topic: Option<JobTopicView>, payload: JobPayload },
    /// What became of a report is told.
    Published { outcome: PublishOutcome },
}

/// The agent, once a call is made.
pub open spec fn called(agent: JobAgentView, call: JobCall) -> JobAgentView {
    match call {
        JobCall::Token { thing } => if token_fits(agent, thing) {
            token_taken(agent)
        } else {
            agent
        },
        JobCall::Request { thing, path } => request_outcome(agent, thing, path, ()).0,
        JobCall::Report { thing, status } => update_outcome(
            with_status(agent, status),
            thing,
            None,
            None,
        ).0,
        JobCall::Message { thing, topic, payload } => message_outcome(
            agent,
            thing,
            topic,
            payload,
        ).0,
        JobCall::Published { outcome } => published(agent, outcome),
    }
}

/// The client token that a call has the agent hand out, if it does.
pub open spec fn token_of(agent: JobAgentView, call: JobCall) -> Option<Seq<char>> {
    let (hands_out, thing) = match call {
        JobCall::Token { thing } => (token_fits(agent, thing), thing),
        JobCall::Request { thing, path } => (topic_fits(path) && token_fits(agent, thing), thing),
        JobCall::Report { thing, .. } => (token_fits(agent, thing), thing),
        JobCall::Message { thing, topic, payload } => (
            match reported_execution(topic, payload) {
                Some(execution) => takes_up(agent, execution) && token_fits(agent, thing),
                None => false,
            },
            thing,
        ),
        JobCall::Published { .. } => (false, Seq::empty()),
    };
    if hands_out {
        Some(client_token(agent.request_cnt, thing))
    } else {
        None
    }
}

/// The agent, once all of `calls` are made.
pub open spec fn called_all(agent: JobAgentView, calls: Seq<JobCall>) -> JobAgentView
    decreases calls.len(),
{
    if calls.len() == 0 {
        agent
    } else {
        called(called_all(agent, calls.drop_last()), calls.last())
    }
}

/// The count of client tokens goes on by one with each token that is handed out,
/// and only then.
proof fn lemma_called(agent: JobAgentView, call: JobCall)
    ensures
        called(agent, call).request_cnt == agent.request_cnt + if token_of(agent, call) is Some {
            1int
        } else {
            0int
        },
{
}

/// The count of client tokens does not go back over more calls.
proof fn lemma_count_grows(agent: JobAgentView, calls: Seq<JobCall>, n: int)
    requires
        0 <= n <= calls.len(),
    ensures
        called_all(agent, calls).request_cnt >= called_all(agent, calls.take(n)).request_cnt,
    decreases calls.len(),
{
    if n < calls.len() {
        lemma_count_grows(agent, calls.drop_last(), n);
        assert(calls.drop_last().take(n) =~= calls.take(n));
        lemma_called(called_all(agent, calls.drop_last()), calls.last());
    } else {
        assert(calls.take(n) =~= calls);
    }
}

/// All client tokens that one agent hands out are different, whatever it is asked
/// and told in between, and whatever things are named.
pub proof fn law_no_token_is_handed_out_twice(
    agent: JobAgentView,
    calls: Seq<JobCall>,
    i: int,
    j: int,
)
    requires
        0 <= i < j < calls.len(),
        token_of(called_all(agent, calls.take(i)), calls[i]) is Some,
        token_of(called_all(agent, calls.take(j)), calls[j]) is Some,
    ensures
        token_of(called_all(agent, calls.take(i)), calls[i]) != token_of(
            called_all(agent, calls.take(j)),
            calls[j],
        ),
{
    let (before, later) = (called_all(agent, calls.take(i)), called_all(agent, calls.take(j)));
    lemma_called(before, calls[i]);
    assert(calls.take(i + 1).drop_last() =~= calls.take(i));
    assert(calls.take(j).take(i + 1) =~= calls.take(i + 1));
    lemma_count_grows(agent, calls.take(j), i + 1);
    assert(later.request_cnt > before.request_cnt);
    let (a, b) = (thing_of(calls[i]), thing_of(calls[j]));
    if client_token(before.request_cnt, a) == client_token(later.request_cnt, b) {
        law_client_tokens_are_unique(before.request_cnt, a, later.request_cnt, b);
    }
}

/// The thing that a call names.
spec fn thing_of(call: JobCall) -> Seq<char> {
    match call {
        JobCall::Token { thing } => thing,
        JobCall::Request { thing, .. } => thing,
        JobCall::Report { thing, .. } => thing,
        JobCall::Message { thing, .. } => thing,
        JobCall::Published { .. } => Seq::empty(),
    }
}

/// Of the payload of a message, only the document that its topic stands for is
/// looked at.
pub proof fn law_one_document_is_read(
    agent: JobAgentView,
    thing: Seq<char>,
    topic: Option<JobTopicView>,
    payload: JobPayload,
    other: JobPayload,
)
    requires
        match document_on(topic) {
            Some(JobDocument::NextChanged) => payload.next_changed == other.next_changed,
            Some(JobDocument::Described) => payload.described == other.described,
            Some(JobDocument::Updated) => payload.updated == other.updated,
            Some(JobDocument::Rejected) => payload.rejected == other.rejected,
            None => true,
        },
    ensures
        message_outcome(agent, thing, topic, payload) == message_outcome(
            agent,
            thing,
            topic,
            other,
        ),
{
}

/// A message that rejects a request, or that comes on a topic which is not one
/// of the thing's job topics, changes nothing. The rejection is handed to the
/// user.
pub proof fn law_rejections_change_nothing(
    agent: JobAgentView,
    thing: Seq<char>,
    topic: Option<JobTopicView>,
    payload: JobPayload,
)
    ensures
        topic is None ==> message_outcome(agent, thing, topic, payload) == (
            agent,
            Ok::<JobActionView, JobError>(JobActionView::Notify(None)),
        ),
        topic matches Some(JobTopicView::GetRejected(_)) ==> message_outcome(
            agent,
            thing,
            topic,
            payload,
        ).0 == agent,
        topic matches Some(JobTopicView::UpdateRejected(_)) ==> message_outcome(
            agent,
            thing,
            topic,
            payload,
        ).0 == agent,
        (topic matches Some(JobTopicView::GetRejected(_)) || topic matches Some(
            JobTopicView::UpdateRejected(_),
        )) && payload.rejected is Some ==> message_outcome(agent, thing, topic, payload).1 == Err::<
            JobActionView,
            JobError,
        >(JobError::Rejected(payload.rejected->0)),
{
}

/// A job topic of a thing is a job topic, and is one of no other thing.
pub proof fn law_job_topics_belong_to_one_thing(
    thing: Seq<char>,
    other: Seq<char>,
    path: Seq<char>,
)
    requires
        job_topic(thing, levels(path)) is Some,
    ensures
        is_job_path(levels(path)),
        other != thing ==> job_topic(other, levels(path)) is None,
{
}

/// The levels below `jobs` of a topic of the thing.
proof fn lemma_jobs_path(
    thing: Seq<char>,
    name: Seq<char>,
    suffix: Seq<char>,
    tail: Seq<Seq<char>>,
)
    requires
        !thing.contains(LEVEL_SEPARATOR),
        1 <= tail.len() <= 4,
        forall|i: int| 0 <= i < tail.len() ==> !(#[trigger] tail[i]).contains(LEVEL_SEPARATOR),
        name + suffix == join_levels(tail),
    ensures
        levels(thing_path(thing, "/jobs/"@, name, suffix)) == seq![
            "$aws"@,
            "things"@,
            thing,
            "jobs"@,
        ] + tail,
{
    reveal_strlit("/jobs/");
    reveal_strlit("jobs");
    assert("/jobs/"@ =~= seq![LEVEL_SEPARATOR] + "jobs"@.push(LEVEL_SEPARATOR));
    lemma_thing_path_levels(thing, "jobs"@, "/jobs/"@, name, suffix, tail);
    let all = seq!["$aws"@, "things"@, thing, "jobs"@] + tail;
    assert forall|i: int| 0 <= i < all.len() implies !(#[trigger] all[i]).contains(
        LEVEL_SEPARATOR,
    ) by {
        if i >= 4 {
            assert(all[i] == tail[i - 4]);
        }
    }
    law_levels_are_found(all, crate::consts::MAX_TOPIC_LEVELS as nat);
}

/// Three levels with a separator between each two of them.
spec fn join_three(a: Seq<char>, b: Seq<char>, c: Seq<char>) -> Seq<char> {
    a.push(LEVEL_SEPARATOR) + (b.push(LEVEL_SEPARATOR) + c)
}

/// The levels of a job topic with three levels below `jobs`.
proof fn lemma_three_levels(
    thing: Seq<char>,
    name: Seq<char>,
    suffix: Seq<char>,
    a: Seq<char>,
    b: Seq<char>,
    c: Seq<char>,
)
    requires
        !thing.contains(LEVEL_SEPARATOR),
        !a.contains(LEVEL_SEPARATOR),
        !b.contains(LEVEL_SEPARATOR),
        !c.contains(LEVEL_SEPARATOR),
        name + suffix == join_three(a, b, c),
    ensures
        levels(thing_path(thing, "/jobs/"@, name, suffix)) == seq![
            "$aws"@,
            "things"@,
            thing,
            "jobs"@,
            a,
            b,
            c,
        ],
{
    let tail = seq![a, b, c];
    reveal_with_fuel(join_levels, 4);
    assert(tail.drop_first() =~= seq![b, c]);
    assert(tail.drop_first().drop_first() =~= seq![c]);
    lemma_jobs_path(thing, name, suffix, tail);
    assert(seq!["$aws"@, "things"@, thing, "jobs"@] + tail =~= seq![
        "$aws"@,
        "things"@,
        thing,
        "jobs"@,
        a,
        b,
        c,
    ]);
}

/// The levels of the topic on which a request about a job is answered: `asked`
/// and `answer` are single levels, and `ask` and `reply` the same behind a
/// separator.
proof fn lemma_answer_levels(
    thing: Seq<char>,
    job_id: Seq<char>,
    ask: Seq<char>,
    asked: Seq<char>,
    reply: Seq<char>,
    answer: Seq<char>,
)
    requires
        !thing.contains(LEVEL_SEPARATOR),
        !job_id.contains(LEVEL_SEPARATOR),
        !asked.contains(LEVEL_SEPARATOR),
        !answer.contains(LEVEL_SEPARATOR),
        ask == seq![LEVEL_SEPARATOR] + asked,
        reply == seq![LEVEL_SEPARATOR] + answer,
    ensures
        levels(thing_path(thing, "/jobs/"@, job_id, ask) + reply) == seq![
            "$aws"@,
            "things"@,
            thing,
            "jobs"@,
            job_id,
            asked,
            answer,
        ],
{
    assert(job_id + (ask + reply) =~= join_three(job_id, asked, answer));
    lemma_three_levels(thing, job_id, ask + reply, job_id, asked, answer);
    assert(thing_path(thing, "/jobs/"@, job_id, ask) + reply =~= thing_path(
        thing,
        "/jobs/"@,
        job_id,
        ask + reply,
    ));
}

/// The words for what is asked and what is answered, and the same behind a
/// separator.
proof fn lemma_words()
    ensures
        "/get"@ == seq![LEVEL_SEPARATOR] + "get"@,
        "/update"@ == seq![LEVEL_SEPARATOR] + "update"@,
        "/accepted"@ == seq![LEVEL_SEPARATOR] + "accepted"@,
        "/rejected"@ == seq![LEVEL_SEPARATOR] + "rejected"@,
        !"get"@.contains(LEVEL_SEPARATOR),
        !"update"@.contains(LEVEL_SEPARATOR),
        !"accepted"@.contains(LEVEL_SEPARATOR),
        !"rejected"@.contains(LEVEL_SEPARATOR),
{
    reveal_strlit("/get");
    reveal_strlit("get");
    reveal_strlit("/update");
    reveal_strlit("update");
    reveal_strlit("accepted");
    reveal_strlit("rejected");
    reveal_strlit("/accepted");
    reveal_strlit("/rejected");
    assert("/get"@ =~= seq![LEVEL_SEPARATOR] + "get"@);
    assert("/update"@ =~= seq![LEVEL_SEPARATOR] + "update"@);
    assert("/accepted"@ =~= seq![LEVEL_SEPARATOR] + "accepted"@);
    assert("/rejected"@ =~= seq![LEVEL_SEPARATOR] + "rejected"@);
}

/// The answer to a request that goes out on `path` comes on `path/accepted` or
/// `path/rejected`, and is recognised for what it is: the answer to a `get`
/// request.
pub proof fn law_get_answers_are_recognised(thing: Seq<char>, job_id: Seq<char>)
    requires
        !thing.contains(LEVEL_SEPARATOR),
        !job_id.contains(LEVEL_SEPARATOR),
        job_id != "notify"@,
        job_id != "notify-next"@,
    ensures
        job_topic(thing, levels(describe_path(thing, job_id) + "/accepted"@)) == Some(
            JobTopicView::GetAccepted(job_id),
        ),
        job_topic(thing, levels(describe_path(thing, job_id) + "/rejected"@)) == Some(
            JobTopicView::GetRejected(job_id),
        ),
{
    lemma_words();
    lemma_answer_levels(thing, job_id, "/get"@, "get"@, "/accepted"@, "accepted"@);
    lemma_answer_levels(thing, job_id, "/get"@, "get"@, "/rejected"@, "rejected"@);
    law_job_topics_are_read_off(
        thing,
        levels(describe_path(thing, job_id) + "/accepted"@),
        job_id,
    );
    law_job_topics_are_read_off(
        thing,
        levels(describe_path(thing, job_id) + "/rejected"@),
        job_id,
    );
}

/// The answer to a report that goes out on `path` comes on `path/accepted` or
/// `path/rejected`, and is recognised for what it is: the answer to an `update`
/// request.
pub proof fn law_update_answers_are_recognised(thing: Seq<char>, job_id: Seq<char>)
    requires
        !thing.contains(LEVEL_SEPARATOR),
        !job_id.contains(LEVEL_SEPARATOR),
        job_id != "notify"@,
        job_id != "notify-next"@,
    ensures
        job_topic(thing, levels(update_path(thing, job_id) + "/accepted"@)) == Some(
            JobTopicView::UpdateAccepted(job_id),
        ),
        job_topic(thing, levels(update_path(thing, job_id) + "/rejected"@)) == Some(
            JobTopicView::UpdateRejected(job_id),
        ),
{
    lemma_words();
    lemma_answer_levels(thing, job_id, "/update"@, "update"@, "/accepted"@, "accepted"@);
    lemma_answer_levels(thing, job_id, "/update"@, "update"@, "/rejected"@, "rejected"@);
    law_job_topics_are_read_off(
        thing,
        levels(update_path(thing, job_id) + "/accepted"@),
        job_id,
    );
    law_job_topics_are_read_off(
        thing,
        levels(update_path(thing, job_id) + "/rejected"@),
        job_id,
    );
}

/// The notifications that the agent subscribes to are recognised.
pub proof fn law_notifications_are_recognised(thing: Seq<char>)
    requires
        !thing.contains(LEVEL_SEPARATOR),
    ensures
        job_topic(thing, levels(job_subscriptions(thing)[2])) == Some(JobTopicView::NotifyNext),
{
    reveal_strlit("notify-next");
    reveal_strlit("notify");
    reveal_strlit("");
    let tail = seq!["notify-next"@];
    assert("notify-next"@ + ""@ =~= join_levels(tail));
    lemma_jobs_path(thing, "notify-next"@, ""@, tail);
    assert("notify"@.len() != "notify-next"@.len());
}

/// Whether a topic, cut into levels, matches a subscription: a level `+` of the
/// subscription stands for any level of the topic.
pub open spec fn filter_matches(filter: Seq<Seq<char>>, topic: Seq<Seq<char>>) -> bool {
    &&& filter.len() == topic.len()
    &&& forall|i: int| 0 <= i < filter.len() ==> #[trigger] filter[i] == "+"@ || filter[i] == topic[i]
}

/// The agent listens where it is answered: the answers to its `get` and `update`
/// requests match its subscriptions, for every job.
pub proof fn law_answers_are_subscribed_to(thing: Seq<char>, job_id: Seq<char>)
    requires
        !thing.contains(LEVEL_SEPARATOR),
        !job_id.contains(LEVEL_SEPARATOR),
    ensures
        job_subscriptions(thing).len() == 3,
        filter_matches(
            levels(job_subscriptions(thing)[0]),
            levels(describe_path(thing, job_id) + "/accepted"@),
        ),
        filter_matches(
            levels(job_subscriptions(thing)[0]),
            levels(describe_path(thing, job_id) + "/rejected"@),
        ),
        filter_matches(
            levels(job_subscriptions(thing)[1]),
            levels(update_path(thing, job_id) + "/accepted"@),
        ),
        filter_matches(
            levels(job_subscriptions(thing)[1]),
            levels(update_path(thing, job_id) + "/rejected"@),
        ),
        job_subscriptions(thing)[2] == "$aws/things/"@ + thing + "/jobs/notify-next"@,
{
    reveal_strlit("+");
    reveal_strlit("+/get/+");
    reveal_strlit("+/update/+");
    reveal_strlit("get");
    reveal_strlit("update");
    reveal_strlit("");
    reveal_strlit("/jobs/");
    reveal_strlit("notify-next");
    reveal_strlit("/jobs/notify-next");
    assert("+/get/+"@ + ""@ =~= join_three("+"@, "get"@, "+"@));
    assert("+/update/+"@ + ""@ =~= join_three("+"@, "update"@, "+"@));
    lemma_words();
    lemma_three_levels(thing, "+/get/+"@, ""@, "+"@, "get"@, "+"@);
    lemma_three_levels(thing, "+/update/+"@, ""@, "+"@, "update"@, "+"@);
    lemma_answer_levels(thing, job_id, "/get"@, "get"@, "/accepted"@, "accepted"@);
    lemma_answer_levels(thing, job_id, "/get"@, "get"@, "/rejected"@, "rejected"@);
    lemma_answer_levels(thing, job_id, "/update"@, "update"@, "/accepted"@, "accepted"@);
    lemma_answer_levels(thing, job_id, "/update"@, "update"@, "/rejected"@, "rejected"@);
    assert(job_subscriptions(thing)[2] =~= "$aws/things/"@ + thing + "/jobs/notify-next"@);
}

/// The topics of the agent's requests, and when each of them is short enough: by
/// the bytes that the thing and the job take.
pub proof fn law_request_topics_are_measured(thing: Seq<char>, job_id: Seq<char>)
    ensures
        describe_path(thing, job_id) == "$aws/things/"@ + thing + "/jobs/"@ + job_id + "/get"@,
        update_path(thing, job_id) == "$aws/things/"@ + thing + "/jobs/"@ + job_id + "/update"@,
        get_pending_path(thing) == "$aws/things/"@ + thing + "/jobs/get"@,
        start_next_path(thing) == "$aws/things/"@ + thing + "/jobs/start-next"@,
        job_subscriptions(thing) == seq![
            "$aws/things/"@ + thing + "/jobs/+/get/+"@,
            "$aws/things/"@ + thing + "/jobs/+/update/+"@,
            "$aws/things/"@ + thing + "/jobs/notify-next"@,
        ],
        topic_fits(describe_path(thing, job_id)) <==> encode_utf8(thing).len() + encode_utf8(
            job_id,
        ).len() <= 234,
        topic_fits(update_path(thing, job_id)) <==> encode_utf8(thing).len() + encode_utf8(
            job_id,
        ).len() <= 231,
        topic_fits(get_pending_path(thing)) <==> encode_utf8(thing).len() <= 235,
        topic_fits(start_next_path(thing)) <==> encode_utf8(thing).len() <= 228,
        subscriptions_fit(thing) <==> encode_utf8(thing).len() <= 227,
{
    reveal_strlit("/jobs/");
    reveal_strlit("/get");
    reveal_strlit("/update");
    reveal_strlit("get");
    reveal_strlit("start-next");
    reveal_strlit("/jobs/get");
    reveal_strlit("/jobs/start-next");
    reveal_strlit("+/get/+");
    reveal_strlit("+/update/+");
    reveal_strlit("notify-next");
    reveal_strlit("");
    lemma_ascii_len("/jobs/"@);
    lemma_ascii_len("/get"@);
    lemma_ascii_len("/update"@);
    lemma_ascii_len("get"@);
    lemma_ascii_len("start-next"@);
    lemma_ascii_len("+/get/+"@);
    lemma_ascii_len("+/update/+"@);
    lemma_ascii_len("notify-next"@);
    lemma_ascii_len(""@);
    law_topics_are_measured(thing, "/jobs/"@, job_id, "/get"@);
    law_topics_are_measured(thing, "/jobs/"@, job_id, "/update"@);
    law_topics_are_measured(thing, "/jobs/"@, "get"@, ""@);
    law_topics_are_measured(thing, "/jobs/"@, "start-next"@, ""@);
    law_topics_are_measured(thing, "/jobs/"@, "+/get/+"@, ""@);
    law_topics_are_measured(thing, "/jobs/"@, "+/update/+"@, ""@);
    law_topics_are_measured(thing, "/jobs/"@, "notify-next"@, ""@);
    assert(get_pending_path(thing) =~= "$aws/things/"@ + thing + "/jobs/get"@);
    assert(start_next_path(thing) =~= "$aws/things/"@ + thing + "/jobs/start-next"@);
    let paths = job_subscriptions(thing);
    reveal_strlit("/jobs/+/get/+");
    reveal_strlit("/jobs/+/update/+");
    reveal_strlit("/jobs/notify-next");
    assert(paths[0] =~= "$aws/things/"@ + thing + "/jobs/+/get/+"@);
    assert(paths[1] =~= "$aws/things/"@ + thing + "/jobs/+/update/+"@);
    assert(paths[2] =~= "$aws/things/"@ + thing + "/jobs/notify-next"@);
    if subscriptions_fit(thing) {
        assert(topic_fits(paths[2]));
    }
    if encode_utf8(thing).len() <= 227 {
        assert(topic_fits(paths[0]) && topic_fits(paths[1]) && topic_fits(paths[2]));
    }
}

/// A client token is the number of the request, a colon and the name of the
/// thing, and is short enough where they take no more than 64 bytes in all.
pub proof fn law_client_tokens_are_measured(agent: JobAgentView, thing: Seq<char>)
    ensures
        ({
            let token = client_token(agent.request_cnt, thing);
            let digits = token.len() - thing.len() - 1;
            &&& digits > 0
            &&& number_read(token.take(digits)) == agent.request_cnt
            &&& forall|i: int|
                0 <= i < digits ==> '0' as int <= #[trigger] token[i] as int <= '9' as int
            &&& token[digits] == ':'
            &&& token.skip(digits + 1) == thing
            &&& token_fits(agent, thing) <==> digits + 1 + encode_utf8(thing).len() <= 64
        }),
{
    reveal_strlit(":");
    let number = decimal(agent.request_cnt);
    let token = client_token(agent.request_cnt, thing);
    law_decimal_reads_back(agent.request_cnt);
    assert(token.take(number.len() as int) =~= number);
    assert(token.skip(number.len() as int + 1) =~= thing);
    assert forall|i: int| 0 <= i < number.len() implies '0' as int <= #[trigger] token[i] as int
        <= '9' as int by {
        assert(token[i] == number[i]);
    }
    assert(vstd::utf8::is_ascii_chars(number));
    lemma_ascii_len(number);
    lemma_ascii_len(":"@);
    lemma_encode_concat(number, ":"@);
    lemma_encode_concat(number + ":"@, thing);
}

/// A request goes out as it was asked for, to its topic, where its topic takes no
/// more than 256 bytes and its client token no more than 64. It is counted. Where
/// it does not go out, nothing changes.
pub proof fn law_requests_go_out<V>(
    agent: JobAgentView,
    thing: Seq<char>,
    path: Seq<char>,
    payload: V,
)
    ensures
        ({
            let (after, result) = request_outcome(agent, thing, path, payload);
            let fits = encode_utf8(path).len() <= 256 && encode_utf8(
                client_token(agent.request_cnt, thing),
            ).len() <= 64;
            &&& result is Ok <==> fits
            &&& result matches Ok(request) ==> {
                &&& request.topic == path
                &&& request.qos == QoS::AtLeastOnce
                &&& request.payload == payload
                &&& after.request_cnt == agent.request_cnt + 1
                &&& after.active_job == agent.active_job
            }
            &&& result matches Err(e) ==> e == JobError::Formatting && after == agent
        }),
{
}

/// Reporting sets the status of the active job, and nothing else of it. A report
/// that was sent makes one version more, and one that was not makes none.
pub proof fn law_reports_change_status_and_version(
    agent: JobAgentView,
    status: JobStatus,
    outcome: PublishOutcome,
)
    ensures
        agent.active_job is None ==> with_status(agent, status) == agent && published(
            agent,
            outcome,
        ) == agent,
        agent.active_job matches Some(job) ==> {
            &&& with_status(agent, status) == (JobAgentView {
                request_cnt: agent.request_cnt,
                active_job: Some(
                    JobNotificationView {
                        job_id: job.job_id,
                        version_number: job.version_number,
                        status,
                        details: job.details,
                    },
                ),
            })
            &&& published(agent, outcome) == (JobAgentView {
                request_cnt: agent.request_cnt,
                active_job: Some(
                    JobNotificationView {
                        job_id: job.job_id,
                        version_number: job.version_number + if outcome == PublishOutcome::Sent {
                            1int
                        } else {
                            0int
                        },
                        status: job.status,
                        details: job.details,
                    },
                ),
            })
        },
        outcome.error() == match outcome {
            PublishOutcome::Sent => None::<JobError>,
            PublishOutcome::NotSerialized => Some(JobError::Serialize),
            PublishOutcome::NotSent => Some(JobError::Mqtt),
        },
{
}

/// Whether a report says all that the service has to know of `job`: it goes to
/// the update topic of the job, with the version and the status of the job, and
/// asks for both the job document and the state of the execution.
pub open spec fn reports_fully(
    report: PublicationView<UpdateJobExecutionRequestView>,
    thing: Seq<char>,
    job: JobNotificationView,
    number: nat,
) -> bool {
    &&& report.topic == "$aws/things/"@ + thing + "/jobs/"@ + job.job_id + "/update"@
    &&& report.qos == QoS::AtLeastOnce
    &&& report.payload.expected_version == job.version_number
    &&& report.payload.status == job.status
    &&& report.payload.include_job_document == Some(true)
    &&& report.payload.include_job_execution_state == Some(true)
    &&& report.payload.client_token == client_token(number, thing)
}

/// Every report on the active job, whatever its status, asks for both the job
/// document and the state of the execution, and goes to the update topic of that
/// job. It goes out where there is an active job, its client token takes no more
/// than 64 bytes and its topic no more than 256. Only the count of client tokens
/// changes.
pub proof fn law_reports_ask_for_everything(
    agent: JobAgentView,
    thing: Seq<char>,
    execution_number: Option<i64>,
    step_timeout_in_minutes: Option<i64>,
)
    ensures
        ({
            let (after, result) = update_outcome(
                agent,
                thing,
                execution_number,
                step_timeout_in_minutes,
            );
            let counted = encode_utf8(client_token(agent.request_cnt, thing)).len() <= 64;
            &&& after.active_job == agent.active_job
            &&& after.request_cnt == agent.request_cnt + if counted {
                1int
            } else {
                0int
            }
            &&& result is Ok <==> counted && agent.active_job is Some && encode_utf8(
                "$aws/things/"@ + thing + "/jobs/"@ + agent.active_job->0.job_id + "/update"@,
            ).len() <= 256
            &&& result matches Ok(report) ==> {
                &&& reports_fully(report, thing, agent.active_job->0, agent.request_cnt)
                &&& report.payload.execution_number == execution_number
                &&& report.payload.step_timeout_in_minutes == step_timeout_in_minutes
            }
            &&& result matches Err(e) ==> e == if counted && agent.active_job is None {
                JobError::NoActiveJob
            } else {
                JobError::Formatting
            }
        }),
{
}

/// The same holds of the reports that a message has the agent make: each of them
/// reports on the job that is then active.
pub proof fn law_messages_have_jobs_reported_fully(
    agent: JobAgentView,
    thing: Seq<char>,
    topic: Option<JobTopicView>,
    payload: JobPayload,
)
    ensures
        ({
            let (after, result) = message_outcome(agent, thing, topic, payload);
            result matches Ok(JobActionView::Publish(report)) ==> {
                &&& after.active_job is Some
                &&& reports_fully(report, thing, after.active_job->0, agent.request_cnt)
                &&& report.payload.execution_number is None
                &&& report.payload.step_timeout_in_minutes is None
            }
        }),
{
}

/// An execution makes the agent take up a job where it has none, the execution
/// comes with its document, and it is queued or in progress. The job is the one
/// that the execution names, in progress if it was queued and failed otherwise.
pub proof fn law_free_agents_take_up_jobs(
    agent: JobAgentView,
    thing: Seq<char>,
    execution: JobExecutionView,
)
    requires
        agent.active_job is None,
    ensures
        ({
            let (after, result) = execution_outcome(agent, thing, execution);
            let open = execution.status == JobStatus::Queued || execution.status
                == JobStatus::InProgress;
            &&& after.active_job is Some <==> open && execution.job_document is Some
            &&& after.active_job is None ==> after == agent && result == Ok::<
                JobActionView,
                JobError,
            >(JobActionView::Notify(None))
            &&& after.active_job matches Some(job) ==> {
                &&& job.job_id == execution.job_id
                &&& job.version_number == execution.version_number
                &&& Some(job.details) == execution.job_document
                &&& execution.status == JobStatus::Queued ==> job.status == JobStatus::InProgress
                &&& execution.status == JobStatus::InProgress ==> job.status == JobStatus::Failed
                &&& result matches Ok(action) ==> action is Publish
                &&& result matches Err(e) ==> e == JobError::Formatting
                &&& result is Ok <==> encode_utf8(client_token(agent.request_cnt, thing)).len()
                    <= 64 && encode_utf8(
                    "$aws/things/"@ + thing + "/jobs/"@ + execution.job_id + "/update"@,
                ).len() <= 256
            }
        }),
{
}

/// An agent with an active job gives it up where an execution is canceled or
/// removed, and keeps it otherwise. The user is told of the job then, as canceled,
/// and told of it as it is where an execution is in progress. Nothing goes out.
pub proof fn law_busy_agents_keep_their_job(
    agent: JobAgentView,
    thing: Seq<char>,
    execution: JobExecutionView,
)
    requires
        agent.active_job is Some,
    ensures
        ({
            let (after, result) = execution_outcome(agent, thing, execution);
            let job = agent.active_job->0;
            let ended = execution.status == JobStatus::Canceled || execution.status
                == JobStatus::Removed;
            &&& after.request_cnt == agent.request_cnt
            &&& after.active_job == if ended {
                None
            } else {
                agent.active_job
            }
            &&& result matches Ok(JobActionView::Notify(told)) && (told is Some <==> ended
                || execution.status == JobStatus::InProgress) && (told matches Some(of)
                ==> of.job_id == job.job_id && of.version_number == job.version_number && of.details
                == job.details && of.status == if ended {
                JobStatus::Canceled
            } else {
                job.status
            })
        }),
{
}

/// An accepted report with the state of the execution and the job document ends
/// the active job where the state is canceled or removed, and only then. For every
/// other status the user is told of the job that the topic names, with exactly
/// that status and document, and with the larger of the two versions. That is the
/// active job.
pub proof fn law_accepted_reports_are_taken_over(
    agent: JobAgentView,
    thing: Seq<char>,
    job_id: Seq<char>,
    payload: JobPayload,
    response: UpdateJobExecutionResponse,
    state: JobExecutionState,
    document: JobDetails,
)
    requires
        payload.updated == Some(response),
        response.execution_state == Some(state),
        response.job_document == Some(document),
    ensures
        ({
            let (after, result) = message_outcome(
                agent,
                thing,
                Some(JobTopicView::UpdateAccepted(job_id)),
                payload,
            );
            &&& result == Ok::<JobActionView, JobError>(JobActionView::Notify(after.active_job))
            &&& after.request_cnt == agent.request_cnt
            &&& after.active_job is None <==> state.status == JobStatus::Canceled || state.status
                == JobStatus::Removed
            &&& after.active_job matches Some(job) ==> {
                &&& job.job_id == job_id
                &&& job.status == state.status
                &&& job.details == document@
                &&& job.version_number >= state.version_number
                &&& agent.active_job is Some ==> job.version_number
                    >= agent.active_job->0.version_number
                &&& job.version_number == state.version_number || (agent.active_job is Some
                    && job.version_number == agent.active_job->0.version_number)
            }
        }),
{
}

/// An accepted report that lacks the state or the document changes nothing and is
/// nothing to tell. A payload that is no such answer is an error.
pub proof fn law_incomplete_answers_change_nothing(
    agent: JobAgentView,
    thing: Seq<char>,
    job_id: Seq<char>,
    payload: JobPayload,
)
    requires
        payload.updated matches Some(response) ==> response.execution_state is None
            || response.job_document is None,
    ensures
        message_outcome(agent, thing, Some(JobTopicView::UpdateAccepted(job_id)), payload) == (
            agent,
            if payload.updated is None {
                Err::<JobActionView, JobError>(JobError::InvalidTopic)
            } else {
                Ok(JobActionView::Notify(None))
            },
        ),
{
}

/// An execution is acted on in the same way, be it announced on `notify-next` or
/// the answer to a request. Where none is announced, or there is none to be told
/// of, nothing changes; a notification that cannot be read is an error.
pub proof fn law_announced_executions_are_acted_on(
    agent: JobAgentView,
    thing: Seq<char>,
    job_id: Seq<char>,
    payload: JobPayload,
)
    ensures
        message_outcome(agent, thing, Some(JobTopicView::NotifyNext), payload)
            == match payload.next_changed {
            None => (agent, Err::<JobActionView, JobError>(JobError::Deserialize)),
            Some(next) => match next.execution {
                None => (agent, Ok(JobActionView::Notify(None))),
                Some(execution) => execution_outcome(agent, thing, execution@),
            },
        },
        message_outcome(agent, thing, Some(JobTopicView::GetAccepted(job_id)), payload)
            == match payload.described {
            None => (agent, Ok::<JobActionView, JobError>(JobActionView::Notify(None))),
            Some(described) => match described.execution {
                None => (agent, Ok(JobActionView::Notify(None))),
                Some(execution) => execution_outcome(agent, thing, execution@),
            },
        },
{
}

/// Messages that announce nothing change nothing: a rejection is handed to the
/// user, or is an error where it cannot be read, a job topic of an unknown kind is
/// an error, and all else is left alone.
pub proof fn law_other_messages_change_nothing(
    agent: JobAgentView,
    thing: Seq<char>,
    job_id: Seq<char>,
    payload: JobPayload,
)
    ensures
        ({
            let rejection = (
                agent,
                Err::<JobActionView, JobError>(
                    match payload.rejected {
                        Some(response) => JobError::Rejected(response),
                        None => JobError::Deserialize,
                    },
                ),
            );
            let nothing = (agent, Ok::<JobActionView, JobError>(JobActionView::Notify(None)));
            &&& message_outcome(agent, thing, Some(JobTopicView::GetRejected(job_id)), payload)
                == rejection
            &&& message_outcome(agent, thing, Some(JobTopicView::UpdateRejected(job_id)), payload)
                == rejection
            &&& message_outcome(agent, thing, Some(JobTopicView::Notify), payload) == nothing
            &&& message_outcome(agent, thing, None, payload) == nothing
            &&& message_outcome(agent, thing, Some(JobTopicView::Invalid), payload) == (
                agent,
                Err::<JobActionView, JobError>(JobError::InvalidTopic),
            )
        }),
{
}

/// What a job topic is about is read off its levels: `$aws`, `things`, the name of
/// the thing, `jobs`, and below that either `notify` or `notify-next`, or the id
/// of a job, what was asked, and the answer.
pub proof fn law_job_topics_are_read_off(
    thing: Seq<char>,
    levels: Seq<Seq<char>>,
    job_id: Seq<char>,
)
    ensures
        ({
            let topic = job_topic(thing, levels);
            let under_jobs = levels.len() >= 4 && levels[0] == "$aws"@ && levels[1] == "things"@
                && levels[3] == "jobs"@;
            let ours = under_jobs && levels[2] == thing;
            let named = ours && levels.len() >= 7 && levels[4] == job_id && job_id != "notify"@
                && job_id != "notify-next"@;
            &&& is_job_path(levels) <==> under_jobs
            &&& topic is None <==> !ours
            &&& topic == Some(JobTopicView::Notify) <==> ours && levels.len() >= 5 && levels[4]
                == "notify"@
            &&& topic == Some(JobTopicView::NotifyNext) <==> ours && levels.len() >= 5 && levels[4]
                == "notify-next"@
            &&& topic == Some(JobTopicView::GetAccepted(job_id)) <==> named && levels[5] == "get"@
                && levels[6] == "accepted"@
            &&& topic == Some(JobTopicView::GetRejected(job_id)) <==> named && levels[5] == "get"@
                && levels[6] == "rejected"@
            &&& topic == Some(JobTopicView::UpdateAccepted(job_id)) <==> named && levels[5]
                == "update"@ && levels[6] == "accepted"@
            &&& topic == Some(JobTopicView::UpdateRejected(job_id)) <==> named && levels[5]
                == "update"@ && levels[6] == "rejected"@
        }),
{
    reveal_strlit("notify");
    reveal_strlit("notify-next");
    reveal_strlit("get");
    reveal_strlit("update");
    reveal_strlit("accepted");
    reveal_strlit("rejected");
    assert("notify"@.len() != "notify-next"@.len());
    assert("get"@.len() != "update"@.len());
    assert("accepted"@[0] != "rejected"@[0]);
}

/// A payload is to be read where the topic announces an execution, accepts a
/// report or rejects a request, and nowhere else.
pub proof fn law_documents_are_read_where_they_come(topic: Option<JobTopicView>)
    ensures
        document_on(topic) is None <==> (topic is None || topic == Some(JobTopicView::Notify)
            || topic == Some(JobTopicView::Invalid)),
        document_on(topic) == Some(JobDocument::NextChanged) <==> topic == Some(
            JobTopicView::NotifyNext,
        ),
        document_on(topic) == Some(JobDocument::Described) <==> topic is Some
            && topic->0 is GetAccepted,
        document_on(topic) == Some(JobDocument::Updated) <==> topic is Some
            && topic->0 is UpdateAccepted,
        document_on(topic) == Some(JobDocument::Rejected) <==> topic is Some && (
        topic->0 is GetRejected || topic->0 is UpdateRejected),
{
}

/// Nothing but a full count is in the way of a request: as long as the count of
/// client tokens can go on, the agent can be asked and told anything.
pub proof fn law_only_a_full_count_is_in_the_way(
    agent: JobAgentView,
    thing: Seq<char>,
    topic: Option<JobTopicView>,
    payload: JobPayload,
)
    ensures
        request_admissible(agent, thing) <==> agent.request_cnt < u32::MAX || encode_utf8(
            client_token(agent.request_cnt, thing),
        ).len() > 64,
        request_admissible(agent, thing) || agent.active_job is Some ==> message_admissible(
            agent,
            thing,
            topic,
            payload,
        ),
        !message_admissible(agent, thing, topic, payload) ==> {
            let (after, result) = message_outcome(agent, thing, topic, payload);
            after.request_cnt == agent.request_cnt + 1 && after.active_job != agent.active_job
        },
{
}

/// What the documents of the agent say is said of every one of their fields.
pub proof fn law_documents_are_viewed_whole(
    describe: DescribeJobExecutionRequest,
    pending: GetPendingJobExecutionsRequest,
    start: StartNextPendingJobExecutionRequest,
    update: UpdateJobExecutionRequest,
    told: JobNotification,
    execution: JobExecution,
    job: OtaJob,
)
    ensures
        describe@.execution_number == describe.execution_number,
        describe@.include_job_document == describe.include_job_document,
        describe@.client_token == token_text(describe.client_token),
        pending@.client_token == token_text(pending.client_token),
        start@.step_timeout_in_minutes == start.step_timeout_in_minutes,
        start@.client_token == token_text(start.client_token),
        update@.execution_number == update.execution_number,
        update@.expected_version == update.expected_version,
        update@.include_job_document == update.include_job_document,
        update@.include_job_execution_state == update.include_job_execution_state,
        update@.status == update.status,
        update@.step_timeout_in_minutes == update.step_timeout_in_minutes,
        update@.client_token == token_text(update.client_token),
        told@.job_id == told.job_id@,
        told@.version_number == told.version_number,
        told@.status == told.status,
        told@.details == told.details@,
        execution@.job_id == execution.job_id@,
        execution@.version_number == execution.version_number,
        execution@.status == execution.status,
        execution.job_document is None <==> execution@.job_document is None,
        execution.job_document matches Some(document) ==> execution@.job_document == Some(
            document@,
        ),
        job@.streamname == stream_text(job.streamname),
        job@.files == job.files@,
        JobDetails::Ota(job)@ == JobDetailsView::Ota(job@),
{
}

/// What the agent asks for, and what a topic is about, is said of every part of it.
pub proof fn law_actions_are_viewed_whole<R: View, E>(
    publication: Publication<R>,
    subscription: Subscription,
    result: Result<R, E>,
    value: Option<R>,
    action: JobAction,
    topic: JobTopicType,
)
    ensures
        topic is Notify <==> topic@ is Notify,
        topic is NotifyNext <==> topic@ is NotifyNext,
        topic is Invalid <==> topic@ is Invalid,
        topic matches JobTopicType::GetAccepted(id) ==> topic@ == JobTopicView::GetAccepted(id@),
        topic matches JobTopicType::GetRejected(id) ==> topic@ == JobTopicView::GetRejected(id@),
        topic matches JobTopicType::UpdateAccepted(id) ==> topic@ == JobTopicView::UpdateAccepted(
            id@,
        ),
        topic matches JobTopicType::UpdateRejected(id) ==> topic@ == JobTopicView::UpdateRejected(
            id@,
        ),
        publication@.topic == topic_text(publication.topic),
        publication@.qos == publication.qos,
        publication@.payload == publication.payload@,
        subscription@.topics == topic_texts(subscription.topics),
        subscription@.qos == subscription.qos,
        result matches Ok(v) ==> view_result(result) == Ok::<R::V, E>(v@),
        result matches Err(e) ==> view_result(result) == Err::<R::V, E>(e),
        value matches Some(v) ==> view_option(value) == Some(v@),
        value is None ==> view_option(value) is None,
        action matches JobAction::Publish(report) ==> action@ == JobActionView::Publish(report@),
        action matches JobAction::Notify(Some(told)) ==> action@ == JobActionView::Notify(
            Some(told@),
        ),
        action matches JobAction::Notify(None) ==> action@ == JobActionView::Notify(None),
{
}

} // verus!
