//! What holds of the OTA agent as a whole.

use vstd::prelude::*;
use vstd::utf8::encode_utf8;

use crate::bounded::{stream_text, topic_texts};
use crate::jobs::data::{JobError, JobStatus, OtaJobView};
use crate::jobs::topic::is_job_path;
use crate::mqtt::QoS;
use crate::ota::agent::{
    block_outcome, blocks_request, close_outcome, closed_outcome, completed_outcome,
    created_outcome, data_path, encoded_outcome, final_event, first_request_blocks, get_path,
    job_admissible, job_outcome, message_admissible, message_outcome, next_request,
    progress_outcome, started, storable, timer_outcome, written_outcome, AgentState, AgentStateView,
    BlocksRequest, BlocksRequestView, CloseStep, CloseStepView, JobStep, JobStepView, OtaAgentView,
    OtaStateView, OtaStep, OtaStepView,
};
use crate::ota::bitmap::{
    bit_of, lemma_block_geometry, lemma_outstanding_bounds, lemma_outstanding_clear, outstanding,
    packs,
};
use crate::ota::config::OtaConfig;
use crate::ota::data::{
    OtaEvent, StreamRequest, StreamRequestView, StreamResponse, StreamResponseView,
};
use crate::ota::error::{OtaError, OtaPalError};
use crate::ota::topic::{
    carries_block, is_stream_path, ota_topic, stream_name_fits, OtaTopicType, OtaTopicView,
};
use crate::text::lemma_ascii_len;
use crate::topic::{
    join_levels, law_levels_are_found, law_topics_are_measured, lemma_thing_path_levels, levels,
    thing_path, topic_fits, LEVEL_SEPARATOR,
};

verus! {

/// The blocks tile the file: none of them is empty or larger than a block may
/// be, each one ends where the next begins, and the last one ends where the file
/// does.
pub proof fn law_blocks_tile_the_file(state: OtaStateView, config: OtaConfig, block_id: int)
    requires
        state.wf(config),
        0 <= block_id <= state.last_block(),
    ensures
        0 < state.block_len(config, block_id) <= config.block_size,
        block_id < state.last_block() ==> block_id * config.block_size + state.block_len(
            config,
            block_id,
        ) == (block_id + 1) * config.block_size,
        block_id == state.last_block() ==> block_id * config.block_size + state.block_len(
            config,
            block_id,
        ) == state.file.filesize,
        block_id * config.block_size + state.block_len(config, block_id) <= state.file.filesize,
{
    let (size, last) = (config.block_size as int, state.last_block());
    lemma_block_geometry(state.file.filesize as int, size);
    assert((block_id + 1) * size == block_id * size + size) by (nonlinear_arith);
    assert((last + 1) * size == last * size + size) by (nonlinear_arith);
    if block_id < last {
        assert((block_id + 1) * size <= last * size) by (nonlinear_arith)
            requires
                block_id < last,
                size > 0,
        ;
    }
}

/// The progress is a percentage. It is 100 when no block is to come, and only
/// then, 0 after the first block if that is not the last, and never goes back as
/// blocks come.
pub proof fn law_progress_is_a_percentage(state: OtaStateView, remaining: int, later: int)
    requires
        0 <= later <= remaining <= state.last_block(),
    ensures
        0 <= state.progress_with(remaining) <= 100,
        state.progress_with(remaining) == 100 <==> remaining == 0,
        state.last_block() > 0 ==> state.progress_with(state.last_block()) == 0,
        state.progress_with(remaining) <= state.progress_with(later),
{
    let last = state.last_block();
    if last > 0 {
        let done = (last - remaining) * 100;
        vstd::arithmetic::div_mod::lemma_div_is_ordered(0, done, last);
        vstd::arithmetic::div_mod::lemma_div_is_ordered(done, (last - later) * 100, last);
        vstd::arithmetic::div_mod::lemma_div_is_ordered(done, last * 100, last);
        vstd::arithmetic::div_mod::lemma_div_multiples_vanish(100, last);
        vstd::arithmetic::div_mod::lemma_div_of0(last);
        assert(last * 100 == 100 * last);
        if remaining > 0 {
            vstd::arithmetic::div_mod::lemma_multiply_divide_lt(done, last, 100);
        }
    }
}

/// A good block that has come before is not stored again: nothing changes, but
/// that the stream is known to answer.
pub proof fn law_duplicates_change_nothing<E>(agent: OtaAgentView, block: StreamResponseView)
    requires
        agent.agent_state is Active,
        block.file_id == agent.active().file.fileid,
        agent.active().in_range(agent.config, block),
        !agent.active().bitmap[block.block_id],
    ensures
        block_outcome::<E>(agent, Some(block)).0 == agent.with_active(agent.active().answered()),
        block_outcome::<E>(agent, Some(block)).1 is Done,
{
}

/// A block that the platform could not store is still to come.
pub proof fn law_failed_blocks_are_still_to_come<E>(
    agent: OtaAgentView,
    block_id: int,
    error: OtaPalError<E>,
)
    requires
        agent.agent_state is Active,
    ensures
        written_outcome::<E>(agent, block_id, Err(error)) == (
            agent,
            OtaStepView::<E>::Done(Err(OtaError::PalError(error))),
        ),
{
}

/// An update starts with every block of its file to come, and with none of its
/// requests unanswered.
pub proof fn law_updates_start_from_nothing(config: OtaConfig, job: OtaJobView)
    requires
        job_admissible(config, job),
    ensures
        started(config, job).wf(config),
        started(config, job).request_momentum == 0,
        started(config, job).total_blocks_remaining == started(config, job).bitmap.len(),
        forall|i: int|
            0 <= i < started(config, job).bitmap.len() ==> #[trigger] started(
                config,
                job,
            ).bitmap[i],
{
    let begun = started(config, job);
    lemma_block_geometry(job.files[0].filesize as int, config.block_size as int);
    lemma_outstanding_bounds(begun.bitmap);
}

/// The last block completes the update, be it the only one: it is stored, the
/// file is to be closed, the job is reported to have succeeded if it could be and
/// to have failed if not, and the progress is 100.
pub proof fn law_last_block_completes<E>(
    agent: OtaAgentView,
    block: StreamResponseView,
    closed: Result<(), OtaPalError<E>>,
)
    requires
        agent.wf(),
        agent.agent_state is Active,
        agent.active().total_blocks_remaining == 1,
        block.file_id == agent.active().file.fileid,
        agent.active().in_range(agent.config, block),
        agent.active().bitmap[block.block_id],
    ensures
        ({
            let (asked, step) = block_outcome::<E>(agent, Some(block));
            let (after, next) = written_outcome::<E>(
                asked,
                block.block_id,
                Ok::<(), OtaPalError<E>>(()),
            );
            &&& step == (OtaStepView::<E>::WriteBlock {
                file: agent.active().file,
                offset: block.block_id * agent.config.block_size,
                payload: block.block_payload,
                block_id: block.block_id,
            })
            &&& next == (OtaStepView::<E>::CloseFile { file: agent.active().file, progress: 100 })
            &&& after.active().total_blocks_remaining == 0
            &&& forall|i: int|
                0 <= i < after.active().bitmap.len() ==> !#[trigger] after.active().bitmap[i]
        }),
        closed_outcome(100, closed) == (OtaStepView::<E>::ReportCompletion {
            status: if closed is Ok {
                JobStatus::Succeeded
            } else {
                JobStatus::Failed
            },
            progress: 100,
        }),
        completed_outcome::<E>(100, Ok(())) == OtaStepView::<E>::Done(Ok(100)),
{
    let state = agent.active();
    lemma_outstanding_clear(state.bitmap, block.block_id);
    lemma_outstanding_bounds(state.bitmap.update(block.block_id, false));
}

/// The block of `source` with the given index, as the stream sends it.
pub open spec fn block_of(
    state: OtaStateView,
    config: OtaConfig,
    source: Seq<u8>,
    block_id: int,
) -> StreamResponseView {
    let offset = block_id * config.block_size;
    StreamResponseView {
        block_id,
        block_payload: source.subrange(offset, offset + state.block_len(config, block_id)),
        block_size: state.block_len(config, block_id),
        file_id: state.file.fileid,
    }
}

/// What a file holds once a step is carried out on it: the step may write to it.
pub open spec fn carried_out<E>(contents: Seq<u8>, step: OtaStepView<E>) -> Seq<u8> {
    match step {
        OtaStepView::WriteBlock { offset, payload, .. } => Seq::new(
            contents.len(),
            |i: int|
                if offset <= i < offset + payload.len() {
                    payload[i - offset]
                } else {
                    contents[i]
                },
        ),
        _ => contents,
    }
}

/// The agent, once it has handled a block of its file, and all that it asked
/// for on that account was done.
pub open spec fn handled<E>(
    agent: OtaAgentView,
    thing: Seq<char>,
    block: StreamResponseView,
) -> OtaAgentView {
    let (asked, step) = block_outcome::<E>(agent, Some(block));
    if step is WriteBlock {
        let (stored, next) = written_outcome::<E>(
            asked,
            block.block_id,
            Ok::<(), OtaPalError<E>>(()),
        );
        let (reported, last) = match next {
            OtaStepView::ReportProgress { progress, .. } => progress_outcome::<E>(
                stored,
                progress,
                Ok::<(), JobError>(()),
            ),
            _ => (stored, next),
        };
        match last {
            OtaStepView::RequestBlocks { .. } => encoded_outcome::<E>(
                reported,
                thing,
                Some(Seq::empty()),
            ).0,
            _ => reported,
        }
    } else {
        asked
    }
}

/// The progress that a step hands on, if it hands one on.
pub open spec fn progress_of<E>(step: OtaStepView<E>) -> Option<int> {
    match step {
        OtaStepView::Done(Ok(progress)) => Some(progress as int),
        OtaStepView::Done(Err(_)) => None,
        OtaStepView::WriteBlock { .. } => None,
        OtaStepView::CloseFile { progress, .. } => Some(progress),
        OtaStepView::ReportCompletion { progress, .. } => Some(progress),
        OtaStepView::ReportProgress { progress, .. } => Some(progress),
        OtaStepView::RequestBlocks { progress, .. } => Some(progress),
    }
}

/// A block is stored once. When it comes again, right after it was handled, the
/// progress is the same as the first time, and nothing changes, but that the
/// stream is known to answer.
pub proof fn law_blocks_are_stored_once<E>(
    agent: OtaAgentView,
    thing: Seq<char>,
    block: StreamResponseView,
    again: StreamResponseView,
)
    requires
        agent.wf(),
        agent.agent_state is Active,
        block_outcome::<E>(agent, Some(block)).1 is WriteBlock,
        again.block_id == block.block_id,
        again.block_size == block.block_size,
        again.file_id == block.file_id,
    ensures
        ({
            let (asked, _) = block_outcome::<E>(agent, Some(block));
            let (_, first) = written_outcome::<E>(
                asked,
                block.block_id,
                Ok::<(), OtaPalError<E>>(()),
            );
            let after = handled::<E>(agent, thing, block);
            let (unchanged, second) = block_outcome::<E>(after, Some(again));
            &&& unchanged == after.with_active(after.active().answered())
            &&& second matches OtaStepView::Done(Ok(_))
            &&& progress_of(first) is Some ==> progress_of(first) == progress_of(second)
        }),
{
    let state = agent.active();
    lemma_outstanding_clear(state.bitmap, block.block_id);
    lemma_outstanding_bounds(state.bitmap.update(block.block_id, false));
    law_progress_is_a_percentage(
        state,
        state.total_blocks_remaining - 1,
        state.total_blocks_remaining - 1,
    );
}

/// A good block that is still to come is written once, where it belongs. Once it
/// is written it is no longer to come, every other block is as it was, and the
/// count is still that of the blocks to come. What becomes of the reports and of
/// the request that follow does not change that.
pub proof fn law_written_blocks_stay_written<E>(
    agent: OtaAgentView,
    block: StreamResponseView,
    reported: Result<(), JobError>,
    closed: Result<(), OtaPalError<E>>,
    thing: Seq<char>,
    encoded: Option<Seq<u8>>,
    progress: int,
)
    requires
        agent.wf(),
        agent.agent_state is Active,
        block.file_id == agent.active().file.fileid,
        agent.active().in_range(agent.config, block),
        agent.active().bitmap[block.block_id],
    ensures
        ({
            let (asked, step) = block_outcome::<E>(agent, Some(block));
            let (written, next) = written_outcome::<E>(
                asked,
                block.block_id,
                Ok::<(), OtaPalError<E>>(()),
            );
            let (told, last) = progress_outcome::<E>(written, progress, reported);
            let after = agent.active().bitmap.update(block.block_id, false);
            &&& step == (OtaStepView::<E>::WriteBlock {
                file: agent.active().file,
                offset: block.block_id * agent.config.block_size,
                payload: block.block_payload,
                block_id: block.block_id,
            })
            &&& next !is WriteBlock
            &&& last !is WriteBlock
            &&& written.active().bitmap == after
            &&& written.active().total_blocks_remaining == agent.active().total_blocks_remaining - 1
            &&& written.active().total_blocks_remaining == outstanding(after)
            &&& told.active().bitmap == after
            &&& told.active().total_blocks_remaining == outstanding(after)
            &&& encoded_outcome::<E>(written, thing, encoded).0.active().bitmap == after
            &&& encoded_outcome::<E>(told, thing, encoded).0.active().bitmap == after
            &&& encoded_outcome::<E>(
                written,
                thing,
                encoded,
            ).0.active().total_blocks_remaining == outstanding(after)
            &&& encoded_outcome::<E>(told, thing, encoded).0.active().total_blocks_remaining
                == outstanding(after)
            &&& closed_outcome(progress, closed) !is WriteBlock
        }),
{
    lemma_outstanding_clear(agent.active().bitmap, block.block_id);
}

/// The agent and what the file holds, once the blocks of `source` have come in
/// the given order.
pub open spec fn transferred<E>(
    agent: OtaAgentView,
    thing: Seq<char>,
    contents: Seq<u8>,
    source: Seq<u8>,
    order: Seq<int>,
) -> (OtaAgentView, Seq<u8>)
    decreases order.len(),
{
    if order.len() == 0 {
        (agent, contents)
    } else {
        let (before, file) = transferred::<E>(agent, thing, contents, source, order.drop_last());
        let block = block_of(before.active(), before.config, source, order.last());
        (
            handled::<E>(before, thing, block),
            carried_out(file, block_outcome::<E>(before, Some(block)).1),
        )
    }
}

/// Handling a block has it stored if it is still to come, and changes nothing
/// else about the file and the stream.
proof fn lemma_handled<E>(agent: OtaAgentView, thing: Seq<char>, source: Seq<u8>, block_id: int)
    requires
        agent.wf(),
        agent.agent_state is Active,
        0 <= block_id < agent.active().bitmap.len(),
    ensures
        ({
            let block = block_of(agent.active(), agent.config, source, block_id);
            let after = handled::<E>(agent, thing, block);
            let step = block_outcome::<E>(agent, Some(block)).1;
            &&& after.wf()
            &&& after.config == agent.config
            &&& after.agent_state is Active
            &&& after.active().file == agent.active().file
            &&& after.active().stream_name == agent.active().stream_name
            &&& after.active().bitmap == agent.active().bitmap.update(block_id, false)
            &&& agent.active().bitmap[block_id] ==> step == (OtaStepView::<E>::WriteBlock {
                file: agent.active().file,
                offset: block_id * agent.config.block_size,
                payload: block.block_payload,
                block_id,
            })
            &&& !agent.active().bitmap[block_id] ==> step is Done
        }),
{
    if agent.active().bitmap[block_id] {
        lemma_outstanding_clear(agent.active().bitmap, block_id);
    } else {
        assert(agent.active().bitmap.update(block_id, false) =~= agent.active().bitmap);
    }
}

/// A byte of the file lies in the block that its index, divided by the block
/// size, tells.
proof fn lemma_byte_in_block(state: OtaStateView, config: OtaConfig, block_id: int, i: int)
    requires
        state.wf(config),
        0 <= block_id <= state.last_block(),
        0 <= i < state.file.filesize,
    ensures
        (block_id * config.block_size <= i < block_id * config.block_size + state.block_len(
            config,
            block_id,
        )) <==> i / (config.block_size as int) == block_id,
        0 <= i / (config.block_size as int) <= state.last_block(),
{
    let (size, last) = (config.block_size as int, state.last_block());
    let q = i / size;
    lemma_block_geometry(state.file.filesize as int, size);
    law_blocks_tile_the_file(state, config, block_id);
    vstd::arithmetic::div_mod::lemma_fundamental_div_mod(i, size);
    vstd::arithmetic::div_mod::lemma_mod_bound(i, size);
    vstd::arithmetic::div_mod::lemma_div_pos_is_pos(i, size);
    assert(size * q == q * size) by (nonlinear_arith);
    assert((last + 1) * size == last * size + size) by (nonlinear_arith);
    assert((q + 1) * size == q * size + size) by (nonlinear_arith);
    assert((block_id + 1) * size == block_id * size + size) by (nonlinear_arith);
    if q > last {
        assert(q * size >= (last + 1) * size) by (nonlinear_arith)
            requires
                q >= last + 1,
                size > 0,
        ;
    }
    if q < block_id {
        assert((q + 1) * size <= block_id * size) by (nonlinear_arith)
            requires
                q + 1 <= block_id,
                size > 0,
        ;
    }
    if q > block_id {
        assert((block_id + 1) * size <= q * size) by (nonlinear_arith)
            requires
                block_id + 1 <= q,
                size > 0,
        ;
    }
}

/// What is stored is the file that the stream sends. In whatever order its
/// blocks come, and however often, each byte of a block that was to come and has
/// come is the byte of the source, every other byte is untouched, and the agent
/// knows which blocks are still to come. When none is, and what was stored before
/// is right, the file is the source.
pub proof fn law_transfer_yields_the_source<E>(
    agent: OtaAgentView,
    thing: Seq<char>,
    contents: Seq<u8>,
    source: Seq<u8>,
    order: Seq<int>,
)
    requires
        agent.wf(),
        agent.agent_state is Active,
        source.len() == agent.active().file.filesize,
        contents.len() == source.len(),
        forall|k: int|
            0 <= k < order.len() ==> 0 <= #[trigger] order[k] < agent.active().bitmap.len(),
    ensures
        ({
            let (after, file) = transferred::<E>(agent, thing, contents, source, order);
            let size = agent.config.block_size as int;
            &&& after.wf()
            &&& after.config == agent.config
            &&& after.agent_state is Active
            &&& after.active().file == agent.active().file
            &&& after.active().stream_name == agent.active().stream_name
            &&& after.active().bitmap.len() == agent.active().bitmap.len()
            &&& forall|i: int|
                0 <= i < after.active().bitmap.len() ==> #[trigger] after.active().bitmap[i] == (
                agent.active().bitmap[i] && !order.contains(i))
            &&& file.len() == source.len()
            &&& forall|i: int|
                0 <= i < source.len() ==> #[trigger] file[i] == if agent.active().bitmap[i / size]
                    && order.contains(i / size) {
                    source[i]
                } else {
                    contents[i]
                }
            &&& after.active().total_blocks_remaining == 0 && (forall|i: int|
                0 <= i < source.len() && !agent.active().bitmap[i / size] ==> #[trigger] contents[i]
                    == source[i]) ==> file == source
        }),
    decreases order.len(),
{
    let size = agent.config.block_size as int;
    let blocks = agent.active().bitmap.len();
    let (after, file) = transferred::<E>(agent, thing, contents, source, order);
    if order.len() > 0 {
        let front = order.drop_last();
        let block_id = order.last();
        assert(block_id == order[order.len() - 1]);
        assert forall|k: int| 0 <= k < front.len() implies 0 <= #[trigger] front[k] < blocks by {
            assert(front[k] == order[k]);
        }
        law_transfer_yields_the_source::<E>(agent, thing, contents, source, front);
        let (before, held) = transferred::<E>(agent, thing, contents, source, front);
        lemma_handled::<E>(before, thing, source, block_id);
        let block = block_of(before.active(), before.config, source, block_id);
        law_blocks_tile_the_file(before.active(), before.config, block_id);
        assert(block_id * size >= 0) by (nonlinear_arith)
            requires
                block_id >= 0,
                size > 0,
        ;
        assert(block.block_payload.len() == before.active().block_len(before.config, block_id));
        assert forall|i: int| order.contains(i) == (front.contains(i) || i == block_id) by {
            if order.contains(i) {
                let k = order.index_of(i);
                if k < front.len() {
                    assert(front[k] == i);
                }
            }
            if front.contains(i) {
                let k = front.index_of(i);
                assert(order[k] == i);
            }
            if i == block_id {
                assert(order[order.len() - 1] == i);
            }
        }
        assert forall|i: int| 0 <= i < source.len() implies #[trigger] file[i]
            == if agent.active().bitmap[i / size] && order.contains(i / size) {
            source[i]
        } else {
            contents[i]
        } by {
            lemma_byte_in_block(before.active(), before.config, block_id, i);
            assert(held[i] == if agent.active().bitmap[i / size] && front.contains(i / size) {
                source[i]
            } else {
                contents[i]
            });
            assert(order.contains(i / size) == (front.contains(i / size) || i / size == block_id));
            assert(before.active().bitmap[block_id] == (agent.active().bitmap[block_id]
                && !front.contains(block_id)));
        }
    }
    if after.active().total_blocks_remaining == 0 && (forall|i: int|
        0 <= i < source.len() && !agent.active().bitmap[i / size] ==> #[trigger] contents[i]
            == source[i]) {
        lemma_outstanding_bounds(after.active().bitmap);
        assert forall|i: int| 0 <= i < source.len() implies file[i] == source[i] by {
            lemma_block_geometry(source.len() as int, size);
            lemma_byte_in_block(after.active(), after.config, 0, i);
            assert(!after.active().bitmap[i / size]);
        }
        assert(file =~= source);
    }
}

/// The agent, once `count` requests in a row are sent to the stream.
pub open spec fn after_requests<E>(agent: OtaAgentView, thing: Seq<char>, count: nat) -> OtaAgentView
    decreases count,
{
    if count == 0 {
        agent
    } else {
        encoded_outcome::<E>(
            after_requests::<E>(agent, thing, (count - 1) as nat),
            thing,
            Some(Seq::empty()),
        ).0
    }
}

/// Requests in a row without a good block are limited: the configured number of
/// them is sent, and the next one is refused. The update stays in progress.
pub proof fn law_silence_stops_requests<E>(agent: OtaAgentView, thing: Seq<char>, count: nat)
    requires
        agent.agent_state is Active,
        agent.active().request_momentum == 0,
        topic_fits(get_path(thing, agent.active().stream_name)),
        count <= agent.config.max_request_momentum,
    ensures
        after_requests::<E>(agent, thing, count) == agent.with_active(
            OtaStateView { request_momentum: count as int, ..agent.active() },
        ),
        blocks_request::<E>(after_requests::<E>(agent, thing, count)) is Ok <==> count
            < agent.config.max_request_momentum,
        count == agent.config.max_request_momentum ==> blocks_request::<E>(
            after_requests::<E>(agent, thing, count),
        ) == Err::<crate::ota::data::StreamRequestView, OtaError<E>>(
            OtaError::MaxMomentumAbort(agent.config.max_request_momentum),
        ),
    decreases count,
{
    if count > 0 {
        law_silence_stops_requests::<E>(agent, thing, (count - 1) as nat);
    }
}

/// When the timer goes off while blocks are to come, exactly those are asked for
/// again, as many at once as may be, unless too many requests went unanswered.
/// Nothing about the blocks changes.
pub proof fn law_timer_asks_for_what_is_missing(agent: OtaAgentView)
    requires
        agent.wf(),
        agent.agent_state is Active,
        agent.active().total_blocks_remaining > 0,
    ensures
        timer_outcome(agent, true).0.active().bitmap == agent.active().bitmap,
        timer_outcome(agent, true).1 is Some <==> agent.active().request_momentum
            < agent.config.max_request_momentum,
        timer_outcome(agent, true).1 matches Some(request) ==> {
            &&& request.block_bitmap == agent.active().bitmap
            &&& request.number_of_blocks == agent.config.max_blocks_per_request
            &&& request.file_id == agent.active().file.fileid
        },
{
}

/// The agent, once the timer has gone off `count` times, and the number of
/// requests that were sent on that account.
pub open spec fn expired<E>(agent: OtaAgentView, thing: Seq<char>, count: nat) -> (OtaAgentView, nat)
    decreases count,
{
    if count == 0 {
        (agent, 0)
    } else {
        let (before, sent) = expired::<E>(agent, thing, (count - 1) as nat);
        match timer_outcome(before, true) {
            (asked, Some(_)) => (
                encoded_outcome::<E>(asked, thing, Some(Seq::empty())).0,
                sent + 1,
            ),
            (asked, None) => (asked, sent),
        }
    }
}

/// Without an answer, the timer has requests sent until as many are unanswered
/// as may be, and no more after that. So an update whose first request was sent
/// makes as many requests in all as one more than the timer went off, but no more
/// than may go unanswered. It stays in progress, with the same blocks to come.
pub proof fn law_timer_stops_in_silence<E>(agent: OtaAgentView, thing: Seq<char>, count: nat)
    requires
        agent.wf(),
        agent.agent_state is Active,
        agent.active().total_blocks_remaining > 0,
        topic_fits(get_path(thing, agent.active().stream_name)),
    ensures
        ({
            let (after, sent) = expired::<E>(agent, thing, count);
            let (unanswered, most) = (
                agent.active().request_momentum,
                agent.config.max_request_momentum as int,
            );
            &&& unanswered + sent == if unanswered + count <= most {
                unanswered + count
            } else {
                most
            }
            &&& after.wf()
            &&& after.config == agent.config
            &&& after.agent_state is Active
            &&& after.active().request_momentum == unanswered + sent
            &&& after.active().stream_name == agent.active().stream_name
            &&& after.active().bitmap == agent.active().bitmap
            &&& after.active().total_blocks_remaining == agent.active().total_blocks_remaining
        }),
    decreases count,
{
    if count > 0 {
        law_timer_stops_in_silence::<E>(agent, thing, (count - 1) as nat);
    }
}

/// Any good block, be it a duplicate, lets the agent make requests again.
pub proof fn law_good_blocks_end_the_silence<E>(agent: OtaAgentView, block: StreamResponseView)
    requires
        agent.agent_state is Active,
        block.file_id == agent.active().file.fileid,
        agent.active().in_range(agent.config, block),
        agent.config.max_request_momentum > 0,
    ensures
        block_outcome::<E>(agent, Some(block)).0.active().request_momentum == 0,
        blocks_request::<E>(block_outcome::<E>(agent, Some(block)).0) is Ok,
{
}

/// A message that is turned down leaves the update as it is, unless it says that
/// the stream rejects the request: that ends the update.
pub proof fn law_refused_messages_change_nothing<E>(
    agent: OtaAgentView,
    topic: Option<OtaTopicView>,
    response: Option<StreamResponseView>,
    error: OtaError<E>,
)
    requires
        message_outcome::<E>(agent, topic, response).2 == OtaStepView::<E>::Done(Err(error)),
    ensures
        error == OtaError::<E>::RequestRejected ==> message_outcome::<E>(agent, topic, response).0
            == agent.at_rest(),
        error != OtaError::<E>::RequestRejected ==> message_outcome::<E>(agent, topic, response).0
            == agent,
{
}

/// Only one update is in progress at a time: another job is turned down, and
/// the same job again is left alone.
pub proof fn law_one_update_at_a_time<E>(agent: OtaAgentView, thing: Seq<char>, job: OtaJobView)
    requires
        agent.agent_state is Active,
    ensures
        agent.active().stream_name == job.streamname ==> job_outcome::<E>(agent, thing, job)
            == Ok::<JobStepView, OtaError<E>>(JobStepView::InProgress),
        agent.active().stream_name != job.streamname ==> job_outcome::<E>(agent, thing, job)
            == Err::<JobStepView, OtaError<E>>(OtaError::Busy),
{
}

/// An update that is given up makes room for the next: no job is turned down as
/// long as there is none in progress and its topic is short enough.
pub proof fn law_rest_makes_room<E>(agent: OtaAgentView, thing: Seq<char>, job: OtaJobView)
    requires
        topic_fits(data_path(thing, job.streamname)),
    ensures
        job_outcome::<E>(agent.at_rest(), thing, job) matches Ok(
            JobStepView::Subscribe { subscription, job: taken },
        ) && subscription.topics == seq![data_path(thing, job.streamname)] && taken == job,
{
}

/// The first request of an update asks for all of its blocks, for no more than
/// the configured number at once, and for no more than 128 KiB at once.
pub proof fn law_first_request_is_bounded(config: OtaConfig, job: OtaJobView)
    requires
        job_admissible(config, job),
        config.block_size <= u32::MAX,
    ensures
        forall|i: int|
            0 <= i < started(config, job).bitmap.len() ==> #[trigger] started(
                config,
                job,
            ).request(config).block_bitmap[i],
        started(config, job).request(config).number_of_blocks <= config.max_blocks_per_request,
        started(config, job).request(config).number_of_blocks * config.block_size <= 131072,
{
    let size = config.block_size as int;
    let most = 131072int / size;
    let number = first_request_blocks(config);
    vstd::arithmetic::div_mod::lemma_small_mod(config.block_size as nat, 0x1_0000_0000);
    vstd::arithmetic::div_mod::lemma_fundamental_div_mod(131072, size);
    vstd::arithmetic::div_mod::lemma_mod_bound(131072, size);
    vstd::arithmetic::div_mod::lemma_div_is_ordered_by_denominator(131072, 1, size);
    assert(0 <= most <= 131072);
    assert(number * size <= most * size) by (nonlinear_arith)
        requires
            number <= most,
            size > 0,
    ;
    assert(most * size == size * most) by (nonlinear_arith);
}

/// No topic is both a job topic and a stream topic.
pub proof fn law_jobs_and_streams_are_apart(path: Seq<char>)
    ensures
        !(is_job_path(levels(path)) && is_stream_path(levels(path))),
{
    reveal_strlit("jobs");
    reveal_strlit("streams");
    assert("jobs"@.len() != "streams"@.len());
}

/// The levels below `streams` of a topic of the thing.
proof fn lemma_streams_path(
    thing: Seq<char>,
    name: Seq<char>,
    suffix: Seq<char>,
    tail: Seq<Seq<char>>,
)
    requires
        !thing.contains(LEVEL_SEPARATOR),
        1 <= tail.len() <= 4,
        forall|i: int| 0 <= i < tail.len() ==> !(#[trigger] tail[i]).contains(LEVEL_SEPARATOR),
        name + suffix == join_levels(tail),
    ensures
        levels(thing_path(thing, "/streams/"@, name, suffix)) == seq![
            "$aws"@,
            "things"@,
            thing,
            "streams"@,
        ] + tail,
{
    reveal_strlit("/streams/");
    reveal_strlit("streams");
    assert("/streams/"@ =~= seq![LEVEL_SEPARATOR] + "streams"@.push(LEVEL_SEPARATOR));
    lemma_thing_path_levels(thing, "streams"@, "/streams/"@, name, suffix, tail);
    let all = seq!["$aws"@, "things"@, thing, "streams"@] + tail;
    assert forall|i: int| 0 <= i < all.len() implies !(#[trigger] all[i]).contains(
        LEVEL_SEPARATOR,
    ) by {
        if i >= 4 {
            assert(all[i] == tail[i - 4]);
        }
    }
    law_levels_are_found(all, crate::consts::MAX_TOPIC_LEVELS as nat);
}

/// The topic that the agent subscribes to for a stream is recognised as carrying
/// the blocks of that stream, and the rejection of a request for blocks as such.
pub proof fn law_stream_topics_are_recognised(thing: Seq<char>, stream: Seq<char>)
    requires
        !thing.contains(LEVEL_SEPARATOR),
        !stream.contains(LEVEL_SEPARATOR),
    ensures
        ota_topic(thing, levels(data_path(thing, stream))) == Some(OtaTopicView::CborData(stream)),
        ota_topic(thing, levels(get_path(thing, stream) + "/rejected"@)) == Some(
            OtaTopicView::CborGetRejected(stream),
        ),
{
    reveal_strlit("/data/cbor");
    reveal_strlit("/get/cbor");
    reveal_strlit("/rejected");
    reveal_strlit("data");
    reveal_strlit("get");
    reveal_strlit("cbor");
    reveal_strlit("rejected");
    reveal_with_fuel(join_levels, 5);
    let data = seq![stream, "data"@, "cbor"@];
    let rejected = seq![stream, "get"@, "cbor"@, "rejected"@];
    assert(data.drop_first() =~= seq!["data"@, "cbor"@]);
    assert(data.drop_first().drop_first() =~= seq!["cbor"@]);
    assert(rejected.drop_first() =~= seq!["get"@, "cbor"@, "rejected"@]);
    assert(rejected.drop_first().drop_first() =~= seq!["cbor"@, "rejected"@]);
    assert(rejected.drop_first().drop_first().drop_first() =~= seq!["rejected"@]);
    assert(stream + "/data/cbor"@ =~= join_levels(data));
    assert(stream + ("/get/cbor"@ + "/rejected"@) =~= join_levels(rejected));
    lemma_streams_path(thing, stream, "/data/cbor"@, data);
    lemma_streams_path(thing, stream, "/get/cbor"@ + "/rejected"@, rejected);
    assert(get_path(thing, stream) + "/rejected"@ =~= thing_path(
        thing,
        "/streams/"@,
        stream,
        "/get/cbor"@ + "/rejected"@,
    ));
    assert("data"@.len() != "get"@.len());
}

/// Whether `progress` is the share of the blocks of a file that have come, in
/// percent and rounded down, with `remaining` of them still to come. `last` is the
/// index of the last block: the first block does not count.
pub open spec fn is_share(progress: int, last: int, remaining: int) -> bool {
    if remaining == 0 {
        progress == 100
    } else {
        progress * last <= (last - remaining) * 100 < (progress + 1) * last
    }
}

/// The progress is the share of the blocks that have come, rounded down, for
/// every file and every number of blocks still to come.
pub proof fn law_progress_is_the_share_of_blocks(state: OtaStateView, remaining: int)
    requires
        0 <= remaining <= state.bitmap.len() - 1,
    ensures
        is_share(state.progress_with(remaining), state.bitmap.len() - 1, remaining),
        0 < remaining ==> {
            let (p, last) = (state.progress_with(remaining), state.bitmap.len() - 1);
            p * last <= (last - remaining) * 100 < (p + 1) * last
        },
        state.progress_with(0) == 100,
{
    let last = state.bitmap.len() - 1;
    if remaining > 0 {
        let done = (last - remaining) * 100;
        let p = done / last;
        vstd::arithmetic::div_mod::lemma_fundamental_div_mod(done, last);
        vstd::arithmetic::div_mod::lemma_mod_bound(done, last);
        assert(last * p == p * last) by (nonlinear_arith);
        assert((p + 1) * last == p * last + last) by (nonlinear_arith);
    }
}

/// A block is good where it begins within the file and is as long as a block, or
/// as the rest of the file where that is less.
pub proof fn law_good_blocks_lie_in_the_file(
    state: OtaStateView,
    config: OtaConfig,
    block: StreamResponseView,
)
    requires
        state.wf(config),
    ensures
        state.in_range(config, block) <==> {
            let begin = block.block_id * config.block_size;
            &&& 0 <= block.block_id
            &&& begin < state.file.filesize
            &&& block.block_size == if state.file.filesize - begin < config.block_size {
                state.file.filesize - begin
            } else {
                config.block_size as int
            }
        },
        0 <= block.block_id && block.block_id * config.block_size < state.file.filesize
            <==> 0 <= block.block_id < state.bitmap.len(),
{
    let (size, last, id) = (config.block_size as int, state.last_block(), block.block_id);
    lemma_block_geometry(state.file.filesize as int, size);
    assert((last + 1) * size == last * size + size) by (nonlinear_arith);
    assert((id + 1) * size == id * size + size) by (nonlinear_arith);
    if id < last {
        assert((id + 1) * size <= last * size) by (nonlinear_arith)
            requires
                id + 1 <= last,
                size > 0,
        ;
    }
    if id > last {
        assert((last + 1) * size <= id * size) by (nonlinear_arith)
            requires
                last + 1 <= id,
                size > 0,
        ;
    }
}

/// Each block that comes is judged by its file, its place and its size, in this
/// order. A good one ends the silence of the stream. One that has come before is
/// answered with the progress, and any other is to be written where it begins.
pub proof fn law_blocks_are_judged<E>(
    agent: OtaAgentView,
    state: OtaStateView,
    block: StreamResponseView,
)
    requires
        agent.wf(),
        agent.agent_state == AgentStateView::Active(state),
        state.file.filesize > 0,
    ensures
        ({
            let (after, step) = block_outcome::<E>(agent, Some(block));
            let begin = block.block_id * agent.config.block_size;
            let rest = state.file.filesize - begin;
            let in_place = 0 <= block.block_id && rest > 0;
            let good = in_place && block.block_size == if rest < agent.config.block_size {
                rest
            } else {
                agent.config.block_size as int
            };
            let answered = OtaAgentView {
                config: agent.config,
                agent_state: AgentStateView::Active(
                    OtaStateView {
                        file: state.file,
                        bitmap: state.bitmap,
                        stream_name: state.stream_name,
                        total_blocks_remaining: state.total_blocks_remaining,
                        request_block_remaining: state.request_block_remaining,
                        request_momentum: 0,
                    },
                ),
                image_state: agent.image_state,
                next_update_percentage: agent.next_update_percentage,
            };
            if block.file_id != state.file.fileid {
                after == agent && step == OtaStepView::<E>::Done(Err(OtaError::BadFileHandle))
            } else if !good {
                after == agent && step == OtaStepView::<E>::Done(Err(OtaError::BlockOutOfRange))
            } else if state.bitmap[block.block_id] {
                after == answered && step == (OtaStepView::<E>::WriteBlock {
                    file: state.file,
                    offset: begin,
                    payload: block.block_payload,
                    block_id: block.block_id,
                })
            } else {
                &&& after == answered
                &&& step matches OtaStepView::Done(Ok(progress)) && is_share(
                    progress as int,
                    state.bitmap.len() - 1,
                    state.total_blocks_remaining,
                )
            }
        }),
        block_outcome::<E>(agent, None) == (
            agent,
            OtaStepView::<E>::Done(Err(OtaError::BadData)),
        ),
{
    law_good_blocks_lie_in_the_file(state, agent.config, block);
    lemma_outstanding_bounds(state.bitmap);
    if state.in_range(agent.config, block) && !state.bitmap[block.block_id] {
        law_progress_is_a_percentage(
            state,
            state.total_blocks_remaining,
            state.total_blocks_remaining,
        );
        law_progress_is_the_share_of_blocks(state, state.total_blocks_remaining);
    }
}

/// A message is acted on by the state of the agent and by its topic. The timer is
/// started anew where the topic carries blocks of an update in progress, and only
/// there, whatever the message holds.
pub proof fn law_messages_are_acted_on_by_topic<E>(
    agent: OtaAgentView,
    topic: Option<OtaTopicView>,
    response: Option<StreamResponseView>,
)
    ensures
        ({
            let (after, wait, step) = message_outcome::<E>(agent, topic, response);
            let busy = agent.agent_state is Active;
            let data = topic is Some && topic->0 is CborData;
            let rejected = topic is Some && topic->0 is CborGetRejected;
            &&& wait == if busy && data {
                Some(agent.config.request_wait_ms)
            } else {
                None
            }
            &&& busy && data ==> (after, step) == block_outcome::<E>(agent, response)
            &&& busy && rejected ==> {
                &&& after == (OtaAgentView {
                    config: agent.config,
                    agent_state: AgentStateView::Ready,
                    image_state: agent.image_state,
                    next_update_percentage: agent.next_update_percentage,
                })
                &&& step == OtaStepView::<E>::Done(Err(OtaError::RequestRejected))
            }
            &&& busy && !data && !rejected ==> after == agent && step == OtaStepView::<E>::Done(
                Err(OtaError::InvalidTopic),
            )
            &&& !busy ==> after == agent && step == OtaStepView::<E>::Done(
                Err(OtaError::NoOtaActive),
            )
        }),
{
}

/// Whether a request for blocks asks for exactly those that are still to come.
/// Bit `i` of its bitmap stands for block `block_offset + i` of the file.
pub open spec fn asks_for_missing(
    request: StreamRequestView,
    config: OtaConfig,
    state: OtaStateView,
) -> bool {
    &&& request.client_token == "rdy"@
    &&& request.file_id == state.file.fileid
    &&& request.block_size == config.block_size
    &&& request.block_offset == 0
    &&& request.number_of_blocks == state.request_block_remaining
    &&& request.block_bitmap.len() == state.bitmap.len()
    &&& forall|block_id: int|
        0 <= block_id < state.bitmap.len() ==> #[trigger] state.bitmap[block_id]
            == request.block_bitmap[block_id - request.block_offset]
}

/// A request for blocks, whatever the state of the update, asks for exactly the
/// blocks that are still to come. It is made unless too many requests went
/// unanswered.
pub proof fn law_requests_ask_for_what_is_missing<E>(agent: OtaAgentView)
    ensures
        ({
            let result = blocks_request::<E>(agent);
            match agent.agent_state {
                AgentStateView::Ready => result == Err::<StreamRequestView, OtaError<E>>(
                    OtaError::NoOtaActive,
                ),
                AgentStateView::Active(state) => {
                    &&& result is Ok <==> state.request_momentum < agent.config.max_request_momentum
                    &&& result matches Ok(request) ==> asks_for_missing(
                        request,
                        agent.config,
                        state,
                    )
                    &&& result is Err ==> result == Err::<StreamRequestView, OtaError<E>>(
                        OtaError::MaxMomentumAbort(agent.config.max_request_momentum),
                    )
                },
            }
        }),
{
}

/// The same holds of every request that the timer brings about. It asks for as
/// many blocks at once as may be. Only that number changes, and only where the
/// timer has gone off while blocks are to come.
pub proof fn law_timer_requests_ask_for_what_is_missing(agent: OtaAgentView, elapsed: bool)
    ensures
        ({
            let (after, request) = timer_outcome(agent, elapsed);
            match agent.agent_state {
                AgentStateView::Active(state) if elapsed && state.total_blocks_remaining > 0 => {
                    let asked = OtaStateView {
                        file: state.file,
                        bitmap: state.bitmap,
                        stream_name: state.stream_name,
                        total_blocks_remaining: state.total_blocks_remaining,
                        request_block_remaining: agent.config.max_blocks_per_request,
                        request_momentum: state.request_momentum,
                    };
                    &&& after == (OtaAgentView {
                        config: agent.config,
                        agent_state: AgentStateView::Active(asked),
                        image_state: agent.image_state,
                        next_update_percentage: agent.next_update_percentage,
                    })
                    &&& request is Some <==> state.request_momentum
                        < agent.config.max_request_momentum
                    &&& request matches Some(r) ==> asks_for_missing(r, agent.config, asked)
                },
                _ => after == agent && request is None,
            }
        }),
{
}

/// A block that is stored counts against the last request. Where it was not the
/// last one asked for, the number asked for goes down by one, and that is all.
/// Where it was, the blocks that are still to come are asked for, as many at once
/// as may be.
pub proof fn law_batches_follow_each_other<E>(
    agent: OtaAgentView,
    state: OtaStateView,
    progress: u8,
)
    requires
        agent.agent_state == AgentStateView::Active(state),
    ensures
        ({
            let (after, step) = next_request::<E>(agent, progress as int);
            let asked = OtaStateView {
                file: state.file,
                bitmap: state.bitmap,
                stream_name: state.stream_name,
                total_blocks_remaining: state.total_blocks_remaining,
                request_block_remaining: if state.request_block_remaining > 1 {
                    (state.request_block_remaining - 1) as u32
                } else {
                    agent.config.max_blocks_per_request
                },
                request_momentum: state.request_momentum,
            };
            &&& after == (OtaAgentView {
                config: agent.config,
                agent_state: AgentStateView::Active(asked),
                image_state: agent.image_state,
                next_update_percentage: agent.next_update_percentage,
            })
            &&& state.request_block_remaining > 1 ==> step == OtaStepView::<E>::Done(Ok(progress))
            &&& state.request_block_remaining <= 1 ==> match step {
                OtaStepView::RequestBlocks { request, progress: handed_on } => {
                    &&& state.request_momentum < agent.config.max_request_momentum
                    &&& asks_for_missing(request, agent.config, asked)
                    &&& handed_on == progress
                },
                _ => {
                    &&& state.request_momentum >= agent.config.max_request_momentum
                    &&& step == OtaStepView::<E>::Done(
                        Err(OtaError::MaxMomentumAbort(agent.config.max_request_momentum)),
                    )
                },
            }
        }),
{
}

/// Storing a block clears its bit and counts it, and nothing else. The last block
/// has the file closed. Any other has the progress reported as soon as it is the
/// one at which a report is due, and goes on to the next blocks if it is not.
pub proof fn law_stored_blocks_move_the_update_on<E>(
    agent: OtaAgentView,
    state: OtaStateView,
    block_id: int,
)
    requires
        agent.wf(),
        agent.agent_state == AgentStateView::Active(state),
        0 <= block_id < state.bitmap.len(),
        state.bitmap[block_id],
    ensures
        ({
            let (after, step) = written_outcome::<E>(
                agent,
                block_id,
                Ok::<(), OtaPalError<E>>(()),
            );
            let remaining = state.total_blocks_remaining - 1;
            let stored = OtaAgentView {
                config: agent.config,
                agent_state: AgentStateView::Active(
                    OtaStateView {
                        file: state.file,
                        bitmap: state.bitmap.update(block_id, false),
                        stream_name: state.stream_name,
                        total_blocks_remaining: remaining,
                        request_block_remaining: state.request_block_remaining,
                        request_momentum: state.request_momentum,
                    },
                ),
                image_state: agent.image_state,
                next_update_percentage: agent.next_update_percentage,
            };
            let progress = state.progress_with(remaining);
            &&& is_share(progress, state.bitmap.len() - 1, remaining)
            &&& 0 <= progress <= 100
            &&& if remaining == 0 {
                after == stored && step == (OtaStepView::<E>::CloseFile {
                    file: state.file,
                    progress: 100,
                })
            } else if progress == agent.next_update_percentage {
                after == stored && step == (OtaStepView::<E>::ReportProgress {
                    status: JobStatus::InProgress,
                    progress,
                })
            } else {
                (after, step) == next_request::<E>(stored, progress)
            }
        }),
{
    lemma_outstanding_bounds(state.bitmap);
    lemma_outstanding_clear(state.bitmap, block_id);
    lemma_outstanding_bounds(state.bitmap.update(block_id, false));
    let remaining = state.total_blocks_remaining - 1;
    law_progress_is_a_percentage(state, remaining, remaining);
    law_progress_is_the_share_of_blocks(state, remaining);
    assert(state.stored(block_id).progress_with(remaining) == state.progress_with(remaining));
}

/// After a report of the progress the next one is due by as many percents later as
/// is configured, and the update goes on to the next blocks. A report that failed
/// changes nothing, and its error is handed on.
pub proof fn law_progress_reports_are_spaced<E>(
    agent: OtaAgentView,
    progress: int,
    error: JobError,
)
    ensures
        progress_outcome::<E>(agent, progress, Ok(())) == next_request::<E>(
            OtaAgentView {
                config: agent.config,
                agent_state: agent.agent_state,
                image_state: agent.image_state,
                next_update_percentage: agent.next_update_percentage
                    + agent.config.percentage_change_between_status_update,
            },
            progress,
        ),
        progress_outcome::<E>(agent, progress, Err(error)) == (
            agent,
            OtaStepView::<E>::Done(Err(OtaError::Jobs(error))),
        ),
{
}

/// A complete file ends the job: it has succeeded where the platform could close
/// the file, and failed where not. The progress is handed on, unless the report
/// fails.
pub proof fn law_complete_files_end_the_job<E>(
    progress: u8,
    failure: OtaPalError<E>,
    error: JobError,
)
    ensures
        closed_outcome(progress as int, Ok::<(), OtaPalError<E>>(())) == (
        OtaStepView::<E>::ReportCompletion {
            status: JobStatus::Succeeded,
            progress: progress as int,
        }),
        closed_outcome(progress as int, Err::<(), OtaPalError<E>>(failure)) == (
        OtaStepView::<E>::ReportCompletion {
            status: JobStatus::Failed,
            progress: progress as int,
        }),
        completed_outcome::<E>(progress, Ok(())) == OtaStepView::<E>::Done(Ok(progress)),
        completed_outcome::<E>(progress, Err(error)) == OtaStepView::<E>::Done(
            Err(OtaError::Jobs(error)),
        ),
        forall|status: JobStatus|
            #![trigger final_event(status)]
            {
                &&& final_event(status) == OtaEvent::Activate <==> status == JobStatus::Succeeded
                &&& final_event(status) == OtaEvent::Fail <==> status != JobStatus::Succeeded
            },
{
}

/// A request that is encoded goes out as it was encoded, to the stream of the
/// update, where its topic takes no more than 256 bytes. It counts as unanswered,
/// and nothing else changes. Otherwise nothing changes at all.
pub proof fn law_encoded_requests_go_to_the_stream<E>(
    agent: OtaAgentView,
    state: OtaStateView,
    thing: Seq<char>,
    encoded: Option<Seq<u8>>,
)
    requires
        agent.agent_state == AgentStateView::Active(state),
    ensures
        ({
            let (after, result) = encoded_outcome::<E>(agent, thing, encoded);
            let path = "$aws/things/"@ + thing + "/streams/"@ + state.stream_name + "/get/cbor"@;
            &&& result is Ok <==> encoded is Some && encode_utf8(path).len() <= 256
            &&& result matches Ok(sent) ==> {
                &&& sent.publication.topic == path
                &&& sent.publication.qos == QoS::AtMostOnce
                &&& Some(sent.publication.payload) == encoded
                &&& sent.wait_ms == agent.config.request_wait_ms
                &&& after == (OtaAgentView {
                    config: agent.config,
                    agent_state: AgentStateView::Active(
                        OtaStateView {
                            file: state.file,
                            bitmap: state.bitmap,
                            stream_name: state.stream_name,
                            total_blocks_remaining: state.total_blocks_remaining,
                            request_block_remaining: state.request_block_remaining,
                            request_momentum: state.request_momentum + 1,
                        },
                    ),
                    image_state: agent.image_state,
                    next_update_percentage: agent.next_update_percentage,
                })
            }
            &&& result is Err ==> after == agent
            &&& result is Err && encoded is None ==> result == Err::<BlocksRequestView, OtaError<E>>(
                OtaError::BadData,
            )
            &&& result is Err && encoded is Some ==> result == Err::<BlocksRequestView, OtaError<E>>(
                OtaError::Formatting,
            )
        }),
{
}

/// Every update in progress can be given up, whatever blocks are still to come:
/// the topic on which its stream sends is to be unsubscribed from, where that
/// takes no more than 256 bytes. There is nothing to do where no update is in
/// progress, and only there. Once it is given up the agent is at rest, and nothing
/// else has changed.
pub proof fn law_updates_are_given_up<E>(agent: OtaAgentView, thing: Seq<char>)
    ensures
        ({
            let result = close_outcome::<E>(agent, thing);
            &&& result == Ok::<CloseStepView, OtaError<E>>(CloseStepView::Closed)
                <==> agent.agent_state is Ready
            &&& agent.agent_state matches AgentStateView::Active(state) ==> {
                let path = "$aws/things/"@ + thing + "/streams/"@ + state.stream_name
                    + "/data/cbor"@;
                &&& encode_utf8(path).len() <= 256 ==> result == Ok::<CloseStepView, OtaError<E>>(
                    CloseStepView::Unsubscribe(seq![path]),
                )
                &&& encode_utf8(path).len() > 256 ==> result == Err::<CloseStepView, OtaError<E>>(
                    OtaError::Formatting,
                )
            }
        }),
        agent.at_rest() == (OtaAgentView {
            config: agent.config,
            agent_state: AgentStateView::Ready,
            image_state: agent.image_state,
            next_update_percentage: agent.next_update_percentage,
        }),
        close_outcome::<E>(agent.at_rest(), thing) == Ok::<CloseStepView, OtaError<E>>(
            CloseStepView::Closed,
        ),
{
}

/// A new job is subscribed to where no update is in progress and the topic on
/// which its stream sends takes no more than 256 bytes. The job is handed on as it
/// is.
pub proof fn law_new_jobs_are_subscribed_to<E>(
    agent: OtaAgentView,
    thing: Seq<char>,
    job: OtaJobView,
)
    requires
        agent.agent_state is Ready,
    ensures
        ({
            let path = "$aws/things/"@ + thing + "/streams/"@ + job.streamname + "/data/cbor"@;
            let result = job_outcome::<E>(agent, thing, job);
            &&& encode_utf8(path).len() > 256 ==> result == Err::<JobStepView, OtaError<E>>(
                OtaError::Formatting,
            )
            &&& encode_utf8(path).len() <= 256 ==> {
                &&& result matches Ok(JobStepView::Subscribe { subscription, job: taken })
                &&& subscription.topics == seq![path]
                &&& subscription.qos == QoS::AtMostOnce
                &&& taken.streamname == job.streamname
                &&& taken.files == job.files
            }
        }),
{
}

/// The update of a job is that of its first file, from the stream of the job. The
/// file is cut into just as many blocks as cover it, and every one of them is to
/// come. Nothing but the update changes, and the first request asks for all of it.
pub proof fn law_jobs_start_updates<E>(agent: OtaAgentView, job: OtaJobView, failure: OtaPalError<E>)
    requires
        job_admissible(agent.config, job),
    ensures
        ({
            let (after, result) = created_outcome::<E>(
                agent,
                job,
                Ok::<(), OtaPalError<E>>(()),
            );
            let size = agent.config.block_size as int;
            &&& after.config == agent.config
            &&& after.image_state == agent.image_state
            &&& after.next_update_percentage == agent.next_update_percentage
            &&& after.agent_state matches AgentStateView::Active(state) && {
                &&& state.file == job.files[0]
                &&& state.stream_name == job.streamname
                &&& (state.bitmap.len() - 1) * size < state.file.filesize || state.file.filesize == 0
                &&& state.file.filesize <= state.bitmap.len() * size
                &&& state.file.filesize == 0 ==> state.bitmap.len() == 0
                &&& forall|i: int| 0 <= i < state.bitmap.len() ==> #[trigger] state.bitmap[i]
                &&& state.total_blocks_remaining == state.bitmap.len()
                &&& state.request_momentum == 0
                &&& result is Ok <==> agent.config.max_request_momentum > 0
                &&& result matches Ok(request) ==> asks_for_missing(request, agent.config, state)
                &&& result is Err ==> result == Err::<StreamRequestView, OtaError<E>>(
                    OtaError::MaxMomentumAbort(0),
                )
            }
        }),
        created_outcome::<E>(agent, job, Err(failure)) == (
            agent,
            Err::<StreamRequestView, OtaError<E>>(OtaError::PalError(failure)),
        ),
{
    law_updates_start_from_nothing(agent.config, job);
    lemma_block_geometry(job.files[0].filesize as int, agent.config.block_size as int);
}

/// The first request asks for as many blocks as one request may, or else for as
/// many as fit 128 KiB: for one more there would be no room. The block size is
/// taken in 32 bits.
pub proof fn law_first_requests_are_as_large_as_may_be(config: OtaConfig)
    requires
        config.block_size as int % 0x1_0000_0000 != 0,
    ensures
        ({
            let (number, size) = (
                first_request_blocks(config) as int,
                config.block_size as int % 0x1_0000_0000,
            );
            &&& 0 <= number <= config.max_blocks_per_request
            &&& number * size <= 131072
            &&& number == config.max_blocks_per_request || (number + 1) * size > 131072
        }),
{
    let size = config.block_size as int % 0x1_0000_0000;
    let most = 131072int / size;
    let number = first_request_blocks(config) as int;
    vstd::arithmetic::div_mod::lemma_mod_bound(config.block_size as int, 0x1_0000_0000);
    vstd::arithmetic::div_mod::lemma_fundamental_div_mod(131072, size);
    vstd::arithmetic::div_mod::lemma_mod_bound(131072, size);
    vstd::arithmetic::div_mod::lemma_div_is_ordered_by_denominator(131072, 1, size);
    assert(0 <= most <= 131072);
    assert(most * size == size * most) by (nonlinear_arith);
    assert((most + 1) * size == most * size + size) by (nonlinear_arith);
    assert(number * size <= most * size) by (nonlinear_arith)
        requires
            number <= most,
            size > 0,
    ;
}

/// A job can be started where it has a file and that can be cut into blocks
/// without an overflow.
pub proof fn law_ordinary_jobs_can_be_started(config: OtaConfig, job: OtaJobView)
    requires
        job.files.len() > 0,
        0 < config.block_size <= u32::MAX,
    ensures
        job_admissible(config, job) <==> job.files[0].filesize + config.block_size <= usize::MAX,
{
    vstd::arithmetic::div_mod::lemma_small_mod(config.block_size as nat, 0x1_0000_0000);
}

/// An update whose file is not empty can act on every message and store every
/// block that is to come, as long as a hundred times the number of its blocks is
/// no overflow.
pub proof fn law_ordinary_updates_can_go_on(
    agent: OtaAgentView,
    state: OtaStateView,
    topic: Option<OtaTopicView>,
    response: Option<StreamResponseView>,
    block_id: int,
)
    requires
        agent.wf(),
        agent.agent_state == AgentStateView::Active(state),
        state.file.filesize > 0,
        state.bitmap.len() * 100 <= usize::MAX,
    ensures
        stream_name_fits(topic) ==> message_admissible(agent, topic, response),
        storable(agent, block_id) <==> 0 <= block_id < state.bitmap.len() && state.bitmap[block_id],
{
    lemma_outstanding_bounds(state.bitmap);
}

/// An agent without an update can act on every message.
pub proof fn law_agents_at_rest_can_act_on_everything(
    agent: OtaAgentView,
    topic: Option<OtaTopicView>,
    response: Option<StreamResponseView>,
)
    requires
        agent.agent_state is Ready,
    ensures
        message_admissible(agent, topic, response),
        agent.wf(),
{
}

/// What a stream topic is about is read off its levels: `$aws`, `things`, the name
/// of the thing, `streams`, the name of the stream, and below that either `data`
/// and `cbor`, or `get`, `cbor` and `rejected`. The name of the stream may take
/// 128 bytes.
pub proof fn law_stream_topics_are_read_off(
    thing: Seq<char>,
    levels: Seq<Seq<char>>,
    stream: Seq<char>,
)
    ensures
        ({
            let topic = ota_topic(thing, levels);
            let under_streams = levels.len() >= 4 && levels[0] == "$aws"@ && levels[1] == "things"@
                && levels[3] == "streams"@;
            let ours = under_streams && levels[2] == thing;
            let named = ours && levels.len() >= 7 && levels[4] == stream;
            &&& is_stream_path(levels) <==> under_streams
            &&& topic is None <==> !ours
            &&& topic == Some(OtaTopicView::CborData(stream)) <==> named && levels[5] == "data"@
                && levels[6] == "cbor"@
            &&& topic == Some(OtaTopicView::CborGetRejected(stream)) <==> named && levels.len() >= 8
                && levels[5] == "get"@ && levels[6] == "cbor"@ && levels[7] == "rejected"@
            &&& carries_block(topic) <==> topic is Some && topic->0 is CborData
        }),
        stream_name_fits(Some(OtaTopicView::CborData(stream))) <==> encode_utf8(stream).len()
            <= 128,
        stream_name_fits(Some(OtaTopicView::CborGetRejected(stream))) <==> encode_utf8(
            stream,
        ).len() <= 128,
        stream_name_fits(Some(OtaTopicView::Invalid)),
        stream_name_fits(None),
{
    reveal_strlit("data");
    reveal_strlit("get");
    assert("data"@.len() != "get"@.len());
}

/// The topics of a stream, and when each of them is short enough: by the bytes
/// that the thing and the stream take.
pub proof fn law_stream_topics_are_measured(thing: Seq<char>, stream: Seq<char>)
    ensures
        data_path(thing, stream) == "$aws/things/"@ + thing + "/streams/"@ + stream
            + "/data/cbor"@,
        get_path(thing, stream) == "$aws/things/"@ + thing + "/streams/"@ + stream + "/get/cbor"@,
        topic_fits(data_path(thing, stream)) <==> encode_utf8(thing).len() + encode_utf8(
            stream,
        ).len() <= 225,
        topic_fits(get_path(thing, stream)) <==> encode_utf8(thing).len() + encode_utf8(
            stream,
        ).len() <= 226,
{
    reveal_strlit("/streams/");
    reveal_strlit("/data/cbor");
    reveal_strlit("/get/cbor");
    lemma_ascii_len("/streams/"@);
    lemma_ascii_len("/data/cbor"@);
    lemma_ascii_len("/get/cbor"@);
    law_topics_are_measured(thing, "/streams/"@, stream, "/data/cbor"@);
    law_topics_are_measured(thing, "/streams/"@, stream, "/get/cbor"@);
}

/// The bytes of a bitmap read back as its blocks: block `b` is bit `b % 8` of byte
/// `b / 8`. No bit stands for a block that there is not.
pub proof fn law_packed_blocks_read_back(bytes: Seq<u8>, blocks: Seq<bool>, block_id: int)
    requires
        packs(bytes, blocks),
        0 <= block_id < 8 * bytes.len(),
    ensures
        8 * (bytes.len() - 1) < blocks.len() <= 8 * bytes.len(),
        ((bytes[block_id / 8] >> ((block_id % 8) as u8)) & 1 == 1) <==> block_id < blocks.len()
            && blocks[block_id],
{
    let (i, k) = (block_id / 8, (block_id % 8) as u8);
    assert(8 * i + k == block_id);
    assert(bit_of(bytes[i], k) == (8 * i + k < blocks.len() && blocks[8 * i + k]));
}

/// Errors of others are told apart as they are: each keeps its cause.
pub proof fn law_errors_keep_their_cause<E>(
    of_job: JobError,
    of_platform: OtaPalError<E>,
    of_client: mqttrust::MqttError,
    of_format: core::fmt::Error,
)
    ensures
        <OtaError<E> as vstd::std_specs::convert::FromSpec<JobError>>::from_spec(of_job)
            == OtaError::<E>::Jobs(of_job),
        <OtaError<E> as vstd::std_specs::convert::FromSpec<OtaPalError<E>>>::from_spec(of_platform)
            == OtaError::<E>::PalError(of_platform),
        <OtaError<E> as vstd::std_specs::convert::FromSpec<mqttrust::MqttError>>::from_spec(
            of_client,
        ) == OtaError::<E>::Mqtt,
        <OtaError<E> as vstd::std_specs::convert::FromSpec<core::fmt::Error>>::from_spec(of_format)
            == OtaError::<E>::Formatting,
{
}

/// What the documents, steps and topics of the agent say is said of every part of them.
pub proof fn law_steps_are_viewed_whole<E>(
    request: StreamRequest,
    response: StreamResponse,
    sent: BlocksRequest,
    step: OtaStep<E>,
    close: CloseStep,
    job: JobStep,
    topic: OtaTopicType,
    state: AgentState,
)
    ensures
        topic matches OtaTopicType::CborData(name) ==> topic@ == OtaTopicView::CborData(
            stream_text(name),
        ),
        topic matches OtaTopicType::CborGetRejected(name) ==> topic@
            == OtaTopicView::CborGetRejected(stream_text(name)),
        topic is Invalid ==> topic@ == OtaTopicView::Invalid,
        state is Ready ==> state@ == AgentStateView::Ready,
        state matches AgentState::Active(update) ==> state@ == AgentStateView::Active(update@),
        request@.client_token == request.client_token@,
        request@.file_id == request.file_id,
        request@.block_size == request.block_size,
        request@.block_offset == request.block_offset,
        request@.block_bitmap == request.block_bitmap@,
        request@.number_of_blocks == request.number_of_blocks,
        response@.block_id == response.block_id,
        response@.block_payload == response.block_payload@,
        response@.block_size == response.block_size,
        response@.file_id == response.file_id,
        sent@.publication == sent.publication@,
        sent@.wait_ms == sent.wait_ms,
        step matches OtaStep::Done(result) ==> step@ == OtaStepView::<E>::Done(result),
        step matches OtaStep::WriteBlock { file, offset, payload, block_id } ==> step@ == (
        OtaStepView::<E>::WriteBlock {
            file,
            offset: offset as int,
            payload: payload@,
            block_id: block_id as int,
        }),
        step matches OtaStep::CloseFile { file, progress } ==> step@ == (
        OtaStepView::<E>::CloseFile { file, progress: progress as int }),
        step matches OtaStep::ReportCompletion { status, progress } ==> step@ == (
        OtaStepView::<E>::ReportCompletion { status, progress: progress as int }),
        step matches OtaStep::ReportProgress { status, progress } ==> step@ == (
        OtaStepView::<E>::ReportProgress { status, progress: progress as int }),
        step matches OtaStep::RequestBlocks { request: r, progress } ==> step@ == (
        OtaStepView::<E>::RequestBlocks { request: r@, progress: progress as int }),
        close matches CloseStep::Unsubscribe(topics) ==> close@ == CloseStepView::Unsubscribe(
            topic_texts(topics),
        ),
        close is Closed ==> close@ == CloseStepView::Closed,
        job matches JobStep::Subscribe { subscription, job: j } ==> job@ == (
        JobStepView::Subscribe { subscription: subscription@, job: j@ }),
        job is InProgress ==> job@ == JobStepView::InProgress,
{
}

} // verus!
