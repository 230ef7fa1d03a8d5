//! The topics on which a stream sends the blocks of a file.

use vstd::prelude::*;

use crate::bounded::{level_texts, levels_get, stream_from, stream_text, StreamId, TopicLevels};
use crate::consts::MAX_STREAM_ID_LEN;
use crate::text::utf8_len;
use crate::topic::{level_is, level_reads, levels, topic_levels};

verus! {

/// What a message on a stream topic is about.
#[derive(Debug, PartialEq, Eq)]
pub enum OtaTopicType {
    /// `$aws/things/{thingName}/streams/{streamId}/data/cbor`
    CborData(StreamId),
    /// `$aws/things/{thingName}/streams/{streamId}/get/cbor/rejected`
    CborGetRejected(StreamId),
    /// A stream topic of the thing that is none of these.
    Invalid,
}

/// What an [`OtaTopicType`] says.
pub enum OtaTopicView {
    CborData(Seq<char>),
    CborGetRejected(Seq<char>),
    Invalid,
}

impl View for OtaTopicType {
    type V = OtaTopicView;

    open spec fn view(&self) -> OtaTopicView {
        match self {
            OtaTopicType::CborData(stream) => OtaTopicView::CborData(stream_text(*stream)),
            OtaTopicType::CborGetRejected(stream) => OtaTopicView::CborGetRejected(
                stream_text(*stream),
            ),
            OtaTopicType::Invalid => OtaTopicView::Invalid,
        }
    }
}

/// Whether the levels are those of a topic under
/// `$aws/things/{thingName}/streams`.
pub open spec fn is_stream_path(levels: Seq<Seq<char>>) -> bool {
    &&& level_is(levels, 0, "$aws"@)
    &&& level_is(levels, 1, "things"@)
    &&& level_is(levels, 3, "streams"@)
}

/// What the topic with these levels is about, for the thing of the given name:
/// `None` where it is not a stream topic of that thing.
pub open spec fn ota_topic(thing: Seq<char>, levels: Seq<Seq<char>>) -> Option<OtaTopicView> {
    if !is_stream_path(levels) || !level_is(levels, 2, thing) {
        None
    } else if level_is(levels, 5, "data"@) && level_is(levels, 6, "cbor"@) {
        Some(OtaTopicView::CborData(levels[4]))
    } else if level_is(levels, 5, "get"@) && level_is(levels, 6, "cbor"@) && level_is(
        levels,
        7,
        "rejected"@,
    ) {
        Some(OtaTopicView::CborGetRejected(levels[4]))
    } else {
        Some(OtaTopicView::Invalid)
    }
}

/// Whether the stream that a topic names, if it names one, has a name that is
/// short enough.
pub open spec fn stream_name_fits(topic: Option<OtaTopicView>) -> bool {
    match topic {
        Some(OtaTopicView::CborData(stream)) => utf8_len(stream) <= MAX_STREAM_ID_LEN,
        Some(OtaTopicView::CborGetRejected(stream)) => utf8_len(stream) <= MAX_STREAM_ID_LEN,
        _ => true,
    }
}

/// Whether a message on a topic carries a block of a file.
pub open spec fn carries_block(topic: Option<OtaTopicView>) -> bool {
    match topic {
        Some(OtaTopicView::CborData(_)) => true,
        _ => false,
    }
}

/// Whether levels that were already split off are those of a stream topic.
fn is_stream_levels(list: &TopicLevels) -> (is: bool)
    ensures
        is == is_stream_path(level_texts(*list)),
{
    level_reads(list, 0, "$aws") && level_reads(list, 1, "things") && level_reads(
        list,
        3,
        "streams",
    )
}

/// Whether a topic lies under `$aws/things/{thingName}/streams`, for any thing.
pub fn is_ota_message(topic_name: &str) -> (is: bool)
    ensures
        is == is_stream_path(levels(topic_name@)),
{
    is_stream_levels(&topic_levels(topic_name))
}

impl OtaTopicType {
    /// Whether a message on a topic carries a block of a file.
    pub fn carries_block(expected_thing_name: &str, topic_name: &str) -> (carries: bool)
        ensures
            carries == carries_block(ota_topic(expected_thing_name@, levels(topic_name@))),
    {
        let tokens = topic_levels(topic_name);
        is_stream_levels(&tokens) && level_reads(&tokens, 2, expected_thing_name) && level_reads(
            &tokens,
            5,
            "data",
        ) && level_reads(&tokens, 6, "cbor")
    }

    /// Whether the stream that a topic names, if it names one, has a name that
    /// [`OtaTopicType::check`] can take.
    pub fn admits(expected_thing_name: &str, topic_name: &str) -> (admits: bool)
        ensures
            admits == stream_name_fits(ota_topic(expected_thing_name@, levels(topic_name@))),
    {
        let tokens = topic_levels(topic_name);
        if !is_stream_levels(&tokens) || !level_reads(&tokens, 2, expected_thing_name) {
            return true;
        }
        let carries_data = level_reads(&tokens, 5, "data") && level_reads(&tokens, 6, "cbor");
        let rejects = level_reads(&tokens, 5, "get") && level_reads(&tokens, 6, "cbor")
            && level_reads(&tokens, 7, "rejected");
        match levels_get(&tokens, 4) {
            Some(stream_id) => !(carries_data || rejects) || stream_id.as_bytes().len()
                <= MAX_STREAM_ID_LEN,
            None => true,
        }
    }

    /// Tells what a topic is about. `None` means that it is not a stream topic of
    /// the expected thing.
    pub fn check(expected_thing_name: &str, topic_name: &str) -> (topic: Option<OtaTopicType>)
        requires
            stream_name_fits(ota_topic(expected_thing_name@, levels(topic_name@))),
        ensures
            match topic {
                Some(t) => ota_topic(expected_thing_name@, levels(topic_name@)) == Some(t@),
                None => ota_topic(expected_thing_name@, levels(topic_name@)) is None,
            },
    {
        let tokens = topic_levels(topic_name);
        if !is_stream_levels(&tokens) || !level_reads(&tokens, 2, expected_thing_name) {
            return None;
        }
        let stream_id = match levels_get(&tokens, 4) {
            Some(level) => level,
            None => return Some(OtaTopicType::Invalid),
        };
        if level_reads(&tokens, 5, "data") && level_reads(&tokens, 6, "cbor") {
            Some(OtaTopicType::CborData(stream_from(stream_id)))
        } else if level_reads(&tokens, 5, "get") && level_reads(&tokens, 6, "cbor") && level_reads(
            &tokens,
            7,
            "rejected",
        ) {
            Some(OtaTopicType::CborGetRejected(stream_from(stream_id)))
        } else {
            Some(OtaTopicType::Invalid)
        }
    }
}

} // verus!
