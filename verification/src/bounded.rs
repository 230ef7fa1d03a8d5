//! Strings and lists of bounded size, as the `heapless` crate provides them.
//!
//! Nothing in this module is proved: each function hands a call on to the
//! crate that it names, and its contract says what that call does.

use vstd::prelude::*;

use crate::consts::{
    MAX_CLIENT_TOKEN_LEN, MAX_STREAM_ID_LEN, MAX_SUBSCRIPTIONS, MAX_TOPIC_LEN, MAX_TOPIC_LEVELS,
};
use crate::text::{decimal, utf8_len};

verus! {

/// `heapless::String`: a string that holds at most `N` bytes.
#[verifier::external_type_specification]
#[verifier::external_body]
pub struct ExBoundedString<const N: usize>(heapless::String<N>);

/// `heapless::Vec`: a list that holds at most `N` items.
#[verifier::external_type_specification]
#[verifier::external_body]
#[verifier::reject_recursive_types(T)]
pub struct ExBoundedVec<T, const N: usize>(heapless::Vec<T, N>);

/// A topic path.
pub type Topic = heapless::String<MAX_TOPIC_LEN>;

/// A token by which a response names the request that it answers.
pub type ClientToken = heapless::String<MAX_CLIENT_TOKEN_LEN>;

/// The name of a stream.
pub type StreamId = heapless::String<MAX_STREAM_ID_LEN>;

/// The levels of a topic path.
pub type TopicLevels<'a> = heapless::Vec<&'a str, MAX_TOPIC_LEVELS>;

/// The topics of one subscription.
pub type TopicList = heapless::Vec<Topic, MAX_SUBSCRIPTIONS>;

/// The characters that a topic path holds.
pub uninterp spec fn topic_text(topic: Topic) -> Seq<char>;

/// The characters that a client token holds.
pub uninterp spec fn token_text(token: ClientToken) -> Seq<char>;

/// The characters that a stream name holds.
pub uninterp spec fn stream_text(stream: StreamId) -> Seq<char>;

/// The characters of each level, first level first.
pub uninterp spec fn level_texts(levels: TopicLevels) -> Seq<Seq<char>>;

/// The characters of each topic of the list, in the order in which they were
/// added.
pub uninterp spec fn topic_texts(topics: TopicList) -> Seq<Seq<char>>;

/// Writing `piece` behind `before` into a string that holds at most `max`
/// bytes: all of it is written where it fits, and nothing where it does not.
pub open spec fn written(
    before: Seq<char>,
    piece: Seq<char>,
    max: nat,
    result: Result<(), ()>,
    after: Seq<char>,
) -> bool {
    if utf8_len(before + piece) <= max {
        result is Ok && after == before + piece
    } else {
        result is Err && after == before
    }
}

/// `heapless::String::new`: an empty topic path.
#[verifier::external_body]
pub(crate) fn topic_new() -> (topic: Topic)
    ensures
        topic_text(topic) == Seq::<char>::empty(),
{
    heapless::String::new()
}

/// `ufmt::uWrite::write_str` on a `heapless::String`: appends `piece` where the
/// whole of it still fits, and otherwise leaves the topic as it is and fails.
#[verifier::external_body]
pub(crate) fn topic_write(topic: &mut Topic, piece: &str) -> (result: Result<(), ()>)
    ensures
        written(
            topic_text(*old(topic)),
            piece@,
            MAX_TOPIC_LEN as nat,
            result,
            topic_text(*final(topic)),
        ),
{
    ufmt::uWrite::write_str(topic, piece)
}

/// `heapless::String::new`: an empty client token.
#[verifier::external_body]
pub(crate) fn token_new() -> (token: ClientToken)
    ensures
        token_text(token) == Seq::<char>::empty(),
{
    heapless::String::new()
}

/// `ufmt::uWrite::write_str` on a `heapless::String`: appends `piece` where the
/// whole of it still fits, and otherwise leaves the token as it is and fails.
#[verifier::external_body]
pub(crate) fn token_write(token: &mut ClientToken, piece: &str) -> (result: Result<(), ()>)
    ensures
        written(
            token_text(*old(token)),
            piece@,
            MAX_CLIENT_TOKEN_LEN as nat,
            result,
            token_text(*final(token)),
        ),
{
    ufmt::uWrite::write_str(token, piece)
}

/// `ufmt::uDisplay::fmt` of a `u32`, into a `heapless::String`: appends the
/// number in decimal where all of its digits still fit, and otherwise leaves
/// the token as it is and fails.
#[verifier::external_body]
pub(crate) fn token_write_number(token: &mut ClientToken, n: u32) -> (result: Result<(), ()>)
    ensures
        written(
            token_text(*old(token)),
            decimal(n as nat),
            MAX_CLIENT_TOKEN_LEN as nat,
            result,
            token_text(*final(token)),
        ),
{
    ufmt::uDisplay::fmt(&n, &mut ufmt::Formatter::new(token))
}

/// `heapless::String::from`: a copy of `name`. The call panics where the name
/// takes more bytes than the string can hold.
#[verifier::external_body]
pub(crate) fn stream_from(name: &str) -> (stream: StreamId)
    requires
        utf8_len(name@) <= MAX_STREAM_ID_LEN,
    ensures
        stream_text(stream) == name@,
{
    heapless::String::from(name)
}

/// `heapless::String::as_str`: the characters of the name.
#[verifier::external_body]
pub(crate) fn stream_str(stream: &StreamId) -> (name: &str)
    ensures
        name@ == stream_text(*stream),
{
    stream.as_str()
}

/// `heapless::String::clone`: the same characters again.
#[verifier::external_body]
pub(crate) fn stream_clone(stream: &StreamId) -> (copy: StreamId)
    ensures
        stream_text(copy) == stream_text(*stream),
{
    stream.clone()
}

/// `heapless::Vec::new`: no levels.
#[verifier::external_body]
pub(crate) fn levels_new<'a>() -> (levels: TopicLevels<'a>)
    ensures
        level_texts(levels) == Seq::<Seq<char>>::empty(),
{
    heapless::Vec::new()
}

/// `heapless::Vec::push`: adds a level behind the others where there is room
/// for it, and otherwise hands it back.
#[verifier::external_body]
pub(crate) fn levels_push<'a>(levels: &mut TopicLevels<'a>, level: &'a str) -> (result: Result<
    (),
    &'a str,
>)
    ensures
        level_texts(*old(levels)).len() < MAX_TOPIC_LEVELS ==> {
            &&& result is Ok
            &&& level_texts(*final(levels)) == level_texts(*old(levels)).push(level@)
        },
        level_texts(*old(levels)).len() >= MAX_TOPIC_LEVELS ==> {
            &&& result matches Err(back) && back@ == level@
            &&& level_texts(*final(levels)) == level_texts(*old(levels))
        },
{
    levels.push(level)
}

/// `get` on the slice of a `heapless::Vec`: the level at `index`, if there is
/// one.
#[verifier::external_body]
pub(crate) fn levels_get<'a>(levels: &TopicLevels<'a>, index: usize) -> (level: Option<&'a str>)
    ensures
        match level {
            Some(text) => index < level_texts(*levels).len() && text@ == level_texts(
                *levels,
            )[index as int],
            None => index >= level_texts(*levels).len(),
        },
{
    levels.get(index).copied()
}

/// `heapless::Vec::new`: no topics.
#[verifier::external_body]
pub(crate) fn topics_new() -> (topics: TopicList)
    ensures
        topic_texts(topics) == Seq::<Seq<char>>::empty(),
{
    heapless::Vec::new()
}

/// `heapless::Vec::push`: adds a topic behind the others where there is room
/// for it, and otherwise hands it back.
#[verifier::external_body]
pub(crate) fn topics_push(topics: &mut TopicList, topic: Topic) -> (result: Result<(), Topic>)
    ensures
        topic_texts(*old(topics)).len() < MAX_SUBSCRIPTIONS ==> {
            &&& result is Ok
            &&& topic_texts(*final(topics)) == topic_texts(*old(topics)).push(topic_text(topic))
        },
        topic_texts(*old(topics)).len() >= MAX_SUBSCRIPTIONS ==> {
            &&& result matches Err(back) && topic_text(back) == topic_text(topic)
            &&& topic_texts(*final(topics)) == topic_texts(*old(topics))
        },
{
    topics.push(topic)
}

} // verus!
