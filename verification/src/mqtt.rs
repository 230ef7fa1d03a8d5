//! What the agents ask of an MQTT client.

use vstd::prelude::*;

use crate::bounded::{topic_text, topic_texts, Topic, TopicList};
use crate::jobs::data::JobError;

verus! {

/// How often a message is to arrive.
#[derive(Clone, Copy, Debug, PartialEq, Eq, Structural)]
pub enum QoS {
    AtMostOnce,
    AtLeastOnce,
}

/// A request to publish a document on a topic.
#[derive(Debug)]
pub struct Publication<R> {
    pub topic: Topic,
    pub qos: QoS,
    pub payload: R,
}

/// What a [`Publication`] says.
pub struct PublicationView<V> {
    pub topic: Seq<char>,
    pub qos: QoS,
    pub payload: V,
}

impl<R: View> View for Publication<R> {
    type V = PublicationView<R::V>;

    open spec fn view(&self) -> PublicationView<R::V> {
        PublicationView { topic: topic_text(self.topic), qos: self.qos, payload: self.payload@ }
    }
}

/// A request to subscribe to topics, all with the same quality of service.
#[derive(Debug)]
pub struct Subscription {
    pub topics: TopicList,
    pub qos: QoS,
}

/// What a [`Subscription`] says.
pub struct SubscriptionView {
    pub topics: Seq<Seq<char>>,
    pub qos: QoS,
}

impl View for Subscription {
    type V = SubscriptionView;

    open spec fn view(&self) -> SubscriptionView {
        SubscriptionView { topics: topic_texts(self.topics), qos: self.qos }
    }
}

/// What became of a [`Publication`].
#[derive(Clone, Copy, Debug, PartialEq, Eq, Structural)]
pub enum PublishOutcome {
    /// The client took the message.
    Sent,
    /// The document did not fit into a payload.
    NotSerialized,
    /// The client did not take the message.
    NotSent,
}

impl PublishOutcome {
    /// The error that the outcome stands for, if it is one.
    pub open spec fn error(self) -> Option<JobError> {
        match self {
            PublishOutcome::Sent => None,
            PublishOutcome::NotSerialized => Some(JobError::Serialize),
            PublishOutcome::NotSent => Some(JobError::Mqtt),
        }
    }

    /// Turns the outcome into the result of the operation that published.
    pub fn into_result(self) -> (result: Result<(), JobError>)
        ensures
            match result {
                Ok(()) => self.error() is None,
                Err(e) => self.error() == Some(e),
            },
    {
        match self {
            PublishOutcome::Sent => Ok(()),
            PublishOutcome::NotSerialized => Err(JobError::Serialize),
            PublishOutcome::NotSent => Err(JobError::Mqtt),
        }
    }
}

} // verus!
