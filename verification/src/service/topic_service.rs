//! What each topic command does to the registry of topics and what it answers.

use vstd::prelude::*;
use std::sync::Arc;
use tokio::sync::mpsc::Receiver;
use crate::error::KvError;
use crate::pb::{values_view, CommandResponse, CommandResponseView, Publish, Subscribe, Unsubscribe};
use crate::service::topic::{BroadcasterView, SubscriptionIds, Topic};

verus! {

/// The responses to a request: exactly one, or as many as a subscriber's queue will yield.
pub enum StreamingResponse {
    /// One response, and then the end.
    Once(Arc<CommandResponse>),
    /// Whatever comes out of the queue, until its sending end is dropped.
    Subscription(Receiver<Arc<CommandResponse>>),
}

/// The text of the error for a registry that has no id left for a new subscriber.
pub open spec fn no_ids_message() -> Seq<char> {
    "Internal error: "@ + "No subscription id left"@
}

/// What a subscription does, where `before` is what the registry knew, `after` what it knows
/// then, `next` the id that the source of ids would hand out, `next_after` the one it would
/// hand out then, and `answer` the responses. Where the source has an id left and the
/// registry can take it, the source hands it out, a new subscriber joins the topic under it,
/// and the responses are those of its queue. Else nothing changes, and the one response
/// reports an internal error.
pub open spec fn subscribe_done(
    cmd: Subscribe,
    before: BroadcasterView,
    after: BroadcasterView,
    next: u32,
    next_after: u32,
    answer: StreamingResponse,
) -> bool {
    if before.takes(next) {
        after == before.subscribed_as(cmd.topic@, next) && next_after == next + 1 && answer is Subscription
    } else {
        after == before && next_after == next && (answer matches StreamingResponse::Once(res) && res@
            == CommandResponseView::failure(500, no_ids_message()))
    }
}

/// What the end of a subscription does: the subscriber leaves the topic and can no longer be
/// reached, and the one response is a success without content.
pub open spec fn unsubscribe_done(
    cmd: Unsubscribe,
    before: BroadcasterView,
    after: BroadcasterView,
    answer: StreamingResponse,
) -> bool {
    after == before.unsubscribed(cmd.topic@, cmd.id) && (answer matches StreamingResponse::Once(res) && res@
        == CommandResponseView::of_values(Seq::empty()))
}

/// What publishing does: the registry stays as it is, and the one response is a success
/// without content.
pub open spec fn publish_done(
    cmd: Publish,
    before: BroadcasterView,
    after: BroadcasterView,
    answer: StreamingResponse,
) -> bool {
    after == before && (answer matches StreamingResponse::Once(res) && res@ == CommandResponseView::of_values(
        Seq::empty(),
    ))
}

/// A command that the registry of topics answers.
pub trait TopicService: Sized {
    /// Runs the command on `topic` and returns the responses. A subscription draws its id
    /// from `ids`; no other command touches them.
    fn execute<T: Topic>(self, topic: &mut T, ids: &mut SubscriptionIds) -> (answer: StreamingResponse)
        requires
            old(topic).state().wf(),
        ensures
            final(topic).state().wf(),
    ;
}

impl TopicService for Subscribe {
    fn execute<T: Topic>(self, topic: &mut T, ids: &mut SubscriptionIds) -> (answer: StreamingResponse)
        ensures
            subscribe_done(self, old(topic).state(), final(topic).state(), old(ids).next(), final(ids).next(), answer),
    {
        if ids.has_left() && topic.accepts(ids.peek()) {
            let id = ids.get_next_subscription_id();
            StreamingResponse::Subscription(topic.subscribe(self.topic, id))
        } else {
            let e = KvError::Internal(String::from_str("No subscription id left"));
            StreamingResponse::Once(Arc::new(e.into_response()))
        }
    }
}

impl TopicService for Unsubscribe {
    fn execute<T: Topic>(self, topic: &mut T, ids: &mut SubscriptionIds) -> (answer: StreamingResponse)
        ensures
            unsubscribe_done(self, old(topic).state(), final(topic).state(), answer),
            final(ids).next() == old(ids).next(),
    {
        let _ = topic.unsubscribe(self.topic, self.id);
        StreamingResponse::Once(Arc::new(CommandResponse::ok()))
    }
}

impl TopicService for Publish {
    /// The response that is offered to the subscribers carries the command's values.
    fn execute<T: Topic>(self, topic: &mut T, ids: &mut SubscriptionIds) -> (answer: StreamingResponse)
        ensures
            publish_done(self, old(topic).state(), final(topic).state(), answer),
            final(ids).next() == old(ids).next(),
    {
        let published = CommandResponse::with_values(self.data);
        assert(published@ == CommandResponseView::of_values(values_view(self.data@)));
        let _ = topic.publish(self.topic, Arc::new(published));
        StreamingResponse::Once(Arc::new(CommandResponse::ok()))
    }
}

} // verus!
