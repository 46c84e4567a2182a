//! The service: from a request to its responses.
//!
//! A request is shown to the `received` hooks and handed to the storage backend. A storage
//! command gets one response, which is shown to the `executed` hooks and may be changed by the
//! `before_send` hooks. A topic command goes on to the registry of topics.

pub mod command_service;
pub mod topic;
pub mod topic_service;

use vstd::prelude::*;
use vstd::std_specs::convert::FromSpecImpl;
use std::sync::Arc;
use crate::error::KvError;
use crate::pb::command_request::RequestData;
use crate::pb::value::ValueView;
use crate::pb::{CommandRequest, CommandResponse, CommandResponseView, Publish, Subscribe, Unsubscribe, Value};
use crate::service::command_service::{
    hdel_done, hexist_done, hget_done, hgetall_done, hmdel_done, hmexist_done, hmget_done, hmset_done, hset_done,
    reports_error, CommandService,
};
use crate::service::topic::{Broadcaster, BroadcasterView, SubscriptionIds, Topic};
use crate::service::topic_service::{publish_done, subscribe_done, unsubscribe_done, StreamingResponse, TopicService};
use crate::storage::Storage;

verus! {

/// A hook that is shown a value.
pub trait Notify<Arg>: Send + Sync {
    /// Shows `arg` to the hook.
    fn notify(&self, arg: &Arg);
}

/// A hook that may change a value.
pub trait NotifyMut<Arg>: Send + Sync {
    /// Whether the hook can turn `before` into `after`. A hook that says nothing of itself can
    /// turn any value into any other.
    open spec fn may_change(&self, before: Arg, after: Arg) -> bool {
        true
    }

    /// Hands `arg` to the hook.
    fn notify(&self, arg: &mut Arg)
        ensures
            self.may_change(*old(arg), *final(arg)),
    ;
}

/// Whether the hooks, each handed in turn what the one before it left, can turn `before` into
/// `after`. Without hooks the value stays as it is.
pub open spec fn changed_in_turn<Arg>(hooks: Seq<Box<dyn NotifyMut<Arg>>>, before: Arg, after: Arg) -> bool
    decreases hooks.len(),
{
    if hooks.len() == 0 {
        after == before
    } else {
        exists|mid: Arg|
            changed_in_turn(hooks.drop_last(), before, mid) && #[trigger] hooks.last().may_change(mid, after)
    }
}

/// Shows `arg` to each hook, in the order of registration.
pub fn notify_all<Arg>(hooks: &Vec<Box<dyn Notify<Arg>>>, arg: &Arg) {
    let mut i: usize = 0;
    while i < hooks.len()
        invariant
            i <= hooks@.len(),
        decreases hooks@.len() - i,
    {
        hooks[i].notify(arg);
        i += 1;
    }
}

/// Hands `arg` to each hook, in the order of registration: each hook gets what the one before
/// it left, and the value ends as the last hook left it. Without hooks the value stays as it
/// is.
pub fn notify_all_mut<Arg>(hooks: &Vec<Box<dyn NotifyMut<Arg>>>, arg: &mut Arg)
    ensures
        changed_in_turn(hooks@, *old(arg), *final(arg)),
{
    let mut i: usize = 0;
    while i < hooks.len()
        invariant
            i <= hooks@.len(),
            changed_in_turn(hooks@.take(i as int), *old(arg), *arg),
        decreases hooks@.len() - i,
    {
        let ghost mid = *arg;
        hooks[i].notify(arg);
        proof {
            let upto = hooks@.take(i + 1);
            assert(upto.drop_last() =~= hooks@.take(i as int));
            assert(upto.last() == hooks@[i as int]);
            assert(changed_in_turn(upto.drop_last(), *old(arg), mid) && upto.last().may_change(mid, *arg));
        }
        i += 1;
    }
    proof {
        assert(hooks@.take(i as int) =~= hooks@);
    }
}

/// A storage backend and the hooks of a service, before the service is started.
pub struct ServiceInner<Store> {
    store: Store,
    on_received: Vec<Box<dyn Notify<CommandRequest>>>,
    on_executed: Vec<Box<dyn Notify<CommandResponse>>>,
    on_before_send: Vec<Box<dyn NotifyMut<CommandResponse>>>,
    on_after_send: Vec<Box<dyn Notify<()>>>,
}

impl<Store: Storage> ServiceInner<Store> {
    /// The storage backend.
    pub closed spec fn store(&self) -> Store {
        self.store
    }

    /// The hooks that are shown each request, in the order of registration.
    pub closed spec fn on_received(&self) -> Seq<Box<dyn Notify<CommandRequest>>> {
        self.on_received@
    }

    /// The hooks that are shown each response of the backend, in the order of registration.
    pub closed spec fn on_executed(&self) -> Seq<Box<dyn Notify<CommandResponse>>> {
        self.on_executed@
    }

    /// The hooks that may change each response of the backend, in the order of registration.
    pub closed spec fn on_before_send(&self) -> Seq<Box<dyn NotifyMut<CommandResponse>>> {
        self.on_before_send@
    }

    /// The hooks that are told of each response that went out, in the order of registration.
    pub closed spec fn on_after_send(&self) -> Seq<Box<dyn Notify<()>>> {
        self.on_after_send@
    }

    /// A service on `store` without hooks.
    pub fn new(store: Store) -> (inner: Self)
        ensures
            inner.store() == store,
            inner.on_received().len() == 0,
            inner.on_executed().len() == 0,
            inner.on_before_send().len() == 0,
            inner.on_after_send().len() == 0,
    {
        Self {
            store,
            on_received: Vec::new(),
            on_executed: Vec::new(),
            on_before_send: Vec::new(),
            on_after_send: Vec::new(),
        }
    }

    /// Registers a hook that is shown each request.
    pub fn fn_received(self, f: Box<dyn Notify<CommandRequest>>) -> (inner: Self)
        ensures
            inner.on_received() == self.on_received().push(f),
            inner.store() == self.store(),
            inner.on_executed() == self.on_executed(),
            inner.on_before_send() == self.on_before_send(),
            inner.on_after_send() == self.on_after_send(),
    {
        let mut inner = self;
        inner.on_received.push(f);
        inner
    }

    /// Registers a hook that is shown each response of the backend.
    pub fn fn_executed(self, f: Box<dyn Notify<CommandResponse>>) -> (inner: Self)
        ensures
            inner.on_executed() == self.on_executed().push(f),
            inner.store() == self.store(),
            inner.on_received() == self.on_received(),
            inner.on_before_send() == self.on_before_send(),
            inner.on_after_send() == self.on_after_send(),
    {
        let mut inner = self;
        inner.on_executed.push(f);
        inner
    }

    /// Registers a hook that may change each response of the backend before it goes out.
    pub fn fn_before_send(self, f: Box<dyn NotifyMut<CommandResponse>>) -> (inner: Self)
        ensures
            inner.on_before_send() == self.on_before_send().push(f),
            inner.store() == self.store(),
            inner.on_received() == self.on_received(),
            inner.on_executed() == self.on_executed(),
            inner.on_after_send() == self.on_after_send(),
    {
        let mut inner = self;
        inner.on_before_send.push(f);
        inner
    }

    /// Registers a hook that is told of each response that went out.
    pub fn fn_after_send(self, f: Box<dyn Notify<()>>) -> (inner: Self)
        ensures
            inner.on_after_send() == self.on_after_send().push(f),
            inner.store() == self.store(),
            inner.on_received() == self.on_received(),
            inner.on_executed() == self.on_executed(),
            inner.on_before_send() == self.on_before_send(),
    {
        let mut inner = self;
        inner.on_after_send.push(f);
        inner
    }
}

/// The text of the error for a request without a command.
pub open spec fn no_data_message() -> Seq<char> {
    "Cannot parse command: `"@ + "Request has no data"@ + "`"@
}

/// What the storage backend does with a request, where `before` is what the store held,
/// `after` what it holds then, and `res` the response: a storage command does what it does; a
/// request without a command changes nothing and is answered with status 400; a topic command
/// changes nothing and gets the response that stands for "no answer yet".
pub open spec fn dispatched<S: Storage>(
    cmd: CommandRequest,
    before: Map<S::Slot, Option<ValueView>>,
    after: Map<S::Slot, Option<ValueView>>,
    res: CommandResponseView,
) -> bool {
    match cmd.request_data {
        Some(RequestData::Hget(param)) => hget_done::<S>(param, before, after, res),
        Some(RequestData::Hgetall(param)) => hgetall_done::<S>(param, before, after, res),
        Some(RequestData::Hmget(param)) => hmget_done::<S>(param, before, after, res),
        Some(RequestData::Hset(param)) => hset_done::<S>(param, before, after, res),
        Some(RequestData::Hmset(param)) => hmset_done::<S>(param, before, after, res),
        Some(RequestData::Hdel(param)) => hdel_done::<S>(param, before, after, res),
        Some(RequestData::Hmdel(param)) => hmdel_done::<S>(param, before, after, res),
        Some(RequestData::Hexist(param)) => hexist_done::<S>(param, before, after, res),
        Some(RequestData::Hmexist(param)) => hmexist_done::<S>(param, before, after, res),
        None => after == before && res == CommandResponseView::failure(400, no_data_message()),
        _ => after == before && res == CommandResponseView::empty(),
    }
}

/// Whether a request carries a topic command.
pub open spec fn is_streaming(cmd: CommandRequest) -> bool {
    cmd.request_data matches Some(data) && !data.is_unary()
}

/// Hands a request to the storage backend and returns its response.
pub fn dispatch<S: Storage>(cmd: CommandRequest, store: &mut S) -> (res: CommandResponse)
    ensures
        dispatched::<S>(cmd, old(store).slots(), final(store).slots(), res@),
{
    match cmd.request_data {
        Some(RequestData::Hget(param)) => param.execute(store),
        Some(RequestData::Hgetall(param)) => param.execute(store),
        Some(RequestData::Hmget(param)) => param.execute(store),
        Some(RequestData::Hset(param)) => param.execute(store),
        Some(RequestData::Hmset(param)) => param.execute(store),
        Some(RequestData::Hdel(param)) => param.execute(store),
        Some(RequestData::Hmdel(param)) => param.execute(store),
        Some(RequestData::Hexist(param)) => param.execute(store),
        Some(RequestData::Hmexist(param)) => param.execute(store),
        None => KvError::InvalidCommand(String::from_str("Request has no data")).into_response(),
        _ => CommandResponse::empty(),
    }
}

/// The storage backend answers a topic command, and no other request, with the response
/// that stands for "no answer yet".
pub proof fn lemma_no_answer_means_streaming<S: Storage>(
    cmd: CommandRequest,
    before: Map<S::Slot, Option<ValueView>>,
    after: Map<S::Slot, Option<ValueView>>,
    res: CommandResponseView,
)
    requires
        dispatched::<S>(cmd, before, after, res),
    ensures
        res == CommandResponseView::empty() <==> is_streaming(cmd),
{
    if reports_error(res) {
        let e = choose|e: KvError| res == CommandResponseView::failure(#[trigger] e.status(), e.message());
        assert(e.status() != 0);
    }
}

/// What the registry of topics does with a topic command, where `before` is what the
/// registry knew, `after` what it knows then, `next` the id that the source of ids would hand
/// out, `next_after` the one it would hand out then, and `answer` the responses. Only a
/// subscription draws an id.
pub open spec fn dispatched_stream(
    cmd: CommandRequest,
    before: BroadcasterView,
    after: BroadcasterView,
    next: u32,
    next_after: u32,
    answer: StreamingResponse,
) -> bool {
    match cmd.request_data {
        Some(RequestData::Publish(param)) => publish_done(param, before, after, answer) && next_after == next,
        Some(RequestData::Subscribe(param)) => subscribe_done(param, before, after, next, next_after, answer),
        Some(RequestData::Unsubscribe(param)) => unsubscribe_done(param, before, after, answer) && next_after
            == next,
        _ => false,
    }
}

/// Hands a topic command to the registry of topics and returns its responses. A subscription
/// draws its id from `ids`.
pub fn dispatch_stream<T: Topic>(cmd: CommandRequest, topic: &mut T, ids: &mut SubscriptionIds) -> (answer:
    StreamingResponse)
    requires
        is_streaming(cmd),
        old(topic).state().wf(),
    ensures
        final(topic).state().wf(),
        dispatched_stream(cmd, old(topic).state(), final(topic).state(), old(ids).next(), final(ids).next(), answer),
{
    match cmd.request_data {
        Some(RequestData::Publish(param)) => param.execute(topic, ids),
        Some(RequestData::Subscribe(param)) => param.execute(topic, ids),
        Some(RequestData::Unsubscribe(param)) => param.execute(topic, ids),
        _ => {
            assert(false);
            StreamingResponse::Once(Arc::new(CommandResponse::empty()))
        },
    }
}

/// A copy of the topic command that a request carries; `None` for every other request.
pub fn streaming_part(cmd: &CommandRequest) -> (part: Option<CommandRequest>)
    ensures
        part is Some <==> is_streaming(*cmd),
        part matches Some(copy) ==> is_streaming(copy) && forall|
            before: BroadcasterView,
            after: BroadcasterView,
            next: u32,
            next_after: u32,
            answer: StreamingResponse,
        | #[trigger]
            dispatched_stream(copy, before, after, next, next_after, answer) ==> dispatched_stream(
                *cmd,
                before,
                after,
                next,
                next_after,
                answer,
            ),
{
    match &cmd.request_data {
        Some(RequestData::Subscribe(param)) => Some(
            CommandRequest { request_data: Some(RequestData::Subscribe(Subscribe { topic: param.topic.clone() })) },
        ),
        Some(RequestData::Unsubscribe(param)) => Some(
            CommandRequest {
                request_data: Some(
                    RequestData::Unsubscribe(Unsubscribe { topic: param.topic.clone(), id: param.id }),
                ),
            },
        ),
        Some(RequestData::Publish(param)) => {
            let mut data: Vec<Value> = Vec::new();
            let mut i: usize = 0;
            while i < param.data.len()
                invariant
                    i <= param.data@.len(),
                    data@.len() == i,
                decreases param.data@.len() - i,
            {
                data.push(param.data[i].duplicate());
                i += 1;
            }
            Some(
                CommandRequest {
                    request_data: Some(RequestData::Publish(Publish { topic: param.topic.clone(), data })),
                },
            )
        },
        _ => None,
    }
}

/// A running service: a storage backend, hooks, and a registry of topics.
pub struct Service<Store> {
    inner: ServiceInner<Store>,
    broadcaster: Broadcaster,
}

impl<Store: Storage> Service<Store> {
    /// The backend and the hooks.
    pub closed spec fn inner(&self) -> ServiceInner<Store> {
        self.inner
    }

    /// What the registry of topics knows.
    pub closed spec fn topics(&self) -> BroadcasterView {
        self.broadcaster@
    }

    /// What holds of a service at all times: its registry of topics is in order.
    pub open spec fn wf(&self) -> bool {
        self.topics().wf()
    }

    /// Whether running `cmd` through the service `self` can leave it as `after` and give
    /// `answer`, where `next` is the id that the source of ids would hand out and `next_after`
    /// the one it would hand out then.
    ///
    /// A topic command leaves the store as it is and does to the registry of topics, and to
    /// the source of ids, what [`dispatched_stream`] says. Every other request leaves the
    /// registry and the source as they are and does to the store what [`dispatched`] says; its
    /// one response is the backend's, as the `before_send` hooks left it, each in turn:
    /// unchanged where there are none. The hooks stay as they are.
    pub open spec fn executed(
        &self,
        cmd: CommandRequest,
        next: u32,
        after: Self,
        next_after: u32,
        answer: StreamingResponse,
    ) -> bool {
        &&& after.wf()
        &&& after.inner().on_received() == self.inner().on_received()
        &&& after.inner().on_executed() == self.inner().on_executed()
        &&& after.inner().on_before_send() == self.inner().on_before_send()
        &&& after.inner().on_after_send() == self.inner().on_after_send()
        &&& is_streaming(cmd) ==> after.inner().store().slots() == self.inner().store().slots() && dispatched_stream(
            cmd,
            self.topics(),
            after.topics(),
            next,
            next_after,
            answer,
        )
        &&& !is_streaming(cmd) ==> after.topics() == self.topics() && next_after == next && (
        answer matches StreamingResponse::Once(sent)
            && exists|res: CommandResponse|
            #![trigger res@]
            dispatched::<Store>(cmd, self.inner().store().slots(), after.inner().store().slots(), res@)
                && changed_in_turn(self.inner().on_before_send(), res, *sent))
    }

    /// Runs a request through the service and returns its responses: see
    /// [`Service::executed`]. A subscription draws its id from `ids`, the one source of the
    /// process.
    pub fn execute(&mut self, cmd: CommandRequest, ids: &mut SubscriptionIds) -> (answer: StreamingResponse)
        requires
            old(self).wf(),
        ensures
            old(self).executed(cmd, old(ids).next(), *final(self), final(ids).next(), answer),
    {
        notify_all(&self.inner.on_received, &cmd);
        let streaming = streaming_part(&cmd);
        let ghost before = self.inner.store.slots();
        let mut res = dispatch(cmd, &mut self.inner.store);
        proof {
            lemma_no_answer_means_streaming::<Store>(cmd, before, self.inner.store.slots(), res@);
        }
        if res.is_default() {
            match streaming {
                Some(copy) => dispatch_stream(copy, &mut self.broadcaster, ids),
                None => StreamingResponse::Once(Arc::new(res)),
            }
        } else {
            notify_all(&self.inner.on_executed, &res);
            let ghost answered = res;
            notify_all_mut(&self.inner.on_before_send, &mut res);
            let sent = Arc::new(res);
            assert(dispatched::<Store>(cmd, before, self.inner.store.slots(), answered@) && changed_in_turn(
                self.inner.on_before_send@,
                answered,
                *sent,
            ));
            StreamingResponse::Once(sent)
        }
    }

    /// Tells the `after_send` hooks that a response went out.
    pub fn after_send(&self) {
        notify_all(&self.inner.on_after_send, &());
    }
}

impl<Store: Storage> FromSpecImpl<ServiceInner<Store>> for Service<Store> {
    open spec fn obeys_from_spec() -> bool {
        false
    }

    open spec fn from_spec(inner: ServiceInner<Store>) -> Service<Store> {
        arbitrary()
    }
}

impl<Store: Storage> From<ServiceInner<Store>> for Service<Store> {
    /// Starts the service: the backend and the hooks as they are, and no topics.
    fn from(inner: ServiceInner<Store>) -> (service: Service<Store>)
        ensures
            service.wf(),
            service.inner() == inner,
            service.topics().topics == crate::service::topic::no_topics(),
            service.topics().live == Set::<u32>::empty(),
            service.topics().next_id == 1,
    {
        Service { inner, broadcaster: Broadcaster::new() }
    }
}

} // verus!
