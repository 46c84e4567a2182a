//! Topics and their subscribers.
//!
//! A subscriber is known by an id; the ids of a topic are its subscribers. Each subscriber
//! has a bounded queue, of which the broadcaster keeps the sending end.

use vstd::prelude::*;
use dashmap::{DashMap, DashSet};
use std::collections::hash_map::RandomState;
use std::sync::Arc;
use tokio::sync::mpsc::{Receiver, Sender};
use crate::error::KvError;
use crate::pb::{CommandResponse, CommandResponseView, Value};
use crate::pb::value::ValueView;

verus! {

/// How many responses a subscriber's queue holds.
pub const BROADCAST_CAPACITY: usize = 128;

#[verifier::external_type_specification]
#[verifier::external_body]
#[verifier::reject_recursive_types(K)]
#[verifier::reject_recursive_types(S)]
pub struct ExDashSet<K, S>(DashSet<K, S>);

#[verifier::external_type_specification]
#[verifier::external_body]
#[verifier::reject_recursive_types(T)]
pub struct ExSender<T>(Sender<T>);

#[verifier::external_type_specification]
#[verifier::external_body]
#[verifier::reject_recursive_types(T)]
pub struct ExReceiver<T>(Receiver<T>);

/// The subscriber ids by topic name.
pub type Topics = DashMap<String, DashSet<u32, RandomState>, RandomState>;

/// The sending ends of the subscribers' queues, by subscriber id.
pub type Senders = DashMap<u32, Sender<Arc<CommandResponse>>, RandomState>;

/// What a map of topics holds: for each topic name, the ids in its set.
pub uninterp spec fn topics_view(topics: Topics) -> Map<Seq<char>, Set<u32>>;

/// The ids for which a map of senders holds a sender.
pub uninterp spec fn senders_view(senders: Senders) -> Set<u32>;

/// The map that holds no topic.
pub open spec fn no_topics() -> Map<Seq<char>, Set<u32>> {
    Map::empty()
}

/// The ids of the topic of that name; none where there is no such topic.
pub open spec fn members(topics: Map<Seq<char>, Set<u32>>, name: Seq<char>) -> Set<u32> {
    if topics.contains_key(name) {
        topics[name]
    } else {
        Set::empty()
    }
}

/// `DashMap::default`: a map without topics.
#[verifier::external_body]
fn topics_new() -> (topics: Topics)
    ensures
        topics_view(topics) == no_topics(),
{
    DashMap::default()
}

/// `DashMap::default`: a map without senders.
#[verifier::external_body]
fn senders_new() -> (senders: Senders)
    ensures
        senders_view(senders) == Set::<u32>::empty(),
{
    DashMap::default()
}

/// `DashMap::contains_key` on the map of topics: whether there is a topic of that name.
#[verifier::external_body]
fn topics_has(topics: &Topics, name: &str) -> (held: bool)
    ensures
        held == topics_view(*topics).contains_key(name@),
{
    topics.contains_key(name)
}

/// `DashMap::entry`, `Entry::or_default` and `DashSet::insert`: puts `id` into the set of the
/// topic of that name, which is created empty first where there is none. The other topics
/// stay as they are.
#[verifier::external_body]
fn topics_join(topics: &mut Topics, name: String, id: u32)
    ensures
        topics_view(*final(topics)) == topics_view(*old(topics)).insert(
            name@,
            members(topics_view(*old(topics)), name@).insert(id),
        ),
{
    topics.entry(name).or_default().insert(id);
}

/// `DashMap::get_mut` and `DashSet::remove`: takes `id` out of the set of the topic of that
/// name. The other topics stay as they are. The topic must exist.
#[verifier::external_body]
fn topic_leave(topics: &mut Topics, name: &str, id: u32)
    requires
        topics_view(*old(topics)).contains_key(name@),
    ensures
        topics_view(*final(topics)) == topics_view(*old(topics)).insert(
            name@,
            topics_view(*old(topics))[name@].remove(id),
        ),
{
    topics.get_mut(name).unwrap().remove(&id);
}

/// `DashMap::get` and `DashSet::is_empty`: whether the set of the topic of that name holds no
/// id. The topic must exist.
#[verifier::external_body]
fn topic_is_empty(topics: &Topics, name: &str) -> (empty: bool)
    requires
        topics_view(*topics).contains_key(name@),
    ensures
        empty == (topics_view(*topics)[name@] == Set::<u32>::empty()),
{
    topics.get(name).unwrap().is_empty()
}

/// `DashMap::remove` on the map of topics: the topic of that name is gone afterwards.
#[verifier::external_body]
fn topics_drop(topics: &mut Topics, name: &str)
    ensures
        topics_view(*final(topics)) == topics_view(*old(topics)).remove(name@),
{
    topics.remove(name);
}

/// `DashMap::get` and `DashSet::iter`, each id copied out: the ids of the topic of that name,
/// each once, in the order in which the set happens to be walked. The topic must exist.
#[verifier::external_body]
fn topic_members(topics: &Topics, name: &str) -> (ids: Vec<u32>)
    requires
        topics_view(*topics).contains_key(name@),
    ensures
        forall|i: int| 0 <= i < ids@.len() ==> topics_view(*topics)[name@].contains(#[trigger] ids@[i]),
        forall|i: int, j: int| 0 <= i < j < ids@.len() ==> ids@[i] != ids@[j],
        forall|id: u32| #[trigger] topics_view(*topics)[name@].contains(id) ==> ids@.contains(id),
{
    topics.get(name).unwrap().iter().map(|id| *id).collect()
}

/// `DashMap::contains_key` on the map of senders: whether there is a sender for `id`.
#[verifier::external_body]
fn senders_has(senders: &Senders, id: u32) -> (held: bool)
    ensures
        held == senders_view(*senders).contains(id),
{
    senders.contains_key(&id)
}

/// `DashMap::insert` on the map of senders: there is a sender for `id` afterwards.
#[verifier::external_body]
fn senders_insert(senders: &mut Senders, id: u32, tx: Sender<Arc<CommandResponse>>)
    ensures
        senders_view(*final(senders)) == senders_view(*old(senders)).insert(id),
{
    senders.insert(id, tx);
}

/// `DashMap::remove` on the map of senders: there is no sender for `id` afterwards. The
/// sender that was there is dropped.
#[verifier::external_body]
fn senders_remove(senders: &mut Senders, id: u32)
    ensures
        senders_view(*final(senders)) == senders_view(*old(senders)).remove(id),
{
    senders.remove(&id);
}

/// `DashMap::get` and tokio's `Sender::try_send`: offers `value` to the queue of subscriber
/// `id` without waiting, and says whether the queue took it. A full queue and a queue whose
/// receiver is gone refuse. There must be a sender for `id`.
#[verifier::external_body]
fn sender_try_send(senders: &Senders, id: u32, value: Arc<CommandResponse>) -> (taken: bool)
    requires
        senders_view(*senders).contains(id),
{
    senders.get(&id).unwrap().try_send(value).is_ok()
}

/// tokio's `mpsc::channel`: the two ends of a new queue that holds up to `capacity` items.
#[verifier::external_body]
fn new_channel(capacity: usize) -> (ends: (Sender<Arc<CommandResponse>>, Receiver<Arc<CommandResponse>>))
    requires
        0 < capacity <= 0xffff,
{
    tokio::sync::mpsc::channel(capacity)
}

/// What a broadcaster knows.
pub struct BroadcasterView {
    /// The subscriber ids of each topic.
    pub topics: Map<Seq<char>, Set<u32>>,
    /// The ids of the subscribers whose queue can still be reached.
    pub live: Set<u32>,
    /// A bound above every id that the registry has seen: the id of the next subscriber is at
    /// least this.
    pub next_id: u32,
}

impl BroadcasterView {
    /// Whether `id` is among the ids of the topic `name`.
    pub open spec fn in_topic(self, name: Seq<char>, id: u32) -> bool {
        self.topics.contains_key(name) && self.topics[name].contains(id)
    }

    /// What holds of a broadcaster at all times: ids start at 1 and every id that is in use is
    /// below the bound for the next one; no topic is without ids; no id is in two topics; and
    /// every subscriber that can be reached is in a topic.
    pub open spec fn wf(self) -> bool {
        &&& self.next_id >= 1
        &&& forall|name: Seq<char>, id: u32| #[trigger] self.in_topic(name, id) ==> id < self.next_id
        &&& forall|id: u32| #[trigger] self.live.contains(id) ==> id < self.next_id
        &&& forall|name: Seq<char>| #[trigger]
            self.topics.contains_key(name) ==> self.topics[name] != Set::<u32>::empty()
        &&& forall|a: Seq<char>, b: Seq<char>, id: u32|
            #[trigger] self.in_topic(a, id) && #[trigger] self.in_topic(b, id) ==> a == b
        &&& forall|id: u32| #[trigger]
            self.live.contains(id) ==> exists|name: Seq<char>| #[trigger] self.in_topic(name, id)
    }

    /// What is known after a new subscriber joined the topic `name` under the id `id`.
    pub open spec fn subscribed_as(self, name: Seq<char>, id: u32) -> BroadcasterView {
        BroadcasterView {
            topics: self.topics.insert(name, members(self.topics, name).insert(id)),
            live: self.live.insert(id),
            next_id: (id + 1) as u32,
        }
    }

    /// Whether the registry can take a new subscriber under the id `id`: the id is none that
    /// the registry has seen, and not the last one there is.
    pub open spec fn takes(self, id: u32) -> bool {
        self.next_id <= id < u32::MAX
    }

    /// What is known after subscriber `id` was taken out of the topic `name`: the id is gone
    /// from the topic, the topic is gone where that was its last id, and the subscriber can
    /// no longer be reached.
    pub open spec fn unsubscribed(self, name: Seq<char>, id: u32) -> BroadcasterView {
        BroadcasterView {
            topics: if !self.topics.contains_key(name) {
                self.topics
            } else if self.topics[name].remove(id) == Set::<u32>::empty() {
                self.topics.remove(name)
            } else {
                self.topics.insert(name, self.topics[name].remove(id))
            },
            live: self.live.remove(id),
            next_id: self.next_id,
        }
    }
}

/// Whether `ids` names subscribers of the topic `name` that can be reached, none twice.
pub open spec fn reaches_only(ids: Seq<u32>, state: BroadcasterView, name: Seq<char>) -> bool {
    &&& forall|i: int| 0 <= i < ids.len() ==> state.in_topic(name, #[trigger] ids[i]) && state.live.contains(ids[i])
    &&& forall|i: int, j: int| 0 <= i < j < ids.len() ==> ids[i] != ids[j]
}

/// The ids among `ids` whose offer was taken, in the order of `ids`: `taken` says of each id,
/// at the same place, whether its queue took what was offered.
pub open spec fn kept(ids: Seq<u32>, taken: Seq<bool>) -> Seq<u32>
    decreases ids.len(),
{
    if ids.len() == 0 || taken.len() != ids.len() {
        Seq::empty()
    } else if taken.last() {
        kept(ids.drop_last(), taken.drop_last()).push(ids.last())
    } else {
        kept(ids.drop_last(), taken.drop_last())
    }
}

/// Whether `ids` walks a set of ids: every id of the set comes once, and no other.
pub open spec fn walks(ids: Seq<u32>, set: Set<u32>) -> bool {
    &&& forall|i: int| 0 <= i < ids.len() ==> set.contains(#[trigger] ids[i])
    &&& forall|i: int, j: int| 0 <= i < j < ids.len() ==> ids[i] != ids[j]
    &&& forall|id: u32| #[trigger] set.contains(id) ==> ids.contains(id)
}

/// Whether `reached` is what publishing to the topic `name` can give: for some walk of the
/// topic's ids, and some outcome for each of them that only a subscriber that can be reached
/// has taken the offer, `reached` is the ids whose offer was taken, in the order of the walk.
pub open spec fn published(reached: Seq<u32>, state: BroadcasterView, name: Seq<char>) -> bool {
    exists|ids: Seq<u32>, taken: Seq<bool>|
        #![trigger kept(ids, taken)]
        walks(ids, members(state.topics, name)) && taken.len() == ids.len() && (forall|i: int|
            0 <= i < ids.len() && #[trigger] taken[i] ==> state.live.contains(ids[i])) && reached == kept(ids, taken)
}

/// Whether `id` is among `ids` at a place where the offer was taken.
pub open spec fn offer_taken(ids: Seq<u32>, taken: Seq<bool>, id: u32) -> bool {
    exists|i: int| 0 <= i < ids.len() && #[trigger] taken[i] && ids[i] == id
}

/// Every id that is kept is one whose offer was taken, and ids that differ stay apart.
pub proof fn lemma_kept(ids: Seq<u32>, taken: Seq<bool>)
    requires
        taken.len() == ids.len(),
    ensures
        kept(ids, taken).len() <= ids.len(),
        forall|k: int| 0 <= k < kept(ids, taken).len() ==> offer_taken(ids, taken, #[trigger] kept(ids, taken)[k]),
        (forall|i: int, j: int| 0 <= i < j < ids.len() ==> ids[i] != ids[j]) ==> forall|k: int, l: int|
            0 <= k < l < kept(ids, taken).len() ==> kept(ids, taken)[k] != kept(ids, taken)[l],
    decreases ids.len(),
{
    if ids.len() > 0 {
        let last = ids.len() - 1;
        let head_ids = ids.drop_last();
        let head_taken = taken.drop_last();
        lemma_kept(head_ids, head_taken);
        let head = kept(head_ids, head_taken);
        let all = kept(ids, taken);
        assert forall|k: int| 0 <= k < head.len() implies offer_taken(ids, taken, #[trigger] head[k]) by {
            assert(offer_taken(head_ids, head_taken, head[k]));
            let i = choose|i: int| 0 <= i < head_ids.len() && #[trigger] head_taken[i] && head_ids[i] == head[k];
            assert(taken[i] == head_taken[i] && ids[i] == head_ids[i]);
        }
        assert forall|k: int| 0 <= k < all.len() implies offer_taken(ids, taken, #[trigger] all[k]) by {
            if k < head.len() {
                assert(all[k] == head[k]);
            } else {
                assert(taken[last] && ids[last] == all[k]);
            }
        }
        if forall|i: int, j: int| 0 <= i < j < ids.len() ==> ids[i] != ids[j] {
            assert forall|i: int, j: int| 0 <= i < j < head_ids.len() implies head_ids[i] != head_ids[j] by {
                assert(ids[i] == head_ids[i] && ids[j] == head_ids[j]);
            }
            assert forall|k: int, l: int| 0 <= k < l < all.len() implies all[k] != all[l] by {
                if l < head.len() {
                    assert(all[k] == head[k] && all[l] == head[l]);
                } else {
                    assert(all[k] == head[k]);
                    assert(offer_taken(head_ids, head_taken, head[k]));
                    let i = choose|i: int|
                        0 <= i < head_ids.len() && #[trigger] head_taken[i] && head_ids[i] == head[k];
                    assert(ids[i] == head_ids[i]);
                    assert(all[l] == ids[last]);
                }
            }
        }
    }
}

/// What publishing can give reaches only subscribers of the topic that can be reached, none
/// twice.
pub proof fn lemma_published_reaches_only(reached: Seq<u32>, state: BroadcasterView, name: Seq<char>)
    requires
        published(reached, state, name),
    ensures
        reaches_only(reached, state, name),
{
    let (ids, taken) = choose|ids: Seq<u32>, taken: Seq<bool>|
        #![trigger kept(ids, taken)]
        walks(ids, members(state.topics, name)) && taken.len() == ids.len() && (forall|i: int|
            0 <= i < ids.len() && #[trigger] taken[i] ==> state.live.contains(ids[i])) && reached == kept(ids, taken);
    lemma_kept(ids, taken);
    assert forall|k: int| 0 <= k < reached.len() implies state.in_topic(name, #[trigger] reached[k])
        && state.live.contains(reached[k]) by {
        assert(offer_taken(ids, taken, kept(ids, taken)[k]));
        let i = choose|i: int| 0 <= i < ids.len() && #[trigger] taken[i] && ids[i] == reached[k];
        assert(members(state.topics, name).contains(ids[i]));
    }
}

/// The ids among `ids` whose offer was taken, in the order of `ids`: `taken` says of each id,
/// at the same place, whether its queue took what was offered. None where the two differ in
/// length.
pub fn reached_ids(ids: &Vec<u32>, taken: &Vec<bool>) -> (reached: Vec<u32>)
    ensures
        reached@ == kept(ids@, taken@),
{
    let mut reached: Vec<u32> = Vec::new();
    if taken.len() != ids.len() {
        return reached;
    }
    let mut i: usize = 0;
    while i < ids.len()
        invariant
            i <= ids@.len(),
            taken@.len() == ids@.len(),
            reached@ == kept(ids@.take(i as int), taken@.take(i as int)),
        decreases ids@.len() - i,
    {
        proof {
            assert(ids@.take(i + 1).drop_last() =~= ids@.take(i as int));
            assert(taken@.take(i + 1).drop_last() =~= taken@.take(i as int));
            assert(ids@.take(i + 1).last() == ids@[i as int]);
            assert(taken@.take(i + 1).last() == taken@[i as int]);
        }
        if taken[i] {
            reached.push(ids[i]);
        }
        i += 1;
    }
    proof {
        assert(ids@.take(i as int) =~= ids@);
        assert(taken@.take(i as int) =~= taken@);
    }
    reached
}

/// A new subscriber leaves the registry in order.
pub proof fn lemma_subscribed_wf(before: BroadcasterView, topic: Seq<char>, id: u32)
    requires
        before.wf(),
        before.takes(id),
    ensures
        before.subscribed_as(topic, id).wf(),
{
    let after = before.subscribed_as(topic, id);
    assert(after.in_topic(topic, id));
    assert forall|name: Seq<char>, other: u32| #[trigger] after.in_topic(name, other) implies other
        < after.next_id by {
        if other != id {
            assert(before.in_topic(name, other));
        }
    }
    assert forall|name: Seq<char>| #[trigger] after.topics.contains_key(name) implies after.topics[name]
        != Set::<u32>::empty() by {
        if name == topic {
            assert(after.topics[name].contains(id));
        }
    }
    assert forall|a: Seq<char>, b: Seq<char>, other: u32| #[trigger]
        after.in_topic(a, other) && #[trigger] after.in_topic(b, other) implies a == b by {
        if other == id {
            if a != topic {
                assert(before.in_topic(a, other));
            }
            if b != topic {
                assert(before.in_topic(b, other));
            }
        } else {
            assert(before.in_topic(a, other));
            assert(before.in_topic(b, other));
        }
    }
    assert forall|other: u32| #[trigger] after.live.contains(other) implies exists|name: Seq<char>| #[trigger]
        after.in_topic(name, other) by {
        if other == id {
            assert(after.in_topic(topic, other));
        } else {
            let name = choose|name: Seq<char>| #[trigger] before.in_topic(name, other);
            assert(after.in_topic(name, other));
        }
    }
}

/// The end of a subscription leaves the registry in order.
pub proof fn lemma_unsubscribed_wf(before: BroadcasterView, topic: Seq<char>, id: u32)
    requires
        before.wf(),
    ensures
        before.unsubscribed(topic, id).wf(),
{
    let after = before.unsubscribed(topic, id);
    assert forall|name: Seq<char>, other: u32| #[trigger] after.in_topic(name, other) implies other
        < after.next_id && before.in_topic(name, other) by {
        assert(before.in_topic(name, other));
    }
    assert forall|name: Seq<char>| #[trigger] after.topics.contains_key(name) implies after.topics[name]
        != Set::<u32>::empty() by {
        if name != topic {
            assert(before.topics.contains_key(name));
        }
    }
    assert forall|a: Seq<char>, b: Seq<char>, other: u32| #[trigger]
        after.in_topic(a, other) && #[trigger] after.in_topic(b, other) implies a == b by {
        assert(before.in_topic(a, other));
        assert(before.in_topic(b, other));
    }
    assert forall|other: u32| #[trigger] after.live.contains(other) implies exists|name: Seq<char>| #[trigger]
        after.in_topic(name, other) by {
        let name = choose|name: Seq<char>| #[trigger] before.in_topic(name, other);
        if name == topic {
            assert(before.topics[name].remove(id).contains(other));
        }
        assert(after.in_topic(name, other));
    }
}

/// What can be done to a registry of topics.
pub enum TopicOp {
    /// A new subscriber joins the topic under the id.
    Subscribe(Seq<char>, u32),
    /// The subscriber of that id is taken out of the topic.
    Unsubscribe(Seq<char>, u32),
    /// A response is published to the topic.
    Publish(Seq<char>),
}

/// What a registry knows after an operation.
pub open spec fn after_op(state: BroadcasterView, op: TopicOp) -> BroadcasterView {
    match op {
        TopicOp::Subscribe(topic, id) => state.subscribed_as(topic, id),
        TopicOp::Unsubscribe(topic, id) => state.unsubscribed(topic, id),
        TopicOp::Publish(_) => state,
    }
}

/// What a registry knows after a run of operations, one after the other.
pub open spec fn after_ops(state: BroadcasterView, ops: Seq<TopicOp>) -> BroadcasterView
    decreases ops.len(),
{
    if ops.len() == 0 {
        state
    } else {
        after_op(after_ops(state, ops.drop_last()), ops.last())
    }
}

/// Whether the registry can take each subscription of a run under its id, at the time it
/// comes.
pub open spec fn ids_fit(state: BroadcasterView, ops: Seq<TopicOp>) -> bool {
    forall|i: int|
        0 <= i < ops.len() && ops[i] is Subscribe ==> (#[trigger] after_ops(state, ops.take(i))).takes(ops[i]->Subscribe_1)
}

/// A run of operations leaves the registry in order, and its bound for the next id never gets
/// smaller; a subscription puts it above the subscription's id.
pub proof fn lemma_run(state: BroadcasterView, ops: Seq<TopicOp>)
    requires
        state.wf(),
        ids_fit(state, ops),
    ensures
        after_ops(state, ops).wf(),
        after_ops(state, ops).next_id >= state.next_id,
        ops.len() > 0 && ops.last() is Subscribe ==> after_ops(state, ops).next_id > ops.last()->Subscribe_1,
    decreases ops.len(),
{
    if ops.len() > 0 {
        let head = ops.drop_last();
        assert forall|i: int| 0 <= i < head.len() && head[i] is Subscribe implies (#[trigger] after_ops(
            state,
            head.take(i),
        )).takes(head[i]->Subscribe_1) by {
            assert(head.take(i) =~= ops.take(i));
            assert(ops[i] is Subscribe);
        }
        lemma_run(state, head);
        let mid = after_ops(state, head);
        assert(ops.take(ops.len() - 1) =~= head);
        match ops.last() {
            TopicOp::Subscribe(topic, id) => {
                assert(ops[ops.len() - 1] is Subscribe);
                assert(after_ops(state, ops.take(ops.len() - 1)).takes(id));
                lemma_subscribed_wf(mid, topic, id);
            },
            TopicOp::Unsubscribe(topic, id) => {
                lemma_unsubscribed_wf(mid, topic, id);
            },
            TopicOp::Publish(_) => {},
        }
    }
}

/// Within a registry, subscription ids are strictly increasing: of two subscriptions in a run
/// that the registry can take, the later one has the larger id.
pub proof fn lemma_ids_increase(state: BroadcasterView, ops: Seq<TopicOp>, first: int, second: int)
    requires
        state.wf(),
        ids_fit(state, ops),
        0 <= first < second < ops.len(),
        ops[first] is Subscribe,
        ops[second] is Subscribe,
    ensures
        ops[first]->Subscribe_1 < ops[second]->Subscribe_1,
{
    let upto = ops.take(second);
    let early = ops.take(first + 1);
    assert forall|i: int| 0 <= i < early.len() && early[i] is Subscribe implies (#[trigger] after_ops(
        state,
        early.take(i),
    )).takes(early[i]->Subscribe_1) by {
        assert(early.take(i) =~= ops.take(i));
        assert(ops[i] is Subscribe);
    }
    lemma_run(state, early);
    assert(early.last() == ops[first]);
    // what follows the first subscription, up to the second
    let rest = upto.skip(first + 1);
    let mid = after_ops(state, early);
    lemma_after_ops_split(state, upto, first + 1);
    assert(upto.take(first + 1) =~= early);
    assert forall|i: int| 0 <= i < rest.len() && rest[i] is Subscribe implies (#[trigger] after_ops(
        mid,
        rest.take(i),
    )).takes(rest[i]->Subscribe_1) by {
        let whole = ops.take(first + 1 + i);
        lemma_after_ops_split(state, whole, first + 1);
        assert(whole.take(first + 1) =~= early);
        assert(whole.skip(first + 1) =~= rest.take(i));
        assert(ops[first + 1 + i] is Subscribe);
        assert(rest[i] == ops[first + 1 + i]);
    }
    lemma_run(mid, rest);
    assert(after_ops(state, ops.take(second)).takes(ops[second]->Subscribe_1));
}

/// A run can be cut in two: what the registry knows after the whole run is what it knows after
/// the second part, run on what it knew after the first.
pub proof fn lemma_after_ops_split(state: BroadcasterView, ops: Seq<TopicOp>, at: int)
    requires
        0 <= at <= ops.len(),
    ensures
        after_ops(state, ops) == after_ops(after_ops(state, ops.take(at)), ops.skip(at)),
    decreases ops.len(),
{
    if at == ops.len() {
        assert(ops.take(at) =~= ops);
        assert(ops.skip(at) =~= Seq::<TopicOp>::empty());
    } else {
        let head = ops.drop_last();
        lemma_after_ops_split(state, head, at);
        assert(head.take(at) =~= ops.take(at));
        assert(ops.skip(at).drop_last() =~= head.skip(at));
        assert(ops.skip(at).last() == ops.last());
    }
}

/// A subscriber whose subscription was ended stays out of reach: once an id that the registry
/// has seen is taken out, no run of operations brings it back among the subscribers that
/// publishing offers responses to.
pub proof fn lemma_unsubscribed_stays_out(
    state: BroadcasterView,
    topic: Seq<char>,
    id: u32,
    ops: Seq<TopicOp>,
)
    requires
        state.wf(),
        id < state.next_id,
        ids_fit(state.unsubscribed(topic, id), ops),
    ensures
        !after_ops(state.unsubscribed(topic, id), ops).live.contains(id),
        forall|reached: Seq<u32>, name: Seq<char>|
            reaches_only(reached, after_ops(state.unsubscribed(topic, id), ops), name) ==> !reached.contains(id),
    decreases ops.len(),
{
    let start = state.unsubscribed(topic, id);
    lemma_unsubscribed_wf(state, topic, id);
    if ops.len() > 0 {
        let head = ops.drop_last();
        assert forall|i: int| 0 <= i < head.len() && head[i] is Subscribe implies (#[trigger] after_ops(
            start,
            head.take(i),
        )).takes(head[i]->Subscribe_1) by {
            assert(head.take(i) =~= ops.take(i));
            assert(ops[i] is Subscribe);
        }
        lemma_unsubscribed_stays_out(state, topic, id, head);
        lemma_run(start, head);
        assert(ops.take(ops.len() - 1) =~= head);
        if ops.last() is Subscribe {
            assert(ops[ops.len() - 1] is Subscribe);
            assert(after_ops(start, ops.take(ops.len() - 1)).takes(ops.last()->Subscribe_1));
        }
    }
    let end = after_ops(start, ops);
    assert forall|reached: Seq<u32>, name: Seq<char>| reaches_only(reached, end, name) implies !reached.contains(
        id,
    ) by {
        if reached.contains(id) {
            let i = choose|i: int| 0 <= i < reached.len() && reached[i] == id;
            assert(end.live.contains(reached[i]));
        }
    }
}

/// The source of subscription ids: one for the whole process, so that no two subscribers ever
/// get the same id, whatever registry they subscribe to.
pub struct SubscriptionIds {
    next: u32,
}

impl SubscriptionIds {
    /// The id that is handed out next.
    pub closed spec fn next(&self) -> u32 {
        self.next
    }

    /// The id that the source hands out after it has handed out `n` others.
    pub open spec fn nth_id(&self, n: nat) -> int {
        self.next() + n
    }

    /// A source whose first id is 1.
    pub fn new() -> (ids: Self)
        ensures
            ids.next() == 1,
    {
        SubscriptionIds { next: 1 }
    }

    /// Whether an id is left to hand out.
    pub fn has_left(&self) -> (left: bool)
        ensures
            left == (self.next() < u32::MAX),
    {
        self.next < u32::MAX
    }

    /// The id that is handed out next, without handing it out.
    pub fn peek(&self) -> (id: u32)
        ensures
            id == self.next(),
    {
        self.next
    }

    /// Hands out the next id: each id is larger by one than the one handed out before it, so
    /// that the ids of a source are strictly increasing and none comes twice.
    pub fn get_next_subscription_id(&mut self) -> (id: u32)
        requires
            old(self).next() < u32::MAX,
        ensures
            id == old(self).next(),
            final(self).next() == id + 1,
            id == old(self).nth_id(0),
            forall|n: nat| #[trigger] final(self).nth_id(n) == old(self).nth_id(n + 1),
    {
        let id = self.next;
        self.next = id + 1;
        id
    }
}

/// The ids that a source hands out are strictly increasing: of two ids that it hands out, the
/// later one is the larger.
pub proof fn lemma_source_ids_increase(ids: SubscriptionIds, earlier: nat, later: nat)
    requires
        earlier < later,
    ensures
        ids.nth_id(earlier) < ids.nth_id(later),
{
}

/// The first response in a subscriber's queue: the subscriber's id.
pub fn subscription_greeting(id: u32) -> (res: CommandResponse)
    ensures
        res@ == CommandResponseView::of_values(seq![Some(ValueView::Integer(id as i64))]),
{
    CommandResponse::with_value(Value::integer(id as i64))
}

/// A registry of topics.
pub trait Topic: Sized {
    /// What the registry knows.
    spec fn state(&self) -> BroadcasterView;

    /// Whether the registry can take a new subscriber under the id `id`.
    fn accepts(&self, id: u32) -> (ok: bool)
        ensures
            ok == self.state().takes(id),
    ;

    /// Adds a subscriber to the topic `name` under the id `id`, which must be one that the
    /// registry can take, and returns the receiving end of its queue. The first response in
    /// the queue carries the id.
    fn subscribe(&mut self, name: String, id: u32) -> (rx: Receiver<Arc<CommandResponse>>)
        requires
            old(self).state().wf(),
            old(self).state().takes(id),
        ensures
            final(self).state().wf(),
            final(self).state() == old(self).state().subscribed_as(name@, id),
    ;

    /// Takes subscriber `id` out of the topic `name` and drops the sending end of its queue,
    /// which tells the receiver that nothing more will come. Returns `id`; a second call
    /// changes nothing.
    fn unsubscribe(&mut self, name: String, id: u32) -> (r: Result<u32, KvError>)
        requires
            old(self).state().wf(),
        ensures
            final(self).state().wf(),
            final(self).state() == old(self).state().unsubscribed(name@, id),
            r == Ok::<u32, KvError>(id),
    ;

    /// Offers `value` to the queue of every subscriber of the topic `name` that can be
    /// reached, without waiting for any, and returns the ids of those whose queue took it, in
    /// the order in which the topic's ids were walked. A topic that does not exist reaches
    /// nobody.
    fn publish(&self, name: String, value: Arc<CommandResponse>) -> (reached: Vec<u32>)
        ensures
            published(reached@, self.state(), name@),
            reaches_only(reached@, self.state(), name@),
    ;
}

/// Topics, their subscribers, and the sending ends of the subscribers' queues.
pub struct Broadcaster {
    topics: Topics,
    subscriptions: Senders,
    next_id: u32,
}

impl View for Broadcaster {
    type V = BroadcasterView;

    closed spec fn view(&self) -> BroadcasterView {
        BroadcasterView {
            topics: topics_view(self.topics),
            live: senders_view(self.subscriptions),
            next_id: self.next_id,
        }
    }
}

impl Broadcaster {
    /// A registry without topics, which can take a subscriber under any id from 1 on.
    pub fn new() -> (b: Broadcaster)
        ensures
            b@.wf(),
            b@.topics == no_topics(),
            b@.live == Set::<u32>::empty(),
            b@.next_id == 1,
    {
        Broadcaster { topics: topics_new(), subscriptions: senders_new(), next_id: 1 }
    }
}

impl Default for Broadcaster {
    fn default() -> (b: Broadcaster)
        ensures
            b@.wf(),
            b@.topics == no_topics(),
            b@.live == Set::<u32>::empty(),
            b@.next_id == 1,
    {
        Broadcaster::new()
    }
}

impl Topic for Broadcaster {
    open spec fn state(&self) -> BroadcasterView {
        self@
    }

    fn accepts(&self, id: u32) -> (ok: bool) {
        self.next_id <= id && id < u32::MAX
    }

    fn subscribe(&mut self, name: String, id: u32) -> (rx: Receiver<Arc<CommandResponse>>) {
        let ghost before = self@;
        let ghost topic = name@;
        self.next_id = id + 1;
        topics_join(&mut self.topics, name, id);
        let (tx, rx) = new_channel(BROADCAST_CAPACITY);
        senders_insert(&mut self.subscriptions, id, tx);
        let _greeted = sender_try_send(&self.subscriptions, id, Arc::new(subscription_greeting(id)));
        proof {
            assert(self@.topics == before.subscribed_as(topic, id).topics);
            lemma_subscribed_wf(before, topic, id);
        }
        rx
    }

    fn unsubscribe(&mut self, name: String, id: u32) -> (r: Result<u32, KvError>) {
        let ghost before = self@;
        let ghost topic = name@;
        if topics_has(&self.topics, name.as_str()) {
            topic_leave(&mut self.topics, name.as_str(), id);
            if topic_is_empty(&self.topics, name.as_str()) {
                topics_drop(&mut self.topics, name.as_str());
            }
        }
        senders_remove(&mut self.subscriptions, id);
        proof {
            assert(self@.topics =~= before.unsubscribed(topic, id).topics);
            lemma_unsubscribed_wf(before, topic, id);
        }
        Ok(id)
    }

    fn publish(&self, name: String, value: Arc<CommandResponse>) -> (reached: Vec<u32>) {
        let ids = if topics_has(&self.topics, name.as_str()) {
            topic_members(&self.topics, name.as_str())
        } else {
            Vec::new()
        };
        let taken = self.offer_each(&ids, value);
        let reached = reached_ids(&ids, &taken);
        proof {
            assert(walks(ids@, members(self@.topics, name@)));
            assert(published(reached@, self@, name@));
            lemma_published_reaches_only(reached@, self@, name@);
        }
        reached
    }
}

impl Broadcaster {
    /// Offers `value` to the queue of each of the subscribers `ids`, in their order and
    /// without waiting, and says of each whether its queue took it. A subscriber that cannot
    /// be reached takes nothing.
    fn offer_each(&self, ids: &Vec<u32>, value: Arc<CommandResponse>) -> (taken: Vec<bool>)
        ensures
            taken@.len() == ids@.len(),
            forall|i: int| 0 <= i < ids@.len() && #[trigger] taken@[i] ==> self@.live.contains(ids@[i]),
    {
        let mut taken: Vec<bool> = Vec::new();
        let mut i: usize = 0;
        while i < ids.len()
            invariant
                i <= ids@.len(),
                taken@.len() == i,
                forall|k: int| 0 <= k < i && #[trigger] taken@[k] ==> self@.live.contains(ids@[k]),
            decreases ids@.len() - i,
        {
            let id = ids[i];
            let took = if senders_has(&self.subscriptions, id) {
                sender_try_send(&self.subscriptions, id, value.clone())
            } else {
                false
            };
            taken.push(took);
            i += 1;
        }
        taken
    }
}

} // verus!
