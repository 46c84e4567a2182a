//! What each storage command does to a store and what it answers.

use vstd::prelude::*;
use crate::error::KvError;
use crate::pb::value::ValueView;
use crate::pb::{
    pairs_view, values_view, CommandResponse, CommandResponseView, Hdel, Hexist, Hget, Hgetall, Hmdel, Hmexist, Hmget,
    Hmset, Hset, KvpairView, Value,
};
use crate::storage::{lists_table, Storage};

verus! {

/// A command that a storage backend answers with one response.
pub trait CommandService: Sized {
    /// Runs the command on `store` and returns the response.
    fn execute<S: Storage>(self, store: &mut S) -> (res: CommandResponse);
}

/// The value that was found, or the unset value where nothing was found.
pub open spec fn value_or_unset(found: Option<Option<ValueView>>) -> Option<ValueView> {
    match found {
        Some(v) => v,
        None => None,
    }
}

/// Whether a response reports some error: the error's status and text, no values, no pairs.
pub open spec fn reports_error(res: CommandResponseView) -> bool {
    exists|e: KvError| res == CommandResponseView::failure(#[trigger] e.status(), e.message())
}

/// The text of the error for a missing entry.
pub open spec fn not_found_message(table: Seq<char>, key: Seq<char>) -> Seq<char> {
    "Not found for table: "@ + table + ",key: "@ + key
}

/// What a sequence of strings stands for.
pub open spec fn keys_view(keys: Seq<String>) -> Seq<Seq<char>> {
    Seq::new(keys.len(), |i: int| keys[i]@)
}

/// What a store holds after the pairs were stored in `table`, one after the other. A pair
/// without a value stores the unset value.
pub open spec fn mset_slots<S: Storage>(
    slots: Map<S::Slot, Option<ValueView>>,
    table: Seq<char>,
    pairs: Seq<KvpairView>,
) -> Map<S::Slot, Option<ValueView>>
    decreases pairs.len(),
{
    if pairs.len() == 0 {
        slots
    } else {
        mset_slots::<S>(slots, table, pairs.drop_last()).insert(
            S::slot(table, pairs.last().key),
            value_or_unset(pairs.last().value),
        )
    }
}

/// For each of the pairs stored in `table`, one after the other, the value that its key had
/// just before, or the unset value where it had none.
pub open spec fn mset_values<S: Storage>(
    slots: Map<S::Slot, Option<ValueView>>,
    table: Seq<char>,
    pairs: Seq<KvpairView>,
) -> Seq<Option<ValueView>>
    decreases pairs.len(),
{
    if pairs.len() == 0 {
        Seq::empty()
    } else {
        mset_values::<S>(slots, table, pairs.drop_last()).push(
            value_or_unset(mset_slots::<S>(slots, table, pairs.drop_last()).get(S::slot(table, pairs.last().key))),
        )
    }
}

/// What a store holds after the keys were deleted from `table`, one after the other.
pub open spec fn mdel_slots<S: Storage>(
    slots: Map<S::Slot, Option<ValueView>>,
    table: Seq<char>,
    keys: Seq<Seq<char>>,
) -> Map<S::Slot, Option<ValueView>>
    decreases keys.len(),
{
    if keys.len() == 0 {
        slots
    } else {
        mdel_slots::<S>(slots, table, keys.drop_last()).remove(S::slot(table, keys.last()))
    }
}

/// For each of the keys deleted from `table`, one after the other, the value that it had just
/// before, or the unset value where it had none.
pub open spec fn mdel_values<S: Storage>(
    slots: Map<S::Slot, Option<ValueView>>,
    table: Seq<char>,
    keys: Seq<Seq<char>>,
) -> Seq<Option<ValueView>>
    decreases keys.len(),
{
    if keys.len() == 0 {
        Seq::empty()
    } else {
        mdel_values::<S>(slots, table, keys.drop_last()).push(
            value_or_unset(mdel_slots::<S>(slots, table, keys.drop_last()).get(S::slot(table, keys.last()))),
        )
    }
}

/// The response to a command that yields at most one value: the value, or the unset value
/// where there is none, and the error's report where the backend failed.
pub fn value_response(outcome: Result<Option<Value>, KvError>) -> (res: CommandResponse)
    ensures
        match outcome {
            Ok(Some(v)) => res@ == CommandResponseView::of_values(seq![v@]),
            Ok(None) => res@ == CommandResponseView::of_values(seq![None]),
            Err(e) => res@ == CommandResponseView::failure(e.status(), e.message()),
        },
{
    match outcome {
        Ok(Some(v)) => CommandResponse::with_value(v),
        Ok(None) => CommandResponse::with_value(Value::unset()),
        Err(e) => e.into_response(),
    }
}

/// The value that a command on one of several keys contributes: the value that the backend
/// found, and the unset value where it found none or failed.
pub fn value_or_default(outcome: Result<Option<Value>, KvError>) -> (v: Value)
    ensures
        v@ == match outcome {
            Ok(Some(found)) => found@,
            _ => None,
        },
{
    match outcome {
        Ok(Some(found)) => found,
        _ => Value::unset(),
    }
}

/// What running the command does, where `before` is what a store held, `after` what it
/// holds then, and `res` the answer.
///
/// The store stays as it is. The answer carries the value under the key, and reports a
/// missing entry with status 404 where there is none.
pub open spec fn hget_done<S: Storage>(
    cmd: Hget,
    before: Map<S::Slot, Option<ValueView>>,
    after: Map<S::Slot, Option<ValueView>>,
    res: CommandResponseView,
) -> bool {
    &&& after == before
    &&& (!S::infallible() && reports_error(res)) || res == match before.get(S::slot(cmd.table@, cmd.key@)) {
        Some(v) => CommandResponseView::of_values(seq![v]),
        None => CommandResponseView::failure(404, not_found_message(cmd.table@, cmd.key@)),
    }
}

impl CommandService for Hget {
    fn execute<S: Storage>(self, store: &mut S) -> (res: CommandResponse)
        ensures
            hget_done::<S>(self, old(store).slots(), final(store).slots(), res@),
    {
        match store.get(self.table.as_str(), self.key.as_str()) {
            Ok(Some(v)) => CommandResponse::with_value(v),
            Ok(None) => {
                let e = KvError::NotFound(self.table, self.key);
                e.into_response()
            },
            Err(e) => {
                let ghost status = e.status();
                let res = e.into_response();
                assert(res@ == CommandResponseView::failure(status, e.message()));
                res
            },
        }
    }
}

/// What running the command does, where `before` is what a store held, `after` what it
/// holds then, and `res` the answer.
///
/// The store stays as it is. The answer carries the entries of the table, in no
/// particular order.
pub open spec fn hgetall_done<S: Storage>(
    cmd: Hgetall,
    before: Map<S::Slot, Option<ValueView>>,
    after: Map<S::Slot, Option<ValueView>>,
    res: CommandResponseView,
) -> bool {
    &&& after == before
    &&& (!S::infallible() && reports_error(res)) || (res == CommandResponseView::of_pairs(res.pairs) && (
    S::plain_table(cmd.table@) ==> lists_table(res.pairs, before, |key: Seq<char>| S::slot(cmd.table@, key))))
}

impl CommandService for Hgetall {
    fn execute<S: Storage>(self, store: &mut S) -> (res: CommandResponse)
        ensures
            hgetall_done::<S>(self, old(store).slots(), final(store).slots(), res@),
    {
        match store.get_all(self.table.as_str()) {
            Ok(pairs) => CommandResponse::with_pairs(pairs),
            Err(e) => {
                let ghost status = e.status();
                let res = e.into_response();
                assert(res@ == CommandResponseView::failure(status, e.message()));
                res
            },
        }
    }
}

/// What running the command does, where `before` is what a store held, `after` what it
/// holds then, and `res` the answer.
///
/// The pair's value is stored under its key, and the answer carries the value that was
/// there before, unset where there was none. A pair without a value stores the unset
/// value. A command without a pair stores nothing and answers with the unset value.
pub open spec fn hset_done<S: Storage>(
    cmd: Hset,
    before: Map<S::Slot, Option<ValueView>>,
    after: Map<S::Slot, Option<ValueView>>,
    res: CommandResponseView,
) -> bool {
    match cmd.pair {
        Some(pair) => (!S::infallible() && reports_error(res)) || (res == CommandResponseView::of_values(
            seq![value_or_unset(before.get(S::slot(cmd.table@, pair.key@)))],
        ) && after == before.insert(S::slot(cmd.table@, pair.key@), value_or_unset(pair@.value))),
        None => res == CommandResponseView::of_values(seq![None]) && after == before,
    }
}

impl CommandService for Hset {
    fn execute<S: Storage>(self, store: &mut S) -> (res: CommandResponse)
        ensures
            hset_done::<S>(self, old(store).slots(), final(store).slots(), res@),
    {
        match self.pair {
            Some(pair) => {
                let value = match pair.value {
                    Some(v) => v,
                    None => Value::unset(),
                };
                let outcome = store.set(self.table.as_str(), pair.key, value);
                let ghost failed = outcome;
                let res = value_response(outcome);
                proof {
                    if failed is Err {
                        let e = failed->Err_0;
                        assert(res@ == CommandResponseView::failure(e.status(), e.message()));
                    }
                }
                res
            },
            None => CommandResponse::with_value(Value::unset()),
        }
    }
}

/// What running the command does, where `before` is what a store held, `after` what it
/// holds then, and `res` the answer.
///
/// The entry under the key is deleted, and the answer carries the value that was there,
/// unset where there was none.
pub open spec fn hdel_done<S: Storage>(
    cmd: Hdel,
    before: Map<S::Slot, Option<ValueView>>,
    after: Map<S::Slot, Option<ValueView>>,
    res: CommandResponseView,
) -> bool {
    (!S::infallible() && reports_error(res)) || (res == CommandResponseView::of_values(
        seq![value_or_unset(before.get(S::slot(cmd.table@, cmd.key@)))],
    ) && after == before.remove(S::slot(cmd.table@, cmd.key@)))
}

impl CommandService for Hdel {
    fn execute<S: Storage>(self, store: &mut S) -> (res: CommandResponse)
        ensures
            hdel_done::<S>(self, old(store).slots(), final(store).slots(), res@),
    {
        let outcome = store.del(self.table.as_str(), self.key.as_str());
        let ghost failed = outcome;
        let res = value_response(outcome);
        proof {
            if failed is Err {
                let e = failed->Err_0;
                assert(res@ == CommandResponseView::failure(e.status(), e.message()));
            }
        }
        res
    }
}

/// What running the command does, where `before` is what a store held, `after` what it
/// holds then, and `res` the answer.
///
/// The store stays as it is. The answer carries whether there is an entry under the key.
pub open spec fn hexist_done<S: Storage>(
    cmd: Hexist,
    before: Map<S::Slot, Option<ValueView>>,
    after: Map<S::Slot, Option<ValueView>>,
    res: CommandResponseView,
) -> bool {
    &&& after == before
    &&& (!S::infallible() && reports_error(res)) || res == CommandResponseView::of_values(
        seq![Some(ValueView::Bool(before.contains_key(S::slot(cmd.table@, cmd.key@))))],
    )
}

impl CommandService for Hexist {
    fn execute<S: Storage>(self, store: &mut S) -> (res: CommandResponse)
        ensures
            hexist_done::<S>(self, old(store).slots(), final(store).slots(), res@),
    {
        match store.contains(self.table.as_str(), self.key.as_str()) {
            Ok(held) => CommandResponse::with_value(Value::boolean(held)),
            Err(e) => {
                let ghost status = e.status();
                let res = e.into_response();
                assert(res@ == CommandResponseView::failure(status, e.message()));
                res
            },
        }
    }
}

/// What running the command does, where `before` is what a store held, `after` what it
/// holds then, and `res` the answer.
///
/// The store stays as it is. The answer carries one value for each key, in the order of
/// the keys: the value under the key, and the unset value where there is none or the
/// backend failed.
pub open spec fn hmget_done<S: Storage>(
    cmd: Hmget,
    before: Map<S::Slot, Option<ValueView>>,
    after: Map<S::Slot, Option<ValueView>>,
    res: CommandResponseView,
) -> bool {
    &&& after == before
    &&& res == CommandResponseView::of_values(res.values)
    &&& res.values.len() == cmd.keys@.len()
    &&& forall|i: int|
        0 <= i < cmd.keys@.len() ==> #[trigger] res.values[i] == value_or_unset(
            before.get(S::slot(cmd.table@, cmd.keys@[i]@)),
        ) || (!S::infallible() && res.values[i] is None)
}

impl CommandService for Hmget {
    fn execute<S: Storage>(self, store: &mut S) -> (res: CommandResponse)
        ensures
            hmget_done::<S>(self, old(store).slots(), final(store).slots(), res@),
    {
        let mut values: Vec<Value> = Vec::new();
        let mut i: usize = 0;
        while i < self.keys.len()
            invariant
                i <= self.keys@.len(),
                values@.len() == i,
                *store == *old(store),
                forall|j: int|
                    0 <= j < i ==> #[trigger] values@[j]@ == value_or_unset(
                        store.slots().get(S::slot(self.table@, self.keys@[j]@)),
                    ) || (!S::infallible() && values@[j]@ is None),
            decreases self.keys@.len() - i,
        {
            let v = value_or_default(store.get(self.table.as_str(), self.keys[i].as_str()));
            values.push(v);
            i += 1;
        }
        let res = CommandResponse::with_values(values);
        res
    }
}

/// What running the command does, where `before` is what a store held, `after` what it
/// holds then, and `res` the answer.
///
/// The store stays as it is. The answer carries one value for each key, in the order of
/// the keys: whether there is an entry under the key, and the unset value where the
/// backend failed.
pub open spec fn hmexist_done<S: Storage>(
    cmd: Hmexist,
    before: Map<S::Slot, Option<ValueView>>,
    after: Map<S::Slot, Option<ValueView>>,
    res: CommandResponseView,
) -> bool {
    &&& after == before
    &&& res == CommandResponseView::of_values(res.values)
    &&& res.values.len() == cmd.keys@.len()
    &&& forall|i: int|
        0 <= i < cmd.keys@.len() ==> #[trigger] res.values[i] == Some(
            ValueView::Bool(before.contains_key(S::slot(cmd.table@, cmd.keys@[i]@))),
        ) || (!S::infallible() && res.values[i] is None)
}

impl CommandService for Hmexist {
    fn execute<S: Storage>(self, store: &mut S) -> (res: CommandResponse)
        ensures
            hmexist_done::<S>(self, old(store).slots(), final(store).slots(), res@),
    {
        let mut values: Vec<Value> = Vec::new();
        let mut i: usize = 0;
        while i < self.keys.len()
            invariant
                i <= self.keys@.len(),
                values@.len() == i,
                *store == *old(store),
                forall|j: int|
                    0 <= j < i ==> #[trigger] values@[j]@ == Some(
                        ValueView::Bool(store.slots().contains_key(S::slot(self.table@, self.keys@[j]@))),
                    ) || (!S::infallible() && values@[j]@ is None),
            decreases self.keys@.len() - i,
        {
            let v = match store.contains(self.table.as_str(), self.keys[i].as_str()) {
                Ok(held) => Value::boolean(held),
                _ => Value::unset(),
            };
            values.push(v);
            i += 1;
        }
        let res = CommandResponse::with_values(values);
        res
    }
}

/// What running the command does, where `before` is what a store held, `after` what it
/// holds then, and `res` the answer.
///
/// The pairs are stored one after the other. The answer carries one value for each pair,
/// in the order of the pairs: the value that the pair's key had just before, and the unset
/// value where it had none. Where the backend failed on a pair, that pair's value is unset,
/// and nothing more is known of the store and of the values.
pub open spec fn hmset_done<S: Storage>(
    cmd: Hmset,
    before: Map<S::Slot, Option<ValueView>>,
    after: Map<S::Slot, Option<ValueView>>,
    res: CommandResponseView,
) -> bool {
    &&& res == CommandResponseView::of_values(res.values)
    &&& res.values.len() == cmd.pairs@.len()
    &&& (res.values == mset_values::<S>(before, cmd.table@, pairs_view(cmd.pairs@)) && after == mset_slots::<S>(
        before,
        cmd.table@,
        pairs_view(cmd.pairs@),
    )) || (!S::infallible() && exists|i: int| 0 <= i < res.values.len() && #[trigger] res.values[i] is None)
}

impl CommandService for Hmset {
    fn execute<S: Storage>(self, store: &mut S) -> (res: CommandResponse)
        ensures
            hmset_done::<S>(self, old(store).slots(), final(store).slots(), res@),
    {
        let ghost start = store.slots();
        let ghost all = pairs_view(self.pairs@);
        let ghost mut failed: int = -1;
        let mut values: Vec<Value> = Vec::new();
        let mut i: usize = 0;
        while i < self.pairs.len()
            invariant
                i <= self.pairs@.len(),
                values@.len() == i,
                all == pairs_view(self.pairs@),
                -1 <= failed < i,
                failed >= 0 ==> !S::infallible() && values@[failed]@ is None,
                failed < 0 ==> values_view(values@) == mset_values::<S>(start, self.table@, all.take(i as int))
                    && store.slots() == mset_slots::<S>(start, self.table@, all.take(i as int)),
            decreases self.pairs@.len() - i,
        {
            let pair = self.pairs[i].duplicate();
            let value = match pair.value {
                Some(v) => v,
                None => Value::unset(),
            };
            let ghost before = values@;
            let outcome = store.set(self.table.as_str(), pair.key, value);
            let ghost gone_wrong = outcome is Err;
            let v = value_or_default(outcome);
            values.push(v);
            proof {
                assert(all.take(i + 1).drop_last() =~= all.take(i as int));
                assert(all.take(i + 1).last() == self.pairs@[i as int]@);
                assert(values_view(values@) =~= values_view(before).push(v@));
                if failed >= 0 {
                    assert(values@[failed] == before[failed]);
                } else if gone_wrong {
                    failed = i as int;
                }
            }
            i += 1;
        }
        proof {
            assert(all.take(i as int) =~= all);
            if failed >= 0 {
                assert(values_view(values@)[failed] is None);
            }
        }
        let res = CommandResponse::with_values(values);
        res
    }
}

/// What running the command does, where `before` is what a store held, `after` what it
/// holds then, and `res` the answer.
///
/// The keys are deleted one after the other. The answer carries one value for each key, in
/// the order of the keys: the value that the key had just before, and the unset value
/// where it had none. Where the backend failed on a key, that key's value is unset, and
/// nothing more is known of the store and of the values.
pub open spec fn hmdel_done<S: Storage>(
    cmd: Hmdel,
    before: Map<S::Slot, Option<ValueView>>,
    after: Map<S::Slot, Option<ValueView>>,
    res: CommandResponseView,
) -> bool {
    &&& res == CommandResponseView::of_values(res.values)
    &&& res.values.len() == cmd.keys@.len()
    &&& (res.values == mdel_values::<S>(before, cmd.table@, keys_view(cmd.keys@)) && after == mdel_slots::<S>(
        before,
        cmd.table@,
        keys_view(cmd.keys@),
    )) || (!S::infallible() && exists|i: int| 0 <= i < res.values.len() && #[trigger] res.values[i] is None)
}

impl CommandService for Hmdel {
    fn execute<S: Storage>(self, store: &mut S) -> (res: CommandResponse)
        ensures
            hmdel_done::<S>(self, old(store).slots(), final(store).slots(), res@),
    {
        let ghost start = store.slots();
        let ghost all = keys_view(self.keys@);
        let ghost mut failed: int = -1;
        let mut values: Vec<Value> = Vec::new();
        let mut i: usize = 0;
        while i < self.keys.len()
            invariant
                i <= self.keys@.len(),
                values@.len() == i,
                all == keys_view(self.keys@),
                -1 <= failed < i,
                failed >= 0 ==> !S::infallible() && values@[failed]@ is None,
                failed < 0 ==> values_view(values@) == mdel_values::<S>(start, self.table@, all.take(i as int))
                    && store.slots() == mdel_slots::<S>(start, self.table@, all.take(i as int)),
            decreases self.keys@.len() - i,
        {
            let ghost before = values@;
            let outcome = store.del(self.table.as_str(), self.keys[i].as_str());
            let ghost gone_wrong = outcome is Err;
            let v = value_or_default(outcome);
            values.push(v);
            proof {
                assert(all.take(i + 1).drop_last() =~= all.take(i as int));
                assert(all.take(i + 1).last() == self.keys@[i as int]@);
                assert(values_view(values@) =~= values_view(before).push(v@));
                if failed >= 0 {
                    assert(values@[failed] == before[failed]);
                } else if gone_wrong {
                    failed = i as int;
                }
            }
            i += 1;
        }
        proof {
            assert(all.take(i as int) =~= all);
            if failed >= 0 {
                assert(values_view(values@)[failed] is None);
            }
        }
        let res = CommandResponse::with_values(values);
        res
    }
}

} // verus!
