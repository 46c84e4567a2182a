//! Storage backends and the contract they share.

pub mod memory;
pub mod sleddb;

use vstd::prelude::*;
use crate::error::KvError;
use crate::pb::value::ValueView;
use crate::pb::{pairs_view, Kvpair, KvpairView, Value};

verus! {

/// What an optional value stands for.
pub open spec fn found_view(found: Option<Value>) -> Option<Option<ValueView>> {
    match found {
        Some(v) => Some(v@),
        None => None,
    }
}

/// Whether `pairs` lists what a store holds in one table, where `slots` is what the store holds
/// and `slot_of` gives the slot of each key of the table: every pair is an entry of the table,
/// no key comes twice, and every entry of the table is among the pairs.
pub open spec fn lists_table<K>(
    pairs: Seq<KvpairView>,
    slots: Map<K, Option<ValueView>>,
    slot_of: spec_fn(Seq<char>) -> K,
) -> bool {
    &&& forall|i: int|
        0 <= i < pairs.len() ==> slots.contains_key(slot_of(#[trigger] pairs[i].key)) && pairs[i].value == Some(
            slots[slot_of(pairs[i].key)],
        )
    &&& forall|i: int, j: int|
        0 <= i < j < pairs.len() ==> #[trigger] pairs[i].key != #[trigger] pairs[j].key
    &&& forall|key: Seq<char>|
        slots.contains_key(#[trigger] slot_of(key)) ==> exists|i: int|
            0 <= i < pairs.len() && #[trigger] pairs[i].key == key
}

/// A store of values under a table name and a key.
///
/// A backend keeps each entry in a slot that the table name and the key decide. Two pairs of
/// table and key share an entry exactly where they share a slot.
pub trait Storage: Sized {
    /// What names a slot of the backend.
    type Slot;

    /// The slot of a table name and a key.
    spec fn slot(table: Seq<char>, key: Seq<char>) -> Self::Slot;

    /// What the store holds, by slot.
    spec fn slots(&self) -> Map<Self::Slot, Option<ValueView>>;

    /// Whether the backend never fails.
    spec fn infallible() -> bool;

    /// Whether the backend can tell the keys of the table of that name from those of every
    /// other table: the entries of such a table can be listed.
    spec fn plain_table(table: Seq<char>) -> bool;

    /// The value under `key` in `table`, or `None` where the table or the key is absent.
    fn get(&self, table: &str, key: &str) -> (r: Result<Option<Value>, KvError>)
        ensures
            r matches Ok(found) ==> found_view(found) == self.slots().get(Self::slot(table@, key@)),
            Self::infallible() ==> r is Ok,
    ;

    /// Stores `value` under `key` in `table` and returns the value that was there before.
    fn set(&mut self, table: &str, key: String, value: Value) -> (r: Result<Option<Value>, KvError>)
        ensures
            r matches Ok(prev) ==> found_view(prev) == old(self).slots().get(Self::slot(table@, key@))
                && final(self).slots() == old(self).slots().insert(Self::slot(table@, key@), value@),
            Self::infallible() ==> r is Ok,
    ;

    /// Whether `table` holds a value under `key`.
    fn contains(&self, table: &str, key: &str) -> (r: Result<bool, KvError>)
        ensures
            r matches Ok(held) ==> held == self.slots().contains_key(Self::slot(table@, key@)),
            Self::infallible() ==> r is Ok,
    ;

    /// Removes the entry under `key` in `table` and returns the value that was there.
    fn del(&mut self, table: &str, key: &str) -> (r: Result<Option<Value>, KvError>)
        ensures
            r matches Ok(prev) ==> found_view(prev) == old(self).slots().get(Self::slot(table@, key@))
                && final(self).slots() == old(self).slots().remove(Self::slot(table@, key@)),
            Self::infallible() ==> r is Ok,
    ;

    /// The entries of `table`, in no particular order; none where the table is absent.
    fn get_all(&self, table: &str) -> (r: Result<Vec<Kvpair>, KvError>)
        ensures
            r matches Ok(pairs) ==> Self::plain_table(table@) ==> lists_table(
                pairs_view(pairs@),
                self.slots(),
                |key: Seq<char>| Self::slot(table@, key),
            ),
            Self::infallible() ==> r is Ok,
    ;

    /// The entries of `table` as they are at the time of the call, to be drawn one by one.
    fn get_iter(&self, table: &str) -> (r: Result<StorageIter<Vec<Kvpair>>, KvError>)
        ensures
            r matches Ok(iter) ==> Self::plain_table(table@) ==> lists_table(
                pairs_view(iter.data@),
                self.slots(),
                |key: Seq<char>| Self::slot(table@, key),
            ),
            Self::infallible() ==> r is Ok,
    ;
}

/// After a value is stored it is found, and after the entry is deleted nothing is found.
pub proof fn lemma_set_get_del_get<S: Storage>(
    start: Map<S::Slot, Option<ValueView>>,
    table: Seq<char>,
    key: Seq<char>,
    value: Option<ValueView>,
)
    ensures
        start.insert(S::slot(table, key), value).get(S::slot(table, key)) == Some(value),
        start.insert(S::slot(table, key), value).remove(S::slot(table, key)).get(S::slot(table, key)) is None,
{
}

/// Storing a second value finds the first: what `set` returns on a store that the first
/// `set` left is the first value.
pub proof fn lemma_set_returns_previous<S: Storage>(
    start: Map<S::Slot, Option<ValueView>>,
    table: Seq<char>,
    key: Seq<char>,
    first: Option<ValueView>,
)
    ensures
        start.insert(S::slot(table, key), first).get(S::slot(table, key)) == Some(first),
{
}

/// A sequence of pairs to be drawn one by one.
pub struct StorageIter<T> {
    pub data: T,
}

impl<T> StorageIter<T> {
    /// Wraps the data to draw from.
    pub fn new(data: T) -> (iter: Self)
        ensures
            iter.data == data,
    {
        Self { data }
    }
}

impl StorageIter<Vec<Kvpair>> {
    /// Draws the next pair: the first one of those that are left, so that the pairs come in
    /// the order of the data; `None` when none is left.
    pub fn next(&mut self) -> (item: Option<Kvpair>)
        ensures
            old(self).data@.len() == 0 ==> item is None && final(self).data@ == old(self).data@,
            old(self).data@.len() > 0 ==> item == Some(old(self).data@[0]) && final(self).data@ == old(
                self,
            ).data@.skip(1),
    {
        if self.data.len() == 0 {
            None
        } else {
            let first = self.data.remove(0);
            assert(self.data@ =~= old(self).data@.skip(1));
            Some(first)
        }
    }
}

} // verus!
