//! The backend that keeps everything in memory: a map of tables, each a map from key to value.

use vstd::prelude::*;
use dashmap::DashMap;
use std::collections::hash_map::RandomState;
use crate::error::KvError;
use crate::pb::value::ValueView;
use crate::pb::{pairs_view, Kvpair, Value};
use crate::storage::{found_view, lists_table, Storage, StorageIter};

verus! {

#[verifier::external_type_specification]
#[verifier::external_body]
#[verifier::reject_recursive_types(K)]
#[verifier::reject_recursive_types(V)]
#[verifier::reject_recursive_types(S)]
pub struct ExDashMap<K, V, S>(DashMap<K, V, S>);

/// The tables by name, each a map from key to value.
pub type Tables = DashMap<String, DashMap<String, Value, RandomState>, RandomState>;

/// What a map of tables holds: for each table name, the table's values by key.
pub uninterp spec fn tables_view(
    tables: Tables,
) -> Map<Seq<char>, Map<Seq<char>, Option<ValueView>>>;

/// The map that holds no table.
pub open spec fn no_tables() -> Map<Seq<char>, Map<Seq<char>, Option<ValueView>>> {
    Map::empty()
}

/// `DashMap::default`: a map without tables.
#[verifier::external_body]
fn tables_new() -> (tables: Tables)
    ensures
        tables_view(tables) == no_tables(),
{
    DashMap::default()
}

/// `DashMap::contains_key` on the map of tables: whether there is a table of that name.
#[verifier::external_body]
fn tables_has(tables: &Tables, name: &str) -> (held: bool)
    ensures
        held == tables_view(*tables).contains_key(name@),
{
    tables.contains_key(name)
}

/// `DashMap::entry` and `Entry::or_default` on the map of tables: where there is no table of
/// that name, an empty one is put in; an existing table stays as it is.
#[verifier::external_body]
fn tables_entry_or_default(
    tables: &mut Tables,
    name: &str,
)
    ensures
        tables_view(*final(tables)) == if tables_view(*old(tables)).contains_key(name@) {
            tables_view(*old(tables))
        } else {
            tables_view(*old(tables)).insert(name@, Map::empty())
        },
{
    tables.entry(name.into()).or_default();
}

/// `DashMap::get` on the map of tables and then on the table: a copy of the value under
/// `key`, if the table has one. The table must exist.
#[verifier::external_body]
fn table_get(
    tables: &Tables,
    name: &str,
    key: &str,
) -> (found: Option<Value>)
    requires
        tables_view(*tables).contains_key(name@),
    ensures
        found_view(found) == tables_view(*tables)[name@].get(key@),
{
    tables.get(name).unwrap().get(key).map(|v| v.value().clone())
}

/// `DashMap::contains_key` on a table: whether the table has a value under `key`. The table
/// must exist.
#[verifier::external_body]
fn table_contains(
    tables: &Tables,
    name: &str,
    key: &str,
) -> (held: bool)
    requires
        tables_view(*tables).contains_key(name@),
    ensures
        held == tables_view(*tables)[name@].contains_key(key@),
{
    tables.get(name).unwrap().contains_key(key)
}

/// `DashMap::insert` on a table: puts `value` under `key` and returns the value that was
/// there. The other tables stay as they are. The table must exist.
#[verifier::external_body]
fn table_insert(
    tables: &mut Tables,
    name: &str,
    key: String,
    value: Value,
) -> (prev: Option<Value>)
    requires
        tables_view(*old(tables)).contains_key(name@),
    ensures
        found_view(prev) == tables_view(*old(tables))[name@].get(key@),
        tables_view(*final(tables)) == tables_view(*old(tables)).insert(
            name@,
            tables_view(*old(tables))[name@].insert(key@, value@),
        ),
{
    tables.get(name).unwrap().insert(key, value)
}

/// `DashMap::remove` on a table: takes the entry under `key` out and returns its value. The
/// other tables stay as they are. The table must exist.
#[verifier::external_body]
fn table_remove(
    tables: &mut Tables,
    name: &str,
    key: &str,
) -> (prev: Option<Value>)
    requires
        tables_view(*old(tables)).contains_key(name@),
    ensures
        found_view(prev) == tables_view(*old(tables))[name@].get(key@),
        tables_view(*final(tables)) == tables_view(*old(tables)).insert(
            name@,
            tables_view(*old(tables))[name@].remove(key@),
        ),
{
    tables.get(name).unwrap().remove(key).map(|(_k, v)| v)
}

/// `DashMap::iter` on a table, each entry copied into a pair: the pairs are the table's
/// entries, each once, in the order in which the map happens to be walked. The table must
/// exist.
#[verifier::external_body]
fn table_pairs(
    tables: &Tables,
    name: &str,
) -> (pairs: Vec<Kvpair>)
    requires
        tables_view(*tables).contains_key(name@),
    ensures
        forall|i: int|
            0 <= i < pairs@.len() ==> tables_view(*tables)[name@].contains_key(#[trigger] pairs@[i].key@)
                && pairs@[i]@.value == Some(tables_view(*tables)[name@][pairs@[i].key@]),
        forall|i: int, j: int|
            0 <= i < j < pairs@.len() ==> #[trigger] pairs@[i].key@ != #[trigger] pairs@[j].key@,
        forall|key: Seq<char>| #[trigger]
            tables_view(*tables)[name@].contains_key(key) ==> exists|i: int|
                0 <= i < pairs@.len() && #[trigger] pairs@[i].key@ == key,
{
    tables.get(name).unwrap().iter().map(|v| Kvpair::new(v.key(), v.value().clone())).collect()
}

/// Tables of values in memory.
pub struct MemTable {
    tables: Tables,
}

impl View for MemTable {
    type V = Map<Seq<char>, Map<Seq<char>, Option<ValueView>>>;

    /// The tables by name, each with its values by key.
    closed spec fn view(&self) -> Map<Seq<char>, Map<Seq<char>, Option<ValueView>>> {
        tables_view(self.tables)
    }
}

/// The entries of all tables, each under its table name and key.
pub open spec fn flat(tables: Map<Seq<char>, Map<Seq<char>, Option<ValueView>>>) -> Map<
    (Seq<char>, Seq<char>),
    Option<ValueView>,
> {
    Map::new(
        |slot: (Seq<char>, Seq<char>)| tables.contains_key(slot.0) && tables[slot.0].contains_key(slot.1),
        |slot: (Seq<char>, Seq<char>)| tables[slot.0][slot.1],
    )
}

/// The table of that name, or an empty one where there is none.
pub open spec fn table_or_empty(
    tables: Map<Seq<char>, Map<Seq<char>, Option<ValueView>>>,
    name: Seq<char>,
) -> Map<Seq<char>, Option<ValueView>> {
    if tables.contains_key(name) {
        tables[name]
    } else {
        Map::empty()
    }
}

impl MemTable {
    /// A store without tables.
    pub fn new() -> (store: MemTable)
        ensures
            store@ == no_tables(),
    {
        MemTable { tables: tables_new() }
    }

    /// The entries of the table of that name, each once; none where there is no such table.
    fn pairs_of(&self, name: &str) -> (pairs: Vec<Kvpair>)
        ensures
            holds_table(pairs@, self@, name@),
    {
        if tables_has(&self.tables, name) {
            table_pairs(&self.tables, name)
        } else {
            Vec::new()
        }
    }

    /// Makes sure that there is a table of that name: an existing one stays as it is, and
    /// where there is none an empty one is created.
    fn get_or_create_table(&mut self, name: &str)
        ensures
            final(self)@ == old(self)@.insert(name@, table_or_empty(old(self)@, name@)),
    {
        if !tables_has(&self.tables, name) {
            tables_entry_or_default(&mut self.tables, name);
        }
        assert(self@ =~= old(self)@.insert(name@, table_or_empty(old(self)@, name@)));
    }
}

impl Default for MemTable {
    fn default() -> (store: MemTable)
        ensures
            store@ == no_tables(),
    {
        MemTable::new()
    }
}

impl Storage for MemTable {
    type Slot = (Seq<char>, Seq<char>);

    open spec fn slot(table: Seq<char>, key: Seq<char>) -> (Seq<char>, Seq<char>) {
        (table, key)
    }

    open spec fn slots(&self) -> Map<(Seq<char>, Seq<char>), Option<ValueView>> {
        flat(self@)
    }

    open spec fn infallible() -> bool {
        true
    }

    open spec fn plain_table(table: Seq<char>) -> bool {
        true
    }

    fn get(&self, table: &str, key: &str) -> (r: Result<Option<Value>, KvError>)
        ensures
            r is Ok,
    {
        if tables_has(&self.tables, table) {
            Ok(table_get(&self.tables, table, key))
        } else {
            Ok(None)
        }
    }

    fn set(&mut self, table: &str, key: String, value: Value) -> (r: Result<Option<Value>, KvError>)
        ensures
            r is Ok,
            final(self)@ == old(self)@.insert(table@, table_or_empty(old(self)@, table@).insert(key@, value@)),
    {
        self.get_or_create_table(table);
        let prev = table_insert(&mut self.tables, table, key, value);
        assert(self@ =~= old(self)@.insert(table@, table_or_empty(old(self)@, table@).insert(key@, value@)));
        assert(flat(self@) =~= flat(old(self)@).insert((table@, key@), value@));
        Ok(prev)
    }

    fn contains(&self, table: &str, key: &str) -> (r: Result<bool, KvError>)
        ensures
            r is Ok,
    {
        if tables_has(&self.tables, table) {
            Ok(table_contains(&self.tables, table, key))
        } else {
            Ok(false)
        }
    }

    fn del(&mut self, table: &str, key: &str) -> (r: Result<Option<Value>, KvError>)
        ensures
            r is Ok,
            final(self)@ == old(self)@.insert(table@, table_or_empty(old(self)@, table@).remove(key@)),
    {
        self.get_or_create_table(table);
        let prev = table_remove(&mut self.tables, table, key);
        assert(self@ =~= old(self)@.insert(table@, table_or_empty(old(self)@, table@).remove(key@)));
        assert(flat(self@) =~= flat(old(self)@).remove((table@, key@)));
        Ok(prev)
    }

    fn get_all(&self, table: &str) -> (r: Result<Vec<Kvpair>, KvError>)
        ensures
            r matches Ok(pairs) && lists_table(pairs_view(pairs@), self.slots(), |key: Seq<char>| (table@, key)),
    {
        let pairs = self.pairs_of(table);
        proof {
            lemma_lists_any_table(pairs@, self@, table@, |key: Seq<char>| (table@, key));
            lemma_lists_any_table(pairs@, self@, table@, |key: Seq<char>| Self::slot(table@, key));
        }
        Ok(pairs)
    }

    fn get_iter(&self, table: &str) -> (r: Result<StorageIter<Vec<Kvpair>>, KvError>)
        ensures
            r matches Ok(iter) && lists_table(pairs_view(iter.data@), self.slots(), |key: Seq<char>| (table@, key)),
    {
        let pairs = self.pairs_of(table);
        proof {
            lemma_lists_any_table(pairs@, self@, table@, |key: Seq<char>| (table@, key));
            lemma_lists_any_table(pairs@, self@, table@, |key: Seq<char>| Self::slot(table@, key));
        }
        Ok(StorageIter::new(pairs))
    }
}

/// Whether `pairs` are the entries of the table `name` of `tables`, each once.
pub open spec fn holds_table(
    pairs: Seq<Kvpair>,
    tables: Map<Seq<char>, Map<Seq<char>, Option<ValueView>>>,
    name: Seq<char>,
) -> bool {
    &&& forall|i: int|
        0 <= i < pairs.len() ==> table_or_empty(tables, name).contains_key(#[trigger] pairs[i].key@)
            && pairs[i]@.value == Some(table_or_empty(tables, name)[pairs[i].key@])
    &&& forall|i: int, j: int|
        0 <= i < j < pairs.len() ==> #[trigger] pairs[i].key@ != #[trigger] pairs[j].key@
    &&& forall|key: Seq<char>| #[trigger]
        table_or_empty(tables, name).contains_key(key) ==> exists|i: int|
            0 <= i < pairs.len() && #[trigger] pairs[i].key@ == key
}

/// Pairs that are the entries of a table list the table, whatever names the slots.
proof fn lemma_lists_any_table(
    pairs: Seq<Kvpair>,
    tables: Map<Seq<char>, Map<Seq<char>, Option<ValueView>>>,
    name: Seq<char>,
    slot_of: spec_fn(Seq<char>) -> (Seq<char>, Seq<char>),
)
    requires
        holds_table(pairs, tables, name),
        forall|key: Seq<char>| #[trigger] slot_of(key) == (name, key),
    ensures
        lists_table(pairs_view(pairs), flat(tables), slot_of),
{
    let listed = pairs_view(pairs);
    let slots = flat(tables);
    assert forall|i: int| 0 <= i < listed.len() implies slots.contains_key(slot_of(#[trigger] listed[i].key))
        && listed[i].value == Some(slots[slot_of(listed[i].key)]) by {
        assert(listed[i] == pairs[i]@);
        assert(table_or_empty(tables, name).contains_key(pairs[i].key@));
    }
    assert forall|i: int, j: int| 0 <= i < j < listed.len() implies #[trigger] listed[i].key
        != #[trigger] listed[j].key by {
        assert(listed[i] == pairs[i]@);
        assert(listed[j] == pairs[j]@);
        assert(pairs[i].key@ != pairs[j].key@);
    }
    assert forall|key: Seq<char>| slots.contains_key(#[trigger] slot_of(key)) implies exists|i: int|
        0 <= i < listed.len() && #[trigger] listed[i].key == key by {
        assert(table_or_empty(tables, name).contains_key(key));
        let i = choose|i: int| 0 <= i < pairs.len() && #[trigger] pairs[i].key@ == key;
        assert(listed[i] == pairs[i]@);
        assert(listed[i].key == key);
    }
}

} // verus!
