//! The backend that keeps everything in an embedded on-disk tree. The entry of a table name
//! and a key stands under the bytes of `"{table}:{key}"`.

use vstd::prelude::*;
use vstd::utf8::{decode_utf8, encode_utf8, valid_utf8};
use crate::error::KvError;
use crate::pb::stored::{bytes_value, lemma_value_round_trip, string_from_utf8, value_bytes};
use crate::pb::value::ValueView;
use crate::pb::{pairs_view, Kvpair, Value};
use crate::storage::{lists_table, Storage, StorageIter};

verus! {

#[verifier::external_type_specification]
#[verifier::external_body]
pub struct ExSledDb(sled::Db);

/// What a tree holds: the stored bytes, by key.
pub uninterp spec fn db_entries(db: sled::Db) -> Map<Seq<u8>, Seq<u8>>;

/// What optional bytes stand for.
pub open spec fn bytes_found(found: Option<Vec<u8>>) -> Option<Seq<u8>> {
    match found {
        Some(bytes) => Some(bytes@),
        None => None,
    }
}

/// Whether `key` starts with `prefix`.
pub open spec fn has_prefix(key: Seq<u8>, prefix: Seq<u8>) -> bool {
    key.len() >= prefix.len() && key.take(prefix.len() as int) == prefix
}

/// Whether `items` are the entries of `entries` whose key starts with `prefix`, each once.
pub open spec fn scanned(items: Seq<(Vec<u8>, Vec<u8>)>, entries: Map<Seq<u8>, Seq<u8>>, prefix: Seq<u8>) -> bool {
    &&& forall|i: int|
        0 <= i < items.len() ==> entries.contains_key(#[trigger] items[i].0@) && entries[items[i].0@] == items[i].1@
            && has_prefix(items[i].0@, prefix)
    &&& forall|i: int, j: int| 0 <= i < j < items.len() ==> #[trigger] items[i].0@ != #[trigger] items[j].0@
    &&& forall|key: Seq<u8>| #[trigger]
        entries.contains_key(key) && has_prefix(key, prefix) ==> exists|i: int|
            0 <= i < items.len() && #[trigger] items[i].0@ == key
}

/// `sled::open`: opens the tree at `path`, or creates it. What it gives depends on what is on
/// disk.
#[verifier::external_body]
fn db_open(path: &str) -> Result<sled::Db, sled::Error> {
    sled::open(path)
}

/// `Tree::get` of sled: on success, a copy of the bytes under `key`, if there are any.
#[verifier::external_body]
fn db_get(db: &sled::Db, key: &[u8]) -> (r: Result<Option<Vec<u8>>, sled::Error>)
    ensures
        r matches Ok(found) ==> bytes_found(found) == db_entries(*db).get(key@),
{
    db.get(key).map(|found| found.map(|v| v.to_vec()))
}

/// `Tree::insert` of sled: on success, `value` stands under `key`, and the result is a copy of
/// the bytes that stood there before, if there were any.
#[verifier::external_body]
fn db_insert(db: &mut sled::Db, key: &[u8], value: Vec<u8>) -> (r: Result<Option<Vec<u8>>, sled::Error>)
    ensures
        r matches Ok(prev) ==> bytes_found(prev) == db_entries(*old(db)).get(key@) && db_entries(*final(db))
            == db_entries(*old(db)).insert(key@, value@),
{
    db.insert(key, value).map(|prev| prev.map(|v| v.to_vec()))
}

/// `Tree::remove` of sled: on success, nothing stands under `key`, and the result is a copy of
/// the bytes that stood there before, if there were any.
#[verifier::external_body]
fn db_remove(db: &mut sled::Db, key: &[u8]) -> (r: Result<Option<Vec<u8>>, sled::Error>)
    ensures
        r matches Ok(prev) ==> bytes_found(prev) == db_entries(*old(db)).get(key@) && db_entries(*final(db))
            == db_entries(*old(db)).remove(key@),
{
    db.remove(key).map(|prev| prev.map(|v| v.to_vec()))
}

/// `Tree::contains_key` of sled: on success, whether anything stands under `key`.
#[verifier::external_body]
fn db_contains_key(db: &sled::Db, key: &[u8]) -> (r: Result<bool, sled::Error>)
    ensures
        r matches Ok(held) ==> held == db_entries(*db).contains_key(key@),
{
    db.contains_key(key)
}

/// `Tree::scan_prefix` of sled, walked to its end, each entry copied out: on success, the
/// entries whose key starts with `prefix`, each once.
#[verifier::external_body]
fn db_scan_prefix(db: &sled::Db, prefix: &[u8]) -> (r: Result<Vec<(Vec<u8>, Vec<u8>)>, sled::Error>)
    ensures
        r matches Ok(items) ==> scanned(items@, db_entries(*db), prefix@),
{
    db.scan_prefix(prefix).map(|item| item.map(|(k, v)| (k.to_vec(), v.to_vec()))).collect()
}

/// The value that stored bytes stand for; bytes that stand for none read as the unset value.
pub open spec fn stored_value(bytes: Seq<u8>) -> Option<ValueView> {
    match bytes_value(bytes) {
        Some(v) => v,
        None => None,
    }
}

/// The name under which the entry of a table name and a key stands.
pub open spec fn full_key(table: Seq<char>, key: Seq<char>) -> Seq<char> {
    table + seq![':'] + key
}

/// Whether `at` is where the first colon of `bytes` stands.
pub open spec fn is_first_colon(bytes: Seq<u8>, at: int) -> bool {
    &&& 0 <= at < bytes.len()
    &&& bytes[at] == 58
    &&& forall|j: int| 0 <= j < at ==> bytes[j] != 58
}

/// Whether `key` is what follows the first colon of the stored name `name`.
pub open spec fn follows_colon(name: Seq<u8>, key: Seq<char>) -> bool {
    exists|at: int| is_first_colon(name, at) && valid_utf8(name.skip(at + 1)) && key == decode_utf8(name.skip(at + 1))
}

/// The UTF-8 form of two texts, one after the other, is the form of the first and then the
/// form of the second.
pub proof fn lemma_encode_utf8_concat(a: Seq<char>, b: Seq<char>)
    ensures
        encode_utf8(a + b) == encode_utf8(a) + encode_utf8(b),
    decreases a.len(),
{
    if a.len() == 0 {
        assert(a + b =~= b);
        assert(encode_utf8(a) + encode_utf8(b) =~= encode_utf8(b));
    } else {
        assert((a + b).drop_first() =~= a.drop_first() + b);
        assert((a + b)[0] == a[0]);
        lemma_encode_utf8_concat(a.drop_first(), b);
        assert(encode_utf8(a + b) =~= encode_utf8(a) + encode_utf8(b));
    }
}

/// The UTF-8 form of a colon is the one byte 58.
pub proof fn lemma_encode_colon()
    ensures
        encode_utf8(seq![':']) == seq![58u8],
{
    let colon = seq![':'];
    assert(colon.drop_first() =~= Seq::<char>::empty());
    assert(encode_utf8(colon.drop_first()) =~= Seq::<u8>::empty());
    assert(encode_utf8(colon) =~= vstd::utf8::encode_scalar(':' as u32));
    assert(':' as u32 == 58);
    assert(vstd::utf8::has_width_1_encoding(58u32));
    assert(vstd::utf8::leading_byte_width_1(58u32) == 58u8) by (bit_vector);
    assert(vstd::utf8::encode_scalar(58u32) =~= seq![58u8]);
}

/// A tree on disk as a store of values.
pub struct SledDb(sled::Db);

impl View for SledDb {
    type V = Map<Seq<u8>, Seq<u8>>;

    /// The stored bytes, by the bytes of the name they stand under.
    closed spec fn view(&self) -> Map<Seq<u8>, Seq<u8>> {
        db_entries(self.0)
    }
}

/// The values that stored bytes stand for, by the same keys.
pub open spec fn values_of(entries: Map<Seq<u8>, Seq<u8>>) -> Map<Seq<u8>, Option<ValueView>> {
    Map::new(|key: Seq<u8>| entries.contains_key(key), |key: Seq<u8>| stored_value(entries[key]))
}

/// The part of a stored name that follows its first colon: the key. Fails with `Internal`
/// where the name has no colon, or where what follows the colon is not valid UTF-8.
pub fn ivec_to_key(ivec: &[u8]) -> (r: Result<String, KvError>)
    ensures
        match r {
            Ok(key) => follows_colon(ivec@, key@),
            Err(e) => e is Internal && forall|at: int| is_first_colon(ivec@, at) ==> !valid_utf8(ivec@.skip(at + 1)),
        },
{
    let mut i: usize = 0;
    while i < ivec.len() && ivec[i] != 58
        invariant
            i <= ivec@.len(),
            forall|j: int| 0 <= j < i ==> ivec@[j] != 58,
        decreases ivec@.len() - i,
    {
        i += 1;
    }
    if i < ivec.len() {
        assert(is_first_colon(ivec@, i as int));
        let mut rest: Vec<u8> = Vec::new();
        let mut k: usize = i + 1;
        while k < ivec.len()
            invariant
                i + 1 <= k <= ivec@.len(),
                rest@ == ivec@.subrange(i + 1, k as int),
            decreases ivec@.len() - k,
        {
            rest.push(ivec[k]);
            assert(ivec@.subrange(i + 1, k + 1) =~= ivec@.subrange(i + 1, k as int).push(ivec@[k as int]));
            k += 1;
        }
        assert(ivec@.subrange(i + 1, k as int) =~= ivec@.skip(i + 1));
        match string_from_utf8(rest) {
            Ok(key) => {
                assert(follows_colon(ivec@, key@));
                Ok(key)
            },
            Err(_) => {
                assert forall|at: int| is_first_colon(ivec@, at) implies !valid_utf8(ivec@.skip(at + 1)) by {
                    assert(at == i);
                }
                Err(KvError::Internal(String::from_str("Invalid stored key")))
            },
        }
    } else {
        Err(KvError::Internal(String::from_str("Invalid stored key")))
    }
}

/// `flip`: an absent result is a success with nothing in it.
pub fn flip<T, E>(x: Option<Result<T, E>>) -> (r: Result<Option<T>, E>)
    ensures
        r == match x {
            Some(Ok(v)) => Ok::<Option<T>, E>(Some(v)),
            Some(Err(e)) => Err::<Option<T>, E>(e),
            None => Ok::<Option<T>, E>(None),
        },
{
    match x {
        Some(Ok(v)) => Ok(Some(v)),
        Some(Err(e)) => Err(e),
        None => Ok(None),
    }
}

/// Whether `e` is an error that a failure of the embedded engine becomes.
pub open spec fn engine_failure(e: KvError) -> bool {
    exists|kind: crate::error::SledErrorKind| #[trigger] e.is_for(kind)
}

/// Whether a stored name yields no key: it has no colon, or what follows its first colon is
/// not valid UTF-8.
pub open spec fn key_unreadable(name: Seq<u8>) -> bool {
    forall|at: int| is_first_colon(name, at) ==> !valid_utf8(name.skip(at + 1))
}

/// Whether `pairs` are what the stored entries `items` stand for, one for one and in their
/// order: the key is what follows the first colon of the stored name, and the value is what
/// the stored bytes stand for.
pub open spec fn decoded(items: Seq<(Vec<u8>, Vec<u8>)>, pairs: Seq<Kvpair>) -> bool {
    &&& pairs.len() == items.len()
    &&& forall|j: int|
        0 <= j < items.len() ==> follows_colon(items[j].0@, (#[trigger] pairs[j]).key@) && bytes_value(
            items[j].1@,
        ) is Some && pairs[j]@.value == Some(stored_value(items[j].1@))
}

/// Whether `e` is the error for a stored entry among `items` that cannot be read: `Internal`
/// for a stored name that yields no key, `ConvertError` for stored bytes that stand for no
/// value.
pub open spec fn undecodable(items: Seq<(Vec<u8>, Vec<u8>)>, e: KvError) -> bool {
    exists|j: int|
        0 <= j < items.len() && ((e is Internal && key_unreadable((#[trigger] items[j]).0@)) || (e is ConvertError
            && bytes_value(items[j].1@) is None))
}

/// The value that optional stored bytes stand for: nothing for no bytes, the value for bytes
/// that stand for one, and `ConvertError`, which holds the bytes, for bytes that stand for
/// none.
pub fn stored_to_value(found: Option<Vec<u8>>) -> (r: Result<Option<Value>, KvError>)
    ensures
        match found {
            Some(bytes) => match bytes_value(bytes@) {
                Some(v) => r matches Ok(Some(value)) && value@ == v,
                None => r matches Err(KvError::ConvertError(held, _)) && held@ == Some(ValueView::Binary(bytes@)),
            },
            None => r matches Ok(None),
        },
{
    let converted = match found {
        Some(bytes) => Some(Value::from_bytes(bytes.as_slice())),
        None => None,
    };
    flip(converted)
}

/// The pairs that stored entries stand for, one for one and in their order. Fails at the
/// first entry that cannot be read: with `Internal` where its stored name yields no key, with
/// `ConvertError` where its stored bytes stand for no value.
pub fn decode_items(items: &Vec<(Vec<u8>, Vec<u8>)>) -> (r: Result<Vec<Kvpair>, KvError>)
    ensures
        match r {
            Ok(pairs) => decoded(items@, pairs@),
            Err(e) => undecodable(items@, e),
        },
        r is Ok <==> forall|j: int|
            0 <= j < items@.len() ==> !key_unreadable((#[trigger] items@[j]).0@) && bytes_value(items@[j].1@) is Some,
{
    let mut pairs: Vec<Kvpair> = Vec::new();
    let mut i: usize = 0;
    while i < items.len()
        invariant
            i <= items@.len(),
            decoded(items@.take(i as int), pairs@),
            forall|j: int|
                0 <= j < i ==> !key_unreadable((#[trigger] items@[j]).0@) && bytes_value(items@[j].1@) is Some,
        decreases items@.len() - i,
    {
        let key = match ivec_to_key(items[i].0.as_slice()) {
            Ok(key) => key,
            Err(e) => {
                assert(key_unreadable(items@[i as int].0@));
                return Err(e);
            },
        };
        let value = match Value::from_bytes(items[i].1.as_slice()) {
            Ok(value) => value,
            Err(e) => {
                assert(bytes_value(items@[i as int].1@) is None);
                return Err(e);
            },
        };
        let ghost before = pairs@;
        pairs.push(Kvpair { key, value: Some(value) });
        proof {
            let upto = items@.take(i + 1);
            assert forall|j: int| 0 <= j < upto.len() implies follows_colon(upto[j].0@, (#[trigger] pairs@[j]).key@)
                && bytes_value(upto[j].1@) is Some && pairs@[j]@.value == Some(stored_value(upto[j].1@)) by {
                if j < i {
                    assert(pairs@[j] == before[j]);
                    assert(upto[j] == items@.take(i as int)[j]);
                }
            }
            let name = items@[i as int].0@;
            let at = choose|at: int|
                is_first_colon(name, at) && valid_utf8(name.skip(at + 1)) && key@ == decode_utf8(name.skip(at + 1));
            assert(is_first_colon(name, at) && valid_utf8(name.skip(at + 1)));
        }
        i += 1;
    }
    proof {
        assert(items@.take(i as int) =~= items@);
    }
    Ok(pairs)
}

/// Entries that were read off a plain table list the table: where `items` are the stored
/// entries under the table's lead, and `pairs` are what they stand for, the pairs are the
/// table's entries, each once.
pub proof fn lemma_decoded_lists_table(
    entries: Map<Seq<u8>, Seq<u8>>,
    table: Seq<char>,
    items: Seq<(Vec<u8>, Vec<u8>)>,
    pairs: Seq<Kvpair>,
)
    requires
        scanned(items, entries, encode_utf8(table + seq![':'])),
        decoded(items, pairs),
        !encode_utf8(table).contains(58u8),
    ensures
        lists_table(pairs_view(pairs), values_of(entries), |key: Seq<char>| encode_utf8(full_key(table, key))),
{
    let start = encode_utf8(table);
    let lead = encode_utf8(table + seq![':']);
    lemma_encode_utf8_concat(table, seq![':']);
    lemma_encode_colon();
    assert(lead =~= start + seq![58u8]);
    let shown = pairs_view(pairs);
    let slots = values_of(entries);
    let slot_of = |key: Seq<char>| encode_utf8(full_key(table, key));
    // every item's name is the table's lead and then the UTF-8 form of the pair's key
    assert forall|j: int| 0 <= j < items.len() implies valid_utf8(items[j].0@.skip(lead.len() as int)) && pairs[j].key@
        == decode_utf8(items[j].0@.skip(lead.len() as int)) && items[j].0@ == lead + encode_utf8(pairs[j].key@)
        && #[trigger] slot_of(pairs[j].key@) == items[j].0@ by {
        let name = items[j].0@;
        assert(entries.contains_key(name) && has_prefix(name, lead));
        assert(name.take(lead.len() as int) == lead);
        assert forall|k: int| 0 <= k < start.len() implies name[k] != 58 by {
            assert(name[k] == name.take(lead.len() as int)[k]);
            assert(lead[k] == start[k]);
            assert(start.contains(start[k]));
        }
        assert(name[start.len() as int] == name.take(lead.len() as int)[start.len() as int]);
        assert(is_first_colon(name, start.len() as int));
        assert(follows_colon(name, pairs[j].key@));
        let at = choose|at: int|
            is_first_colon(name, at) && valid_utf8(name.skip(at + 1)) && pairs[j].key@ == decode_utf8(
                name.skip(at + 1),
            );
        assert(at == start.len());
        let rest = name.skip(lead.len() as int);
        vstd::utf8::decode_utf8_encode_utf8(rest);
        assert(name =~= lead + rest);
        lemma_encode_utf8_concat(table + seq![':'], pairs[j].key@);
        assert(table + seq![':'] + pairs[j].key@ =~= full_key(table, pairs[j].key@));
    }
    assert forall|j: int| 0 <= j < shown.len() implies slots.contains_key(slot_of(#[trigger] shown[j].key))
        && shown[j].value == Some(slots[slot_of(shown[j].key)]) by {
        assert(shown[j] == pairs[j]@);
        assert(slot_of(pairs[j].key@) == items[j].0@);
        assert(entries.contains_key(items[j].0@));
    }
    assert forall|a: int, b: int| 0 <= a < b < shown.len() implies #[trigger] shown[a].key
        != #[trigger] shown[b].key by {
        assert(shown[a] == pairs[a]@);
        assert(shown[b] == pairs[b]@);
        assert(slot_of(pairs[a].key@) == items[a].0@);
        assert(slot_of(pairs[b].key@) == items[b].0@);
        assert(items[a].0@ != items[b].0@);
    }
    assert forall|key: Seq<char>| slots.contains_key(#[trigger] slot_of(key)) implies exists|j: int|
        0 <= j < shown.len() && #[trigger] shown[j].key == key by {
        let name = slot_of(key);
        lemma_encode_utf8_concat(table + seq![':'], key);
        assert(table + seq![':'] + key =~= full_key(table, key));
        assert(name =~= lead + encode_utf8(key));
        assert(name.take(lead.len() as int) =~= lead);
        assert(entries.contains_key(name) && has_prefix(name, lead));
        let j = choose|j: int| 0 <= j < items.len() && #[trigger] items[j].0@ == name;
        assert(slot_of(pairs[j].key@) == items[j].0@);
        assert(name.skip(lead.len() as int) =~= encode_utf8(key));
        vstd::utf8::encode_utf8_decode_utf8(key);
        assert(shown[j] == pairs[j]@);
        assert(shown[j].key == key);
    }
}

/// What reading a slot gives, where `entries` is what the tree holds: nothing where nothing
/// stands under the slot; the value where the bytes there stand for one; `ConvertError` where
/// they stand for none; or, whatever stands there, the error that a failure of the engine
/// became.
pub open spec fn fetched(entries: Map<Seq<u8>, Seq<u8>>, slot: Seq<u8>, r: Result<Option<Value>, KvError>) -> bool {
    match r {
        Ok(None) => !entries.contains_key(slot),
        Ok(Some(value)) => entries.contains_key(slot) && bytes_value(entries[slot]) == Some(value@),
        Err(e) => engine_failure(e) || (entries.contains_key(slot) && bytes_value(entries[slot]) is None
            && e is ConvertError),
    }
}

/// What listing a table gives, where `entries` is what the tree holds: on success the pairs
/// that the stored entries under the table's lead stand for, each once; else the error that
/// the engine's failure became, or the error for an entry under the lead that cannot be read.
pub open spec fn listed(entries: Map<Seq<u8>, Seq<u8>>, table: Seq<char>, r: Result<Vec<Kvpair>, KvError>) -> bool {
    match r {
        Ok(pairs) => exists|items: Seq<(Vec<u8>, Vec<u8>)>|
            #![trigger decoded(items, pairs@)]
            scanned(items, entries, encode_utf8(table + seq![':'])) && decoded(items, pairs@),
        Err(e) => engine_failure(e) || exists|items: Seq<(Vec<u8>, Vec<u8>)>|
            #![trigger undecodable(items, e)]
            scanned(items, entries, encode_utf8(table + seq![':'])) && undecodable(items, e),
    }
}

impl SledDb {
    /// Opens the tree at `path`, or creates it. Where the engine cannot, the error is what its
    /// failure becomes.
    pub fn new(path: &str) -> (r: Result<SledDb, KvError>)
        ensures
            r matches Err(e) ==> engine_failure(e),
    {
        match db_open(path) {
            Ok(db) => Ok(SledDb(db)),
            Err(e) => {
                let ghost kind = crate::error::sled_error_kind(e);
                let err = KvError::storage(e);
                assert(err.is_for(kind));
                Err(err)
            },
        }
    }

    /// The name under which the entry of a table name and a key stands: `"{table}:{key}"`.
    pub fn get_full_key(table: &str, key: &str) -> (name: String)
        ensures
            name@ == full_key(table@, key@),
    {
        proof {
            reveal_strlit(":");
        }
        let mut name = String::from_str(table);
        name.append(":");
        name.append(key);
        assert(":"@ =~= seq![':']);
        name
    }

    /// The start of the names of all entries of a table: `"{table}:"`.
    pub fn get_table_prefix(table: &str) -> (prefix: String)
        ensures
            prefix@ == table@ + seq![':'],
    {
        proof {
            reveal_strlit(":");
        }
        let mut prefix = String::from_str(table);
        prefix.append(":");
        assert(":"@ =~= seq![':']);
        prefix
    }

    /// The entries of a table, each once: see [`listed`]. The pairs of a plain table list the
    /// table.
    fn pairs_of(&self, table: &str) -> (r: Result<Vec<Kvpair>, KvError>)
        ensures
            listed(self@, table@, r),
            r matches Ok(pairs) ==> Self::plain_table(table@) ==> lists_table(
                pairs_view(pairs@),
                self.slots(),
                |key: Seq<char>| Self::slot(table@, key),
            ),
    {
        let prefix = SledDb::get_table_prefix(table);
        let items = match db_scan_prefix(&self.0, prefix.as_str().as_bytes()) {
            Ok(items) => items,
            Err(e) => {
                let ghost kind = crate::error::sled_error_kind(e);
                let err = KvError::storage(e);
                assert(err.is_for(kind));
                return Err(err);
            },
        };
        let r = decode_items(&items);
        proof {
            if r is Ok {
                let pairs = r->Ok_0;
                assert(scanned(items@, self@, encode_utf8(table@ + seq![':'])) && decoded(items@, pairs@));
                if Self::plain_table(table@) {
                    lemma_decoded_lists_table(self@, table@, items@, pairs@);
                    assert((|key: Seq<char>| Self::slot(table@, key)) =~= (|key: Seq<char>|
                        encode_utf8(full_key(table@, key))));
                }
            } else {
                let e = r->Err_0;
                assert(scanned(items@, self@, encode_utf8(table@ + seq![':'])) && undecodable(items@, e));
            }
        }
        r
    }
}

impl Storage for SledDb {
    type Slot = Seq<u8>;

    /// The UTF-8 form of `"{table}:{key}"`.
    open spec fn slot(table: Seq<char>, key: Seq<char>) -> Seq<u8> {
        encode_utf8(full_key(table, key))
    }

    open spec fn slots(&self) -> Map<Seq<u8>, Option<ValueView>> {
        values_of(self@)
    }

    open spec fn infallible() -> bool {
        false
    }

    /// A table whose name, in UTF-8, holds no colon.
    open spec fn plain_table(table: Seq<char>) -> bool {
        !encode_utf8(table).contains(58u8)
    }

    /// Fails where the engine fails, with what its failure becomes, and with `ConvertError`
    /// where the stored bytes stand for no value.
    fn get(&self, table: &str, key: &str) -> (r: Result<Option<Value>, KvError>)
        ensures
            fetched(self@, Self::slot(table@, key@), r),
    {
        let name = SledDb::get_full_key(table, key);
        match db_get(&self.0, name.as_str().as_bytes()) {
            Ok(found) => stored_to_value(found),
            Err(e) => {
                let ghost kind = crate::error::sled_error_kind(e);
                let err = KvError::storage(e);
                assert(err.is_for(kind));
                Err(err)
            },
        }
    }

    /// The value's bytes are stored under the slot. Fails where the engine fails, with what its
    /// failure becomes; and with `ConvertError` where the bytes that stood there before stand
    /// for no value: the new bytes are stored all the same.
    fn set(&mut self, table: &str, key: String, value: Value) -> (r: Result<Option<Value>, KvError>)
        ensures
            (r is Err && engine_failure(r->Err_0)) || (final(self)@ == old(self)@.insert(
                Self::slot(table@, key@),
                value_bytes(value@),
            ) && fetched(old(self)@, Self::slot(table@, key@), r)),
    {
        let name = SledDb::get_full_key(table, key.as_str());
        let data = value.to_bytes();
        proof {
            lemma_value_round_trip(value@);
        }
        match db_insert(&mut self.0, name.as_str().as_bytes(), data) {
            Ok(prev) => {
                assert(self.slots() =~= old(self).slots().insert(Self::slot(table@, key@), value@));
                stored_to_value(prev)
            },
            Err(e) => {
                let ghost kind = crate::error::sled_error_kind(e);
                let err = KvError::storage(e);
                assert(err.is_for(kind));
                Err(err)
            },
        }
    }

    /// Fails where the engine fails, with what its failure becomes.
    fn contains(&self, table: &str, key: &str) -> (r: Result<bool, KvError>)
        ensures
            r matches Err(e) ==> engine_failure(e),
    {
        let name = SledDb::get_full_key(table, key);
        match db_contains_key(&self.0, name.as_str().as_bytes()) {
            Ok(held) => Ok(held),
            Err(e) => {
                let ghost kind = crate::error::sled_error_kind(e);
                let err = KvError::storage(e);
                assert(err.is_for(kind));
                Err(err)
            },
        }
    }

    /// Nothing stands under the slot afterwards. Fails where the engine fails, with what its
    /// failure becomes; and with `ConvertError` where the bytes that stood there stand for no
    /// value: they are gone all the same.
    fn del(&mut self, table: &str, key: &str) -> (r: Result<Option<Value>, KvError>)
        ensures
            (r is Err && engine_failure(r->Err_0)) || (final(self)@ == old(self)@.remove(Self::slot(table@, key@)) && fetched(
                old(self)@,
                Self::slot(table@, key@),
                r,
            )),
    {
        let name = SledDb::get_full_key(table, key);
        match db_remove(&mut self.0, name.as_str().as_bytes()) {
            Ok(prev) => {
                assert(self.slots() =~= old(self).slots().remove(Self::slot(table@, key@)));
                stored_to_value(prev)
            },
            Err(e) => {
                let ghost kind = crate::error::sled_error_kind(e);
                let err = KvError::storage(e);
                assert(err.is_for(kind));
                Err(err)
            },
        }
    }

    /// The pairs that the stored entries under the table's lead stand for: see [`listed`].
    fn get_all(&self, table: &str) -> (r: Result<Vec<Kvpair>, KvError>)
        ensures
            listed(self@, table@, r),
    {
        self.pairs_of(table)
    }

    /// The pairs that the stored entries under the table's lead stand for, to be drawn one by
    /// one: see [`listed`].
    fn get_iter(&self, table: &str) -> (r: Result<StorageIter<Vec<Kvpair>>, KvError>)
        ensures
            match r {
                Ok(iter) => listed(self@, table@, Ok::<Vec<Kvpair>, KvError>(iter.data)),
                Err(e) => listed(self@, table@, Err::<Vec<Kvpair>, KvError>(e)),
            },
    {
        match self.pairs_of(table) {
            Ok(pairs) => Ok(StorageIter::new(pairs)),
            Err(e) => Err(e),
        }
    }
}

} // verus!
