//! Wire records: requests, responses, values and key-value pairs, and the conversions between
//! them and plain values.

pub mod command_request;
pub mod stored;
pub mod value;

use vstd::prelude::*;
use vstd::std_specs::convert::FromSpecImpl;
use crate::pb::command_request::RequestData;

verus! {

/// A value that may be unset. An unset value differs from every set one.
#[derive(Clone, Debug, PartialEq, PartialOrd)]
pub struct Value {
    pub value: Option<value::Value>,
}

/// A key with a value that may be missing.
#[derive(Clone, Debug, PartialEq, PartialOrd)]
pub struct Kvpair {
    pub key: String,
    pub value: Option<Value>,
}

/// What a [`Kvpair`] stands for.
pub struct KvpairView {
    pub key: Seq<char>,
    pub value: Option<Option<value::ValueView>>,
}

/// A request: at most one command. A request without a command is invalid.
#[derive(Clone, Debug, PartialEq)]
pub struct CommandRequest {
    pub request_data: Option<RequestData>,
}

/// A response: a status, a message for humans, values and pairs.
#[derive(Clone, Debug, PartialEq)]
pub struct CommandResponse {
    pub status: u32,
    pub message: String,
    pub values: Vec<Value>,
    pub pairs: Vec<Kvpair>,
}

/// What a [`CommandResponse`] stands for.
pub struct CommandResponseView {
    pub status: u32,
    pub message: Seq<char>,
    pub values: Seq<Option<value::ValueView>>,
    pub pairs: Seq<KvpairView>,
}

#[derive(Clone, Debug, PartialEq)]
pub struct Hget {
    pub table: String,
    pub key: String,
}

#[derive(Clone, Debug, PartialEq)]
pub struct Hgetall {
    pub table: String,
}

#[derive(Clone, Debug, PartialEq)]
pub struct Hmget {
    pub table: String,
    pub keys: Vec<String>,
}

#[derive(Clone, Debug, PartialEq)]
pub struct Hset {
    pub table: String,
    pub pair: Option<Kvpair>,
}

#[derive(Clone, Debug, PartialEq)]
pub struct Hmset {
    pub table: String,
    pub pairs: Vec<Kvpair>,
}

#[derive(Clone, Debug, PartialEq)]
pub struct Hdel {
    pub table: String,
    pub key: String,
}

#[derive(Clone, Debug, PartialEq)]
pub struct Hmdel {
    pub table: String,
    pub keys: Vec<String>,
}

#[derive(Clone, Debug, PartialEq)]
pub struct Hexist {
    pub table: String,
    pub key: String,
}

#[derive(Clone, Debug, PartialEq)]
pub struct Hmexist {
    pub table: String,
    pub keys: Vec<String>,
}

#[derive(Clone, Debug, PartialEq)]
pub struct Subscribe {
    pub topic: String,
}

#[derive(Clone, Debug, PartialEq)]
pub struct Unsubscribe {
    pub topic: String,
    pub id: u32,
}

#[derive(Clone, Debug, PartialEq)]
pub struct Publish {
    pub topic: String,
    pub data: Vec<Value>,
}

/// Status of a successful response.
pub const STATUS_OK: u32 = 200;

/// Status of a response to a request that could not be understood.
pub const STATUS_BAD_REQUEST: u32 = 400;

/// Status of a response to a lookup that found nothing.
pub const STATUS_NOT_FOUND: u32 = 404;

/// Status of a response to a request that failed for any other reason.
pub const STATUS_INTERNAL: u32 = 500;

impl View for Value {
    type V = Option<value::ValueView>;

    open spec fn view(&self) -> Option<value::ValueView> {
        match self.value {
            Some(v) => Some(v@),
            None => None,
        }
    }
}

impl View for Kvpair {
    type V = KvpairView;

    open spec fn view(&self) -> KvpairView {
        KvpairView {
            key: self.key@,
            value: match self.value {
                Some(v) => Some(v@),
                None => None,
            },
        }
    }
}

/// The values that a sequence of [`Value`]s stands for.
pub open spec fn values_view(values: Seq<Value>) -> Seq<Option<value::ValueView>> {
    Seq::new(values.len(), |i: int| values[i]@)
}

/// The pairs that a sequence of [`Kvpair`]s stands for.
pub open spec fn pairs_view(pairs: Seq<Kvpair>) -> Seq<KvpairView> {
    Seq::new(pairs.len(), |i: int| pairs[i]@)
}

impl View for CommandResponse {
    type V = CommandResponseView;

    open spec fn view(&self) -> CommandResponseView {
        CommandResponseView {
            status: self.status,
            message: self.message@,
            values: values_view(self.values@),
            pairs: pairs_view(self.pairs@),
        }
    }
}

impl CommandResponseView {
    /// The response that stands for "no answer yet": status 0 and nothing else.
    pub open spec fn empty() -> CommandResponseView {
        CommandResponseView { status: 0, message: Seq::empty(), values: Seq::empty(), pairs: Seq::empty() }
    }

    /// A successful response that carries `values` and nothing else.
    pub open spec fn of_values(values: Seq<Option<value::ValueView>>) -> CommandResponseView {
        CommandResponseView { status: 200, message: Seq::empty(), values, pairs: Seq::empty() }
    }

    /// A successful response that carries `pairs` and nothing else.
    pub open spec fn of_pairs(pairs: Seq<KvpairView>) -> CommandResponseView {
        CommandResponseView { status: 200, message: Seq::empty(), values: Seq::empty(), pairs }
    }

    /// A failed response: a status and a message.
    pub open spec fn failure(status: u32, message: Seq<char>) -> CommandResponseView {
        CommandResponseView { status, message, values: Seq::empty(), pairs: Seq::empty() }
    }
}

impl Value {
    /// The unset value.
    pub fn unset() -> (v: Value)
        ensures
            v@ is None,
    {
        Value { value: None }
    }

    /// A text value.
    pub fn string(s: String) -> (v: Value)
        ensures
            v@ == Some(value::ValueView::String(s@)),
    {
        Value { value: Some(value::Value::String(s)) }
    }

    /// A value of raw bytes.
    pub fn binary(b: Vec<u8>) -> (v: Value)
        ensures
            v@ == Some(value::ValueView::Binary(b@)),
    {
        Value { value: Some(value::Value::Binary(b)) }
    }

    /// An integer value.
    pub fn integer(i: i64) -> (v: Value)
        ensures
            v@ == Some(value::ValueView::Integer(i)),
    {
        Value { value: Some(value::Value::Integer(i)) }
    }

    /// A boolean value.
    pub fn boolean(b: bool) -> (v: Value)
        ensures
            v@ == Some(value::ValueView::Bool(b)),
    {
        Value { value: Some(value::Value::Bool(b)) }
    }

    /// A copy that stands for the same value.
    pub fn duplicate(&self) -> (copy: Value)
        ensures
            copy@ == self@,
    {
        match &self.value {
            Some(v) => Value { value: Some(v.duplicate()) },
            None => Value { value: None },
        }
    }
}

impl Default for Value {
    fn default() -> (v: Value)
        ensures
            v@ is None,
    {
        Value::unset()
    }
}

impl FromSpecImpl<String> for Value {
    open spec fn obeys_from_spec() -> bool {
        true
    }

    open spec fn from_spec(s: String) -> Value {
        Value { value: Some(value::Value::String(s)) }
    }
}

impl From<String> for Value {
    fn from(s: String) -> (v: Value)
        ensures
            v@ == Some(value::ValueView::String(s@)),
    {
        Value { value: Some(value::Value::String(s)) }
    }
}

impl<'a> FromSpecImpl<&'a str> for Value {
    open spec fn obeys_from_spec() -> bool {
        false
    }

    open spec fn from_spec(s: &'a str) -> Value {
        Value { value: None }
    }
}

impl<'a> From<&'a str> for Value {
    fn from(s: &'a str) -> (v: Value)
        ensures
            v@ == Some(value::ValueView::String(s@)),
    {
        Value::string(String::from_str(s))
    }
}

impl FromSpecImpl<i64> for Value {
    open spec fn obeys_from_spec() -> bool {
        true
    }

    open spec fn from_spec(i: i64) -> Value {
        Value { value: Some(value::Value::Integer(i)) }
    }
}

impl From<i64> for Value {
    fn from(i: i64) -> (v: Value)
        ensures
            v@ == Some(value::ValueView::Integer(i)),
    {
        Value { value: Some(value::Value::Integer(i)) }
    }
}

impl FromSpecImpl<bool> for Value {
    open spec fn obeys_from_spec() -> bool {
        true
    }

    open spec fn from_spec(b: bool) -> Value {
        Value { value: Some(value::Value::Bool(b)) }
    }
}

impl From<bool> for Value {
    fn from(b: bool) -> (v: Value)
        ensures
            v@ == Some(value::ValueView::Bool(b)),
    {
        Value { value: Some(value::Value::Bool(b)) }
    }
}

impl FromSpecImpl<Vec<u8>> for Value {
    open spec fn obeys_from_spec() -> bool {
        true
    }

    open spec fn from_spec(b: Vec<u8>) -> Value {
        Value { value: Some(value::Value::Binary(b)) }
    }
}

impl From<Vec<u8>> for Value {
    fn from(b: Vec<u8>) -> (v: Value)
        ensures
            v@ == Some(value::ValueView::Binary(b@)),
    {
        Value { value: Some(value::Value::Binary(b)) }
    }
}

impl Kvpair {
    /// A pair of `key` and a present `value`.
    pub fn new(key: &str, value: Value) -> (pair: Kvpair)
        ensures
            pair@ == (KvpairView { key: key@, value: Some(value@) }),
    {
        Kvpair { key: String::from_str(key), value: Some(value) }
    }

    /// A copy that stands for the same pair.
    pub fn duplicate(&self) -> (copy: Kvpair)
        ensures
            copy@ == self@,
    {
        Kvpair {
            key: self.key.clone(),
            value: match &self.value {
                Some(v) => Some(v.duplicate()),
                None => None,
            },
        }
    }
}

impl Default for Kvpair {
    fn default() -> (pair: Kvpair)
        ensures
            pair@ == (KvpairView { key: Seq::empty(), value: None }),
    {
        Kvpair { key: String::new(), value: None }
    }
}

impl FromSpecImpl<(String, Value)> for Kvpair {
    open spec fn obeys_from_spec() -> bool {
        true
    }

    open spec fn from_spec(data: (String, Value)) -> Kvpair {
        Kvpair { key: data.0, value: Some(data.1) }
    }
}

impl From<(String, Value)> for Kvpair {
    fn from(data: (String, Value)) -> (pair: Kvpair)
        ensures
            pair@ == (KvpairView { key: data.0@, value: Some(data.1@) }),
    {
        Kvpair { key: data.0, value: Some(data.1) }
    }
}

impl CommandRequest {
    /// A request to store `value` under `key` in `table`.
    pub fn new_hset(table: &str, key: &str, value: Value) -> (cmd: CommandRequest)
        ensures
            cmd.request_data matches Some(RequestData::Hset(p)) && p.table@ == table@ && (
            p.pair matches Some(pair) && pair@ == (KvpairView { key: key@, value: Some(value@) })),
    {
        CommandRequest {
            request_data: Some(
                RequestData::Hset(Hset { table: String::from_str(table), pair: Some(Kvpair::new(key, value)) }),
            ),
        }
    }

    /// A request for the value under `key` in `table`.
    pub fn new_hget(table: &str, key: &str) -> (cmd: CommandRequest)
        ensures
            cmd.request_data matches Some(RequestData::Hget(p)) && p.table@ == table@ && p.key@ == key@,
    {
        CommandRequest {
            request_data: Some(RequestData::Hget(Hget { table: String::from_str(table), key: String::from_str(key) })),
        }
    }

    /// A request for every pair of `table`.
    pub fn new_hgetall(table: &str) -> (cmd: CommandRequest)
        ensures
            cmd.request_data matches Some(RequestData::Hgetall(p)) && p.table@ == table@,
    {
        CommandRequest { request_data: Some(RequestData::Hgetall(Hgetall { table: String::from_str(table) })) }
    }

    /// A request to delete `key` from `table`.
    pub fn new_hdel(table: &str, key: &str) -> (cmd: CommandRequest)
        ensures
            cmd.request_data matches Some(RequestData::Hdel(p)) && p.table@ == table@ && p.key@ == key@,
    {
        CommandRequest {
            request_data: Some(RequestData::Hdel(Hdel { table: String::from_str(table), key: String::from_str(key) })),
        }
    }
}

impl CommandResponse {
    /// A successful response without content.
    pub fn ok() -> (res: CommandResponse)
        ensures
            res@ == CommandResponseView::of_values(Seq::empty()),
    {
        let res = CommandResponse { status: STATUS_OK, message: String::new(), values: Vec::new(), pairs: Vec::new() };
        assert(res@.values =~= Seq::empty());
        assert(res@.pairs =~= Seq::empty());
        res
    }

    /// A successful response that carries the one value.
    pub fn with_value(v: Value) -> (res: CommandResponse)
        ensures
            res@ == CommandResponseView::of_values(seq![v@]),
    {
        let mut values: Vec<Value> = Vec::new();
        values.push(v);
        let res = CommandResponse { status: STATUS_OK, message: String::new(), values, pairs: Vec::new() };
        assert(res@.values =~= seq![v@]);
        assert(res@.pairs =~= Seq::empty());
        res
    }

    /// A successful response that carries the values, in their order.
    pub fn with_values(v: Vec<Value>) -> (res: CommandResponse)
        ensures
            res@ == CommandResponseView::of_values(values_view(v@)),
    {
        let res = CommandResponse { status: STATUS_OK, message: String::new(), values: v, pairs: Vec::new() };
        assert(res@.pairs =~= Seq::empty());
        res
    }

    /// A successful response that carries the pairs, in their order.
    pub fn with_pairs(v: Vec<Kvpair>) -> (res: CommandResponse)
        ensures
            res@ == CommandResponseView::of_pairs(pairs_view(v@)),
    {
        let res = CommandResponse { status: STATUS_OK, message: String::new(), values: Vec::new(), pairs: v };
        assert(res@.values =~= Seq::empty());
        res
    }

    /// The response that stands for "no answer yet": status 0 and nothing else.
    pub fn empty() -> (res: CommandResponse)
        ensures
            res@ == CommandResponseView::empty(),
    {
        let res = CommandResponse { status: 0, message: String::new(), values: Vec::new(), pairs: Vec::new() };
        assert(res@.values =~= Seq::empty());
        assert(res@.pairs =~= Seq::empty());
        res
    }

    /// Whether the response is the one that stands for "no answer yet".
    pub fn is_default(&self) -> (b: bool)
        ensures
            b == (self@ == CommandResponseView::empty()),
    {
        let b = self.status == 0 && self.message.as_str().is_empty() && self.values.len() == 0
            && self.pairs.len() == 0;
        proof {
            if b {
                assert(self@.message =~= Seq::empty());
                assert(self@.values =~= Seq::empty());
                assert(self@.pairs =~= Seq::empty());
            } else {
                assert(self@.message.len() == self.message@.len());
                assert(self@.values.len() == self.values@.len());
                assert(self@.pairs.len() == self.pairs@.len());
                assert(CommandResponseView::empty().message.len() == 0);
                assert(CommandResponseView::empty().values.len() == 0);
                assert(CommandResponseView::empty().pairs.len() == 0);
            }
        }
        b
    }
}

impl Default for CommandResponse {
    fn default() -> (res: CommandResponse)
        ensures
            res@ == CommandResponseView::empty(),
    {
        CommandResponse::empty()
    }
}

impl FromSpecImpl<Value> for CommandResponse {
    open spec fn obeys_from_spec() -> bool {
        false
    }

    open spec fn from_spec(v: Value) -> CommandResponse {
        arbitrary()
    }
}

impl From<Value> for CommandResponse {
    /// A successful response that carries the one value.
    fn from(v: Value) -> (res: CommandResponse)
        ensures
            res@ == CommandResponseView::of_values(seq![v@]),
    {
        CommandResponse::with_value(v)
    }
}

impl FromSpecImpl<Vec<Value>> for CommandResponse {
    open spec fn obeys_from_spec() -> bool {
        false
    }

    open spec fn from_spec(v: Vec<Value>) -> CommandResponse {
        arbitrary()
    }
}

impl From<Vec<Value>> for CommandResponse {
    /// A successful response that carries the values, in their order.
    fn from(v: Vec<Value>) -> (res: CommandResponse)
        ensures
            res@ == CommandResponseView::of_values(values_view(v@)),
    {
        CommandResponse::with_values(v)
    }
}

impl FromSpecImpl<Vec<Kvpair>> for CommandResponse {
    open spec fn obeys_from_spec() -> bool {
        false
    }

    open spec fn from_spec(v: Vec<Kvpair>) -> CommandResponse {
        arbitrary()
    }
}

impl From<Vec<Kvpair>> for CommandResponse {
    /// A successful response that carries the pairs, in their order.
    fn from(v: Vec<Kvpair>) -> (res: CommandResponse)
        ensures
            res@ == CommandResponseView::of_pairs(pairs_view(v@)),
    {
        CommandResponse::with_pairs(v)
    }
}

} // verus!
