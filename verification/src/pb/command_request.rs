//! The payload of a request: exactly one command.

use vstd::prelude::*;
use crate::pb::{Hdel, Hexist, Hget, Hgetall, Hmdel, Hmexist, Hmget, Hmset, Hset, Publish, Subscribe, Unsubscribe};

verus! {

/// The command a request carries.
#[derive(Clone, Debug, PartialEq)]
pub enum RequestData {
    Hget(Hget),
    Hgetall(Hgetall),
    Hmget(Hmget),
    Hset(Hset),
    Hmset(Hmset),
    Hdel(Hdel),
    Hmdel(Hmdel),
    Hexist(Hexist),
    Hmexist(Hmexist),
    Subscribe(Subscribe),
    Unsubscribe(Unsubscribe),
    Publish(Publish),
}

impl RequestData {
    /// Whether the command is answered by the storage backend, with one response.
    pub open spec fn is_unary(&self) -> bool {
        !(*self is Subscribe || *self is Unsubscribe || *self is Publish)
    }
}

} // verus!
