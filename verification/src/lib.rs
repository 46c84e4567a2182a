//! A key-value service core: wire records, frame codec, storage backends,
//! command dispatch and a publish/subscribe registry.

pub mod error;
pub mod network;
pub mod pb;
pub mod service;
pub mod storage;

pub use error::{KvError, SledErrorKind};

pub use pb::command_request;
pub use pb::value;
pub use pb::{
    CommandRequest, CommandResponse, CommandResponseView, Hdel, Hexist, Hget, Hgetall, Hmdel, Hmexist, Hmget, Hmset,
    Hset, Kvpair, KvpairView, Publish, Subscribe, Unsubscribe, Value,
};
pub use storage::memory::MemTable;
pub use storage::sleddb::SledDb;
pub use storage::{Storage, StorageIter};
pub use service::command_service::CommandService;
pub use service::topic::{Broadcaster, BroadcasterView, SubscriptionIds, Topic};
pub use service::topic_service::{StreamingResponse, TopicService};
pub use service::{dispatch, dispatch_stream, Notify, NotifyMut, Service, ServiceInner};
pub use network::frame::{decode_header, read_frame, FrameCoder};
pub use network::stream::ProstStream;
pub use network::tls::{TlsClientConnector, TlsServerAcceptor};
pub use network::{respond, ProstClientStream, ProstServerStream, ServerStep};
