//! Framing of messages on a byte stream, the buffers of a framed stream, and the TLS
//! configuration of its two ends.

pub mod frame;
pub mod stream;
pub mod tls;

use vstd::prelude::*;
use bytes::BytesMut;
use crate::error::KvError;
use crate::network::frame::{
    be_bytes, buf_bytes, buf_new, front_frame, header_len, is_frame_of, lemma_be_word_of_be_bytes,
    lemma_be_word_prefix, read_frame, sent, FrameCoder, FrontFrame, MAX_FRAME,
};
use crate::pb::CommandRequest;
use crate::service::topic::SubscriptionIds;
use crate::service::topic_service::StreamingResponse;
use crate::service::Service;
use crate::storage::Storage;

verus! {

/// The frame that carries a message, ready to be written to a stream: what sending the
/// message leaves in a buffer that held nothing.
///
/// Fails as [`FrameCoder::encode_frame`] does: with the error of `encode_message`, or as
/// appending a frame for the form it gave fails.
pub fn frame_to_send<M: FrameCoder>(msg: &M) -> (r: Result<BytesMut, KvError>)
    ensures
        r matches Ok(buf) ==> exists|payload: Vec<u8>|
            #![trigger payload@]
            call_ensures(M::encode_message, (msg,), Ok::<Vec<u8>, KvError>(payload)) && payload@.len() < MAX_FRAME
                && is_frame_of(buf_bytes(buf), payload@),
        match r {
            Ok(buf) => sent(msg, Seq::empty(), buf_bytes(buf), Ok::<(), KvError>(())),
            Err(e) => sent(msg, Seq::empty(), Seq::empty(), Err::<(), KvError>(e)),
        },
{
    let mut buf = buf_new();
    match msg.encode_frame(&mut buf) {
        Ok(()) => {
            assert(buf_bytes(buf).skip(0) =~= buf_bytes(buf));
            Ok(buf)
        },
        Err(e) => Err(e),
    }
}

/// The message that a frame carries which was read off a stream: its header word and its
/// payload.
///
/// Fails with `FrameError` where the payload has not the length that the header announces,
/// and as [`FrameCoder::decode_frame`] does on the frame.
pub fn received_frame<M: FrameCoder>(header: u32, payload: &[u8]) -> (r: Result<M, KvError>)
    ensures
        payload@.len() != header_len(header) ==> r == Err::<M, KvError>(KvError::FrameError),
        payload@.len() == header_len(header) ==> match front_frame(be_bytes(header) + payload@) {
            FrontFrame::Short => false,
            FrontFrame::Corrupt { used } => r matches Err(KvError::IoError(_)),
            FrontFrame::Whole { payload: carried, used } => exists|bytes: &[u8]|
                #![trigger bytes@]
                bytes@ == carried && call_ensures(M::decode_message, (bytes,), r),
        },
{
    proof {
        lemma_be_word_of_be_bytes(header);
        lemma_be_word_prefix(be_bytes(header), payload@);
    }
    let mut buf = buf_new();
    match read_frame(header, payload, &mut buf) {
        Ok(()) => {
            assert(buf_bytes(buf) =~= be_bytes(header) + payload@);
            M::decode_frame(&mut buf)
        },
        Err(e) => Err(e),
    }
}

/// The client's end of a connection.
pub struct ProstClientStream<S> {
    /// The byte stream underneath.
    pub inner: S,
}

impl<S> ProstClientStream<S> {
    /// A client on `stream`.
    pub fn new(stream: S) -> (client: Self)
        ensures
            client.inner == stream,
    {
        Self { inner: stream }
    }

    /// The frame to write for a request: see [`frame_to_send`].
    pub fn send<M: FrameCoder>(&self, msg: &M) -> (r: Result<BytesMut, KvError>)
        ensures
            r matches Ok(buf) ==> exists|payload: Vec<u8>|
                #![trigger payload@]
                call_ensures(M::encode_message, (msg,), Ok::<Vec<u8>, KvError>(payload)) && payload@.len()
                    < MAX_FRAME && is_frame_of(buf_bytes(buf), payload@),
            match r {
                Ok(buf) => sent(msg, Seq::empty(), buf_bytes(buf), Ok::<(), KvError>(())),
                Err(e) => sent(msg, Seq::empty(), Seq::empty(), Err::<(), KvError>(e)),
            },
    {
        frame_to_send(msg)
    }

    /// The response that a frame carries which was read off the stream: see
    /// [`received_frame`].
    pub fn recv<M: FrameCoder>(&self, header: u32, payload: &[u8]) -> (r: Result<M, KvError>)
        ensures
            payload@.len() != header_len(header) ==> r == Err::<M, KvError>(KvError::FrameError),
            payload@.len() == header_len(header) ==> match front_frame(be_bytes(header) + payload@) {
                FrontFrame::Short => false,
                FrontFrame::Corrupt { used } => r matches Err(KvError::IoError(_)),
                FrontFrame::Whole { payload: carried, used } => exists|bytes: &[u8]|
                    #![trigger bytes@]
                    bytes@ == carried && call_ensures(M::decode_message, (bytes,), r),
            },
    {
        received_frame(header, payload)
    }
}

/// What a server does next on a connection.
pub enum ServerStep {
    /// Send these responses, then wait for the next request.
    Respond(StreamingResponse),
    /// End the connection.
    Stop,
}

/// Decides what a server does with what receiving gave: a request is run through the service,
/// and its responses are to be sent; a failure to receive ends the connection, and the service
/// stays as it is.
pub fn respond<Store: Storage>(
    service: &mut Service<Store>,
    ids: &mut SubscriptionIds,
    received: Result<CommandRequest, KvError>,
) -> (step: ServerStep)
    requires
        old(service).wf(),
    ensures
        final(service).wf(),
        match received {
            Ok(cmd) => step matches ServerStep::Respond(answer) && old(service).executed(
                cmd,
                old(ids).next(),
                *final(service),
                final(ids).next(),
                answer,
            ),
            Err(_) => step is Stop && *final(service) == *old(service) && final(ids).next() == old(ids).next(),
        },
{
    match received {
        Ok(cmd) => ServerStep::Respond(service.execute(cmd, ids)),
        Err(_) => ServerStep::Stop,
    }
}

/// The server's end of a connection: a byte stream and the service behind it.
pub struct ProstServerStream<S, Store> {
    /// The byte stream underneath.
    pub inner: S,
    service: Service<Store>,
}

impl<S, Store: Storage> ProstServerStream<S, Store> {
    /// The byte stream underneath.
    pub closed spec fn stream(&self) -> S {
        self.inner
    }

    /// The service behind the connection.
    pub closed spec fn service(&self) -> Service<Store> {
        self.service
    }

    /// A server on `stream` that answers with `service`.
    pub fn new(stream: S, service: Service<Store>) -> (server: Self)
        ensures
            server.stream() == stream,
            server.service() == service,
    {
        Self { inner: stream, service }
    }

    /// Decides what to do with what receiving gave: see [`respond`].
    pub fn process(&mut self, ids: &mut SubscriptionIds, received: Result<CommandRequest, KvError>) -> (step:
        ServerStep)
        requires
            old(self).service().wf(),
        ensures
            final(self).stream() == old(self).stream(),
            final(self).service().wf(),
            match received {
                Ok(cmd) => step matches ServerStep::Respond(answer) && old(self).service().executed(
                    cmd,
                    old(ids).next(),
                    final(self).service(),
                    final(ids).next(),
                    answer,
                ),
                Err(_) => step is Stop && final(self).service() == old(self).service() && final(ids).next() == old(
                    ids,
                ).next(),
            },
    {
        respond(&mut self.service, ids, received)
    }

    /// Tells the service's `after_send` hooks that a response went out.
    pub fn after_send(&self) {
        self.service.after_send();
    }
}

} // verus!
