//! The buffers of a framed stream: what was read and awaits decoding, and what was encoded
//! and awaits writing. The stream itself is read and written by the caller.

use vstd::prelude::*;
use bytes::BytesMut;
use std::marker::PhantomData;
use crate::error::KvError;
use crate::network::frame::{
    be_bytes, buf_bytes, buf_clear, buf_len, buf_new, buf_slice, front_frame, header_len, is_frame_of,
    lemma_be_word_of_be_bytes, lemma_be_word_prefix, read_frame, sent, FrameCoder, FrontFrame, MAX_FRAME,
};

verus! {

/// A stream of frames: messages of type `In` come in, messages of type `Out` go out.
pub struct ProstStream<S, In, Out> {
    /// The byte stream underneath.
    pub stream: S,
    rbuf: BytesMut,
    wbuf: BytesMut,
    written: usize,
    _in: PhantomData<In>,
    _out: PhantomData<Out>,
}

impl<S, In: FrameCoder, Out: FrameCoder> ProstStream<S, In, Out> {
    /// The byte stream underneath.
    pub closed spec fn inner(&self) -> S {
        self.stream
    }

    /// The bytes that were read and await decoding.
    pub closed spec fn read_buffer(&self) -> Seq<u8> {
        buf_bytes(self.rbuf)
    }

    /// The bytes that were encoded and are not flushed yet.
    pub closed spec fn write_buffer(&self) -> Seq<u8> {
        buf_bytes(self.wbuf)
    }

    /// How many bytes of the write buffer went to the stream already.
    pub closed spec fn written(&self) -> nat {
        self.written as nat
    }

    /// What holds of a stream between calls: nothing awaits decoding, and no more was written
    /// than was encoded.
    pub open spec fn wf(&self) -> bool {
        self.read_buffer().len() == 0 && self.written() <= self.write_buffer().len()
    }

    /// A framed stream on `stream`, with empty buffers.
    pub fn new(stream: S) -> (framed: Self)
        ensures
            framed.wf(),
            framed.inner() == stream,
            framed.write_buffer().len() == 0,
            framed.written() == 0,
    {
        Self { stream, written: 0, wbuf: buf_new(), rbuf: buf_new(), _in: PhantomData, _out: PhantomData }
    }

    /// Takes a frame that was read off the stream, its header word and its payload, and
    /// decodes the message it carries. Nothing awaits decoding afterwards, whatever the
    /// outcome.
    ///
    /// Fails with `FrameError` where the payload has not the length that the header announces,
    /// and as [`FrameCoder::decode_frame`] does on the frame.
    pub fn poll_next(&mut self, header: u32, payload: &[u8]) -> (r: Result<In, KvError>)
        requires
            old(self).wf(),
        ensures
            final(self).wf(),
            final(self).inner() == old(self).inner(),
            final(self).write_buffer() == old(self).write_buffer(),
            final(self).written() == old(self).written(),
            payload@.len() != header_len(header) ==> r == Err::<In, KvError>(KvError::FrameError),
            payload@.len() == header_len(header) ==> match front_frame(be_bytes(header) + payload@) {
                FrontFrame::Short => false,
                FrontFrame::Corrupt { used } => r matches Err(KvError::IoError(_)),
                FrontFrame::Whole { payload: carried, used } => exists|bytes: &[u8]|
                    #![trigger bytes@]
                    bytes@ == carried && call_ensures(In::decode_message, (bytes,), r),
            },
    {
        proof {
            lemma_be_word_of_be_bytes(header);
            lemma_be_word_prefix(be_bytes(header), payload@);
        }
        match read_frame(header, payload, &mut self.rbuf) {
            Ok(()) => {
                assert(buf_bytes(self.rbuf) =~= be_bytes(header) + payload@);
                In::decode_frame(&mut self.rbuf)
            },
            Err(e) => Err(e),
        }
    }

    /// Encodes a message into the write buffer, behind what is there.
    ///
    /// Fails as [`FrameCoder::encode_frame`] does, with the error of `encode_message` or as
    /// appending a frame for the form it gave fails; the write buffer is then as it was.
    pub fn start_send(&mut self, item: &Out) -> (r: Result<(), KvError>)
        requires
            old(self).wf(),
        ensures
            final(self).wf(),
            final(self).inner() == old(self).inner(),
            final(self).written() == old(self).written(),
            sent(item, old(self).write_buffer(), final(self).write_buffer(), r),
            r is Err ==> final(self).write_buffer() == old(self).write_buffer(),
            r is Ok ==> exists|payload: Vec<u8>|
                #![trigger payload@]
                call_ensures(Out::encode_message, (item,), Ok::<Vec<u8>, KvError>(payload)) && payload@.len()
                    < MAX_FRAME && final(self).write_buffer().len() >= old(self).write_buffer().len() + 4
                    && final(self).write_buffer().take(old(self).write_buffer().len() as int) == old(
                    self,
                ).write_buffer() && is_frame_of(
                    final(self).write_buffer().skip(old(self).write_buffer().len() as int),
                    payload@,
                ),
    {
        item.encode_frame(&mut self.wbuf)
    }

    /// The part of the write buffer that has yet to go to the stream.
    pub fn pending(&self) -> (bytes: &[u8])
        requires
            self.wf(),
        ensures
            bytes@ == self.write_buffer().skip(self.written() as int),
    {
        let len = buf_len(&self.wbuf);
        buf_slice(&self.wbuf, self.written, len)
    }

    /// Records that the stream took the first `n` bytes of [`ProstStream::pending`], and says
    /// whether all of the write buffer went out. Where it did, the write buffer is cleared
    /// and the count of written bytes starts at zero again; where it did not, the rest is
    /// pending. The stream must not have taken more than was pending.
    pub fn poll_flush(&mut self, n: usize) -> (done: bool)
        requires
            old(self).wf(),
            old(self).written() + n <= old(self).write_buffer().len(),
        ensures
            final(self).wf(),
            final(self).inner() == old(self).inner(),
            done == (old(self).written() + n == old(self).write_buffer().len()),
            done ==> final(self).write_buffer().len() == 0 && final(self).written() == 0,
            !done ==> final(self).write_buffer() == old(self).write_buffer() && final(self).written() == old(
                self,
            ).written() + n,
    {
        let len = buf_len(&self.wbuf);
        self.written = self.written + n;
        if self.written == len {
            buf_clear(&mut self.wbuf);
            self.written = 0;
            true
        } else {
            false
        }
    }
}

} // verus!
