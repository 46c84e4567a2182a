//! Length-prefixed frames with a compression flag.
//!
//! A frame is a header of four bytes, big-endian, and a payload. The header's top bit says
//! whether the payload is gzip-compressed; its other 31 bits are the payload's length.

use vstd::prelude::*;
use bytes::{Buf, BufMut, BytesMut};
use flate2::read::GzDecoder;
use flate2::write::GzEncoder;
use flate2::Compression;
use std::io::{Read, Write};
use crate::error::KvError;

verus! {

/// Number of bytes in a frame header.
pub const LEN_LEN: usize = 4;

/// Serialized messages of this many bytes or more are refused.
pub const MAX_FRAME: usize = 2 * 1024 * 1024;

/// Serialized messages longer than this are compressed.
pub const COMPRESSION_LIMIT: usize = 1436;

/// The header bit that marks a compressed payload.
pub const COMPRESSION_BIT: u32 = 0x8000_0000;

#[verifier::external_type_specification]
#[verifier::external_body]
pub struct ExBytesMut(BytesMut);

/// The bytes that a buffer holds, oldest first.
pub uninterp spec fn buf_bytes(buf: BytesMut) -> Seq<u8>;

/// What gzip encoding at the default level makes of a byte string: the gzip member, or
/// nothing where the encoder fails.
pub uninterp spec fn gzipped(data: Seq<u8>) -> Option<Seq<u8>>;

/// What gzip decoding makes of a byte string: the decoded bytes, or nothing where the string
/// is no gzip member.
pub uninterp spec fn gunzipped(data: Seq<u8>) -> Option<Seq<u8>>;

/// The four bytes of a word, most significant first.
pub open spec fn be_bytes(n: u32) -> Seq<u8> {
    seq![(n / 0x100_0000) as u8, (n / 0x1_0000 % 0x100) as u8, (n / 0x100 % 0x100) as u8, (n % 0x100) as u8]
}

/// The word whose bytes, most significant first, are the first four of `bytes`.
pub open spec fn be_word(bytes: Seq<u8>) -> u32 {
    (bytes[0] * 0x100_0000 + bytes[1] * 0x1_0000 + bytes[2] * 0x100 + bytes[3]) as u32
}

/// The payload length carried by a header word: its low 31 bits.
pub open spec fn header_len(header: u32) -> nat {
    (header % 0x8000_0000) as nat
}

/// Whether a header word marks its payload as compressed: its top bit.
pub open spec fn header_compressed(header: u32) -> bool {
    header >= 0x8000_0000
}

/// The header word for a payload of `len` bytes.
pub open spec fn header_word(len: nat, compressed: bool) -> u32 {
    if compressed {
        (len + 0x8000_0000) as u32
    } else {
        len as u32
    }
}

/// The frame made of a header for `body` and of `body` itself.
pub open spec fn frame_bytes(body: Seq<u8>, compressed: bool) -> Seq<u8> {
    be_bytes(header_word(body.len(), compressed)) + body
}

/// Whether `frame` is a frame that carries the serialized message `payload`: a header, then
/// the payload as it is where it has at most [`COMPRESSION_LIMIT`] bytes, and a gzip member
/// that decodes to it, with the compression bit set, where it has more.
pub open spec fn is_frame_of(frame: Seq<u8>, payload: Seq<u8>) -> bool {
    &&& frame.len() >= 4
    &&& header_len(be_word(frame)) == frame.len() - 4
    &&& header_compressed(be_word(frame)) == (payload.len() > COMPRESSION_LIMIT)
    &&& if payload.len() > COMPRESSION_LIMIT {
        gunzipped(frame.skip(4)) == Some(payload)
    } else {
        frame.skip(4) == payload
    }
}

/// What stands at the front of a buffer.
pub enum FrontFrame {
    /// Fewer bytes than the header, or than the header announces.
    Short,
    /// A whole frame of `used` bytes whose payload is marked compressed and is no gzip member.
    Corrupt { used: nat },
    /// A whole frame of `used` bytes that carries `payload`.
    Whole { payload: Seq<u8>, used: nat },
}

/// Reads the front of a buffer as a frame.
pub open spec fn front_frame(bytes: Seq<u8>) -> FrontFrame {
    if bytes.len() < 4 {
        FrontFrame::Short
    } else {
        let header = be_word(bytes);
        let len = header_len(header);
        if bytes.len() - 4 < len {
            FrontFrame::Short
        } else {
            let body = bytes.subrange(4, 4 + len as int);
            if header_compressed(header) {
                match gunzipped(body) {
                    Some(payload) => FrontFrame::Whole { payload, used: 4 + len },
                    None => FrontFrame::Corrupt { used: 4 + len },
                }
            } else {
                FrontFrame::Whole { payload: body, used: 4 + len }
            }
        }
    }
}

/// `BytesMut::new`: the result holds no bytes.
#[verifier::external_body]
pub(crate) fn buf_new() -> (buf: BytesMut)
    ensures
        buf_bytes(buf) == Seq::<u8>::empty(),
{
    BytesMut::new()
}

/// `BytesMut::len`: the number of bytes held.
#[verifier::external_body]
pub(crate) fn buf_len(buf: &BytesMut) -> (n: usize)
    ensures
        n == buf_bytes(*buf).len(),
{
    buf.len()
}

/// `BufMut::put_u32` on a `BytesMut`: appends the word's four bytes, most significant first.
/// The buffer grows as needed; the new length must fit in `usize`.
#[verifier::external_body]
pub(crate) fn buf_put_u32(buf: &mut BytesMut, n: u32)
    requires
        buf_bytes(*old(buf)).len() + 4 <= usize::MAX,
    ensures
        buf_bytes(*final(buf)) == buf_bytes(*old(buf)) + be_bytes(n),
{
    buf.put_u32(n)
}

/// `BufMut::put_slice` on a `BytesMut`: appends the bytes of `src`. The buffer grows as needed;
/// the new length must fit in `usize`.
#[verifier::external_body]
pub(crate) fn buf_put_slice(buf: &mut BytesMut, src: &[u8])
    requires
        buf_bytes(*old(buf)).len() + src@.len() <= usize::MAX,
    ensures
        buf_bytes(*final(buf)) == buf_bytes(*old(buf)) + src@,
{
    buf.put_slice(src)
}

/// `BytesMut::reserve`: makes room for `additional` more bytes and leaves the contents as they
/// are. The new capacity must fit in `usize`.
#[verifier::external_body]
pub(crate) fn buf_reserve(buf: &mut BytesMut, additional: usize)
    requires
        buf_bytes(*old(buf)).len() + additional <= usize::MAX,
    ensures
        buf_bytes(*final(buf)) == buf_bytes(*old(buf)),
{
    buf.reserve(additional)
}

/// `Buf::advance` on a `BytesMut`: takes the first `cnt` bytes off the buffer. It panics where
/// the buffer holds fewer.
#[verifier::external_body]
pub(crate) fn buf_advance(buf: &mut BytesMut, cnt: usize)
    requires
        cnt <= buf_bytes(*old(buf)).len(),
    ensures
        buf_bytes(*final(buf)) == buf_bytes(*old(buf)).skip(cnt as int),
{
    buf.advance(cnt)
}

/// `BytesMut::clear`: the buffer holds no bytes afterwards.
#[verifier::external_body]
pub(crate) fn buf_clear(buf: &mut BytesMut)
    ensures
        buf_bytes(*final(buf)) == Seq::<u8>::empty(),
{
    buf.clear()
}

/// Indexing a `BytesMut` by a range: the bytes from `from` up to `to`. It panics where the
/// range does not lie in the buffer.
#[verifier::external_body]
pub(crate) fn buf_slice(buf: &BytesMut, from: usize, to: usize) -> (part: &[u8])
    requires
        from <= to <= buf_bytes(*buf).len(),
    ensures
        part@ == buf_bytes(*buf).subrange(from as int, to as int),
{
    &buf[from..to]
}

/// `GzEncoder` of flate2 at the default level, writing to a vector: the gzip member that the
/// encoder makes of `data`, with no time stamp and no name in its header, which decodes to
/// `data`; or the encoder's error.
#[verifier::external_body]
pub(crate) fn gzip(data: &[u8]) -> (r: Result<Vec<u8>, std::io::Error>)
    ensures
        match r {
            Ok(zipped) => gzipped(data@) == Some(zipped@) && gunzipped(zipped@) == Some(data@),
            Err(_) => gzipped(data@) is None,
        },
{
    let mut encoder = GzEncoder::new(Vec::new(), Compression::default());
    encoder.write_all(data)?;
    encoder.finish()
}

/// `GzDecoder` of flate2, read to its end: the decoded bytes of `data`, or an error where
/// `data` is no gzip member.
#[verifier::external_body]
pub(crate) fn gunzip(data: &[u8]) -> (r: Result<Vec<u8>, std::io::Error>)
    ensures
        match r {
            Ok(plain) => gunzipped(data@) == Some(plain@),
            Err(_) => gunzipped(data@) is None,
        },
{
    let mut plain = Vec::new();
    GzDecoder::new(data).read_to_end(&mut plain)?;
    Ok(plain)
}

/// A word is the word that its big-endian bytes spell.
pub proof fn lemma_be_word_of_be_bytes(n: u32)
    ensures
        be_bytes(n).len() == 4,
        be_word(be_bytes(n)) == n,
{
    let b = be_bytes(n);
    assert(b[0] == n / 0x100_0000);
    assert(b[1] == n / 0x1_0000 % 0x100);
    assert(b[2] == n / 0x100 % 0x100);
    assert(b[3] == n % 0x100);
}

/// Only the first four bytes of a sequence count for the word it spells.
pub proof fn lemma_be_word_prefix(bytes: Seq<u8>, rest: Seq<u8>)
    requires
        bytes.len() >= 4,
    ensures
        be_word(bytes + rest) == be_word(bytes),
{
    assert((bytes + rest)[0] == bytes[0]);
    assert((bytes + rest)[1] == bytes[1]);
    assert((bytes + rest)[2] == bytes[2]);
    assert((bytes + rest)[3] == bytes[3]);
}

/// A header word gives back the length and the flag it was made of.
pub proof fn lemma_header_word(len: nat, compressed: bool)
    requires
        len < 0x8000_0000,
    ensures
        header_len(header_word(len, compressed)) == len,
        header_compressed(header_word(len, compressed)) == compressed,
{
}

/// Splits a header word into the payload length and the compression flag.
pub fn decode_header(header: u32) -> (r: (usize, bool))
    ensures
        r.0 == header_len(header),
        r.1 == header_compressed(header),
{
    let len: u32 = header & !COMPRESSION_BIT;
    let compressed: bool = header & COMPRESSION_BIT == COMPRESSION_BIT;
    assert(header & !0x8000_0000u32 == header % 0x8000_0000u32) by (bit_vector);
    assert((header & 0x8000_0000u32 == 0x8000_0000u32) == (header >= 0x8000_0000u32)) by (bit_vector);
    (len as usize, compressed)
}

/// Whether a buffer of `held` bytes can take a frame with a body of `body_len` bytes: the
/// body's length fits the header's 31 bits, and the buffer's new length fits in `usize`.
pub open spec fn frame_fits(held: nat, body_len: nat) -> bool {
    body_len < 0x8000_0000 && held + 4 + body_len <= usize::MAX
}

/// Appends to `buf` the frame made of a header for `body` and of `body` itself. The body is
/// the payload as it goes on the wire: compressed already where `compressed` says so.
///
/// Fails with `FrameError`, and leaves `buf` as it is, where the frame does not fit.
pub fn push_frame(body: &[u8], compressed: bool, buf: &mut BytesMut) -> (r: Result<(), KvError>)
    ensures
        frame_fits(buf_bytes(*old(buf)).len(), body@.len()) ==> r is Ok && buf_bytes(*final(buf)) == buf_bytes(
            *old(buf),
        ) + frame_bytes(body@, compressed),
        !frame_fits(buf_bytes(*old(buf)).len(), body@.len()) ==> r == Err::<(), KvError>(KvError::FrameError)
            && buf_bytes(*final(buf)) == buf_bytes(*old(buf)),
{
    let held = buf_len(buf);
    let len = body.len();
    if len >= 0x8000_0000 || held > usize::MAX - 4 || len > usize::MAX - 4 - held {
        return Err(KvError::FrameError);
    }
    let word: u32 = len as u32;
    let header: u32 = if compressed {
        assert(word | 0x8000_0000u32 == word + 0x8000_0000u32) by (bit_vector)
            requires
                word < 0x8000_0000u32,
        ;
        word | COMPRESSION_BIT
    } else {
        word
    };
    assert(header == header_word(len as nat, compressed));
    buf_reserve(buf, LEN_LEN + len);
    buf_put_u32(buf, header);
    buf_put_slice(buf, body);
    assert(buf_bytes(*buf) =~= buf_bytes(*old(buf)) + frame_bytes(body@, compressed));
    Ok(())
}

/// A frame made by [`push_frame`] of a payload, or of a gzip member that decodes to it,
/// carries that payload.
pub proof fn lemma_pushed_frame_carries(body: Seq<u8>, payload: Seq<u8>)
    requires
        body.len() < 0x8000_0000,
        payload.len() <= COMPRESSION_LIMIT ==> body == payload,
        payload.len() > COMPRESSION_LIMIT ==> gunzipped(body) == Some(payload),
    ensures
        is_frame_of(frame_bytes(body, payload.len() > COMPRESSION_LIMIT), payload),
{
    let compressed = payload.len() > COMPRESSION_LIMIT;
    let header = header_word(body.len(), compressed);
    let frame = frame_bytes(body, compressed);
    lemma_be_word_of_be_bytes(header);
    lemma_be_word_prefix(be_bytes(header), body);
    lemma_header_word(body.len(), compressed);
    assert(frame.skip(4) =~= body);
}

/// Whether a buffer that held `before` holds `after` once a frame that carries the serialized
/// message `payload` was appended to it.
pub open spec fn framed(before: Seq<u8>, after: Seq<u8>, payload: Seq<u8>) -> bool {
    &&& payload.len() < MAX_FRAME
    &&& after.len() >= before.len() + 4
    &&& after.take(before.len() as int) == before
    &&& is_frame_of(after.skip(before.len() as int), payload)
}

/// The body with which a serialized message goes on the wire: the message as it is where it
/// has at most [`COMPRESSION_LIMIT`] bytes, and the gzip member that the encoder makes of it
/// where it has more; nothing where the encoder fails.
pub open spec fn wire_body(payload: Seq<u8>) -> Option<Seq<u8>> {
    if payload.len() <= COMPRESSION_LIMIT {
        Some(payload)
    } else {
        gzipped(payload)
    }
}

/// What comes of appending a frame for a serialized message to a buffer.
pub enum Appended {
    /// The frame stands behind what the buffer held: the buffer holds `after`.
    Done { after: Seq<u8> },
    /// The message has [`MAX_FRAME`] bytes or more, or the buffer has no room for its frame.
    TooLarge,
    /// The encoder failed.
    NotCompressed,
}

/// What comes of appending a frame for the serialized message `payload` to a buffer that
/// holds `before`.
pub open spec fn appended(payload: Seq<u8>, before: Seq<u8>) -> Appended {
    if payload.len() >= MAX_FRAME {
        Appended::TooLarge
    } else {
        match wire_body(payload) {
            None => Appended::NotCompressed,
            Some(body) => if frame_fits(before.len(), body.len()) {
                Appended::Done { after: before + frame_bytes(body, payload.len() > COMPRESSION_LIMIT) }
            } else {
                Appended::TooLarge
            },
        }
    }
}

/// Whether `r` and `after` are the outcome of appending a frame for the serialized message
/// `payload` to a buffer that held `before`: success and the frame behind what was held;
/// `FrameError` for a message or a frame too large, `IoError` where the encoder failed, and
/// the buffer as it was.
pub open spec fn encoded_as(payload: Seq<u8>, before: Seq<u8>, after: Seq<u8>, r: Result<(), KvError>) -> bool {
    match appended(payload, before) {
        Appended::Done { after: grown } => r is Ok && after == grown,
        Appended::TooLarge => r == Err::<(), KvError>(KvError::FrameError) && after == before,
        Appended::NotCompressed => r matches Err(KvError::IoError(_)) && after == before,
    }
}

/// Appends to `buf` a frame that carries the serialized message `payload`.
///
/// A payload of [`MAX_FRAME`] bytes or more is refused with `FrameError`. One of more than
/// [`COMPRESSION_LIMIT`] bytes goes out gzip-compressed, with the header's compression bit
/// set; a shorter one goes out as it is, with the bit clear. The call fails with `IoError`
/// where the encoder fails, and with `FrameError` where the buffer has no room for the frame.
/// Whenever it fails, `buf` is left as it was.
pub fn encode_payload(payload: &[u8], buf: &mut BytesMut) -> (r: Result<(), KvError>)
    ensures
        encoded_as(payload@, buf_bytes(*old(buf)), buf_bytes(*final(buf)), r),
        r is Ok ==> framed(buf_bytes(*old(buf)), buf_bytes(*final(buf)), payload@),
{
    let size = payload.len();
    if size >= MAX_FRAME {
        return Err(KvError::FrameError);
    }
    let ghost held = buf_bytes(*buf);
    if size > COMPRESSION_LIMIT {
        match gzip(payload) {
            Ok(zipped) => {
                let r = push_frame(zipped.as_slice(), true, buf);
                proof {
                    if r is Ok {
                        lemma_pushed_frame_carries(zipped@, payload@);
                        assert(buf_bytes(*buf).take(held.len() as int) =~= held);
                        assert(buf_bytes(*buf).skip(held.len() as int) =~= frame_bytes(zipped@, true));
                    }
                }
                r
            },
            Err(e) => Err(KvError::io(e)),
        }
    } else {
        let r = push_frame(payload, false, buf);
        proof {
            if r is Ok {
                lemma_pushed_frame_carries(payload@, payload@);
                assert(buf_bytes(*buf).take(held.len() as int) =~= held);
                assert(buf_bytes(*buf).skip(held.len() as int) =~= frame_bytes(payload@, false));
            }
        }
        r
    }
}

/// Takes the frame at the front of `buf` off it and returns the serialized message it
/// carries, decompressed where the header says so.
///
/// Where the buffer ends before the frame does, the call fails with `FrameError` and leaves
/// `buf` as it is. Where the payload is marked compressed and is no gzip member, the call
/// fails with `IoError`, and the frame is gone from `buf`.
pub fn decode_payload(buf: &mut BytesMut) -> (r: Result<Vec<u8>, KvError>)
    ensures
        match front_frame(buf_bytes(*old(buf))) {
            FrontFrame::Short => r == Err::<Vec<u8>, KvError>(KvError::FrameError) && buf_bytes(*final(buf))
                == buf_bytes(*old(buf)),
            FrontFrame::Corrupt { used } => r matches Err(KvError::IoError(_)) && buf_bytes(*final(buf))
                == buf_bytes(*old(buf)).skip(used as int),
            FrontFrame::Whole { payload, used } => r matches Ok(plain) && plain@ == payload && buf_bytes(
                *final(buf),
            ) == buf_bytes(*old(buf)).skip(used as int),
        },
{
    let held = buf_len(buf);
    if held < LEN_LEN {
        return Err(KvError::FrameError);
    }
    let head = buf_slice(buf, 0, LEN_LEN);
    let header: u32 = (head[0] as u32) << 24 | (head[1] as u32) << 16 | (head[2] as u32) << 8 | (head[3] as u32);
    proof {
        let (b0, b1, b2, b3) = (head[0], head[1], head[2], head[3]);
        assert((b0 as u32) << 24 | (b1 as u32) << 16 | (b2 as u32) << 8 | (b3 as u32) == (b0 as u32) * 0x100_0000
            + (b1 as u32) * 0x1_0000 + (b2 as u32) * 0x100 + (b3 as u32)) by (bit_vector);
        assert(header == be_word(buf_bytes(*buf)));
    }
    let (len, compressed) = decode_header(header);
    if held - LEN_LEN < len {
        return Err(KvError::FrameError);
    }
    let ghost all = buf_bytes(*buf);
    let r = if compressed {
        match gunzip(buf_slice(buf, LEN_LEN, LEN_LEN + len)) {
            Ok(plain) => Ok(plain),
            Err(e) => Err(KvError::io(e)),
        }
    } else {
        Ok(vstd::slice::slice_to_vec(buf_slice(buf, LEN_LEN, LEN_LEN + len)))
    };
    buf_advance(buf, LEN_LEN + len);
    r
}

/// Encoding and then decoding gives the payload back: where the front of a buffer is a frame
/// that carries `payload`, whatever follows it, reading the front yields `payload` and uses
/// up exactly the frame.
pub proof fn lemma_frame_round_trip(frame: Seq<u8>, payload: Seq<u8>, rest: Seq<u8>)
    requires
        is_frame_of(frame, payload),
    ensures
        front_frame(frame + rest) == (FrontFrame::Whole { payload, used: frame.len() }),
{
    lemma_be_word_prefix(frame, rest);
    assert((frame + rest).subrange(4, frame.len() as int) =~= frame.skip(4));
}

/// A frame's compression bit is set exactly where the serialized message it carries has more
/// than [`COMPRESSION_LIMIT`] bytes.
pub proof fn lemma_compression_bit(frame: Seq<u8>, payload: Seq<u8>)
    requires
        is_frame_of(frame, payload),
    ensures
        frame[0] >= 0x80 <==> payload.len() > COMPRESSION_LIMIT,
{
}

/// Files a frame that was read off a stream into `buf`: the header word as it came, with its
/// compression bit, and then the payload, so that [`decode_payload`] can take it from there.
///
/// Fails with `FrameError`, and leaves `buf` as it is, where `payload` has not the length
/// that the header announces or the buffer cannot grow by the frame.
pub fn read_frame(header: u32, payload: &[u8], buf: &mut BytesMut) -> (r: Result<(), KvError>)
    ensures
        payload@.len() == header_len(header) && buf_bytes(*old(buf)).len() + 4 + payload@.len() <= usize::MAX
            ==> r is Ok && buf_bytes(*final(buf)) == buf_bytes(*old(buf)) + be_bytes(header) + payload@,
        !(payload@.len() == header_len(header) && buf_bytes(*old(buf)).len() + 4 + payload@.len() <= usize::MAX)
            ==> r == Err::<(), KvError>(KvError::FrameError) && buf_bytes(*final(buf)) == buf_bytes(*old(buf)),
{
    let (len, _compressed) = decode_header(header);
    let held = buf_len(buf);
    if payload.len() != len || held > usize::MAX - 4 || len > usize::MAX - 4 - held {
        return Err(KvError::FrameError);
    }
    buf_reserve(buf, LEN_LEN + len);
    buf_put_u32(buf, header);
    buf_put_slice(buf, payload);
    Ok(())
}

/// A message that can travel in a frame.
///
/// An implementation says how a message is serialized and how a payload is read back;
/// `encode_frame` and `decode_frame` do the framing.
pub trait FrameCoder: Sized {
    /// Serializes the message.
    fn encode_message(&self) -> Result<Vec<u8>, KvError>;

    /// Deserializes a payload.
    fn decode_message(payload: &[u8]) -> Result<Self, KvError>;

    /// Appends to `buf` a frame that carries the message in the form that `encode_message`
    /// gave it.
    ///
    /// Fails with the error of `encode_message` where that fails, and else exactly as
    /// [`encode_payload`] does on the serialized form. A failed call leaves `buf` as it was.
    fn encode_frame(&self, buf: &mut BytesMut) -> (r: Result<(), KvError>)
        ensures
            r is Err ==> buf_bytes(*final(buf)) == buf_bytes(*old(buf)),
            (r matches Err(e) && call_ensures(Self::encode_message, (self,), Err::<Vec<u8>, KvError>(e))) || exists|
                payload: Vec<u8>,
            |
                #![trigger payload@]
                call_ensures(Self::encode_message, (self,), Ok::<Vec<u8>, KvError>(payload)) && encoded_as(
                    payload@,
                    buf_bytes(*old(buf)),
                    buf_bytes(*final(buf)),
                    r,
                ) && (r is Ok ==> framed(buf_bytes(*old(buf)), buf_bytes(*final(buf)), payload@)),
    {
        match self.encode_message() {
            Ok(payload) => {
                let r = encode_payload(payload.as_slice(), buf);
                assert(call_ensures(Self::encode_message, (self,), Ok::<Vec<u8>, KvError>(payload)) && encoded_as(
                    payload@,
                    buf_bytes(*old(buf)),
                    buf_bytes(*buf),
                    r,
                ) && (r is Ok ==> framed(buf_bytes(*old(buf)), buf_bytes(*buf), payload@)));
                r
            },
            Err(e) => Err(e),
        }
    }

    /// Takes the frame at the front of `buf` off it and returns what `decode_message` makes of
    /// the serialized message it carries.
    ///
    /// Fails as [`decode_payload`] does, and where `decode_message` fails; in that last case
    /// the frame is gone from `buf`.
    fn decode_frame(buf: &mut BytesMut) -> (r: Result<Self, KvError>)
        ensures
            match front_frame(buf_bytes(*old(buf))) {
                FrontFrame::Short => r == Err::<Self, KvError>(KvError::FrameError) && buf_bytes(*final(buf))
                    == buf_bytes(*old(buf)),
                FrontFrame::Corrupt { used } => r matches Err(KvError::IoError(_)) && buf_bytes(*final(buf))
                    == buf_bytes(*old(buf)).skip(used as int),
                FrontFrame::Whole { payload, used } => buf_bytes(*final(buf)) == buf_bytes(*old(buf)).skip(
                    used as int,
                ) && exists|bytes: &[u8]|
                    #![trigger bytes@]
                    bytes@ == payload && call_ensures(Self::decode_message, (bytes,), r),
            },
    {
        match decode_payload(buf) {
            Ok(payload) => {
                let bytes = payload.as_slice();
                let r = Self::decode_message(bytes);
                assert(bytes@ == payload@ && call_ensures(Self::decode_message, (bytes,), r));
                r
            },
            Err(e) => Err(e),
        }
    }
}

/// What sending a message does to a buffer that held `before`: either `encode_message`
/// failed, the error is its error, and the buffer is as it was; or `encode_message` gave a
/// serialized form, and the outcome is that of appending a frame for it (see [`encoded_as`]),
/// which on success carries it (see [`framed`]).
pub open spec fn sent<M: FrameCoder>(msg: &M, before: Seq<u8>, after: Seq<u8>, r: Result<(), KvError>) -> bool {
    ||| r matches Err(e) && after == before && call_ensures(M::encode_message, (msg,), Err::<Vec<u8>, KvError>(e))
    ||| exists|payload: Vec<u8>|
        #![trigger payload@]
        call_ensures(M::encode_message, (msg,), Ok::<Vec<u8>, KvError>(payload)) && encoded_as(
            payload@,
            before,
            after,
            r,
        ) && (r is Ok ==> framed(before, after, payload@))
}

} // verus!
