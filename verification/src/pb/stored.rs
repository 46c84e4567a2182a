//! Values as bytes, for backends that store bytes: a tag that names the variant, then the
//! variant's content.

use vstd::prelude::*;
use vstd::utf8::{decode_utf8, encode_utf8, valid_utf8};
use crate::error::KvError;
use crate::pb::value::ValueView;
use crate::pb::{value, Value};

verus! {

/// The eight bytes of a word, most significant first.
pub open spec fn be64(x: u64) -> Seq<u8> {
    seq![
        (x >> 56) as u8,
        (x >> 48) as u8,
        (x >> 40) as u8,
        (x >> 32) as u8,
        (x >> 24) as u8,
        (x >> 16) as u8,
        (x >> 8) as u8,
        x as u8,
    ]
}

/// The word whose bytes, most significant first, are the first eight of `bytes`.
pub open spec fn be64_word(bytes: Seq<u8>) -> u64 {
    (bytes[0] as u64) << 56 | (bytes[1] as u64) << 48 | (bytes[2] as u64) << 40 | (bytes[3] as u64) << 32 | (
    bytes[4] as u64) << 24 | (bytes[5] as u64) << 16 | (bytes[6] as u64) << 8 | (bytes[7] as u64)
}

/// The bytes that stand for a value: one byte that names the variant (0 unset, 1 text,
/// 2 bytes, 3 integer, 4 float, 5 boolean), then the text in UTF-8, the bytes as they are, the
/// integer or the float's bits as eight bytes, most significant first, or one byte 0 or 1.
pub open spec fn value_bytes(v: Option<ValueView>) -> Seq<u8> {
    match v {
        None => seq![0u8],
        Some(ValueView::String(s)) => seq![1u8] + encode_utf8(s),
        Some(ValueView::Binary(b)) => seq![2u8] + b,
        Some(ValueView::Integer(i)) => seq![3u8] + be64(i as u64),
        Some(ValueView::Float(f)) => seq![4u8] + be64(f),
        Some(ValueView::Bool(b)) => seq![
            5u8,
            if b {
                1u8
            } else {
                0u8
            },
        ],
    }
}

/// The value that bytes stand for, or nothing where they stand for none.
pub open spec fn bytes_value(data: Seq<u8>) -> Option<Option<ValueView>> {
    if data.len() == 0 {
        None
    } else if data[0] == 0 && data.len() == 1 {
        Some(None)
    } else if data[0] == 1 && valid_utf8(data.skip(1)) {
        Some(Some(ValueView::String(decode_utf8(data.skip(1)))))
    } else if data[0] == 2 {
        Some(Some(ValueView::Binary(data.skip(1))))
    } else if data[0] == 3 && data.len() == 9 {
        Some(Some(ValueView::Integer(be64_word(data.skip(1)) as i64)))
    } else if data[0] == 4 && data.len() == 9 {
        Some(Some(ValueView::Float(be64_word(data.skip(1)))))
    } else if data[0] == 5 && data.len() == 2 && data[1] <= 1 {
        Some(Some(ValueView::Bool(data[1] == 1)))
    } else {
        None
    }
}

/// A word is the word that its big-endian bytes spell.
pub proof fn lemma_be64_round_trip(x: u64)
    ensures
        be64(x).len() == 8,
        be64_word(be64(x)) == x,
{
    assert((((x >> 56) as u8) as u64) << 56 | (((x >> 48) as u8) as u64) << 48 | (((x >> 40) as u8) as u64) << 40 | (((x
        >> 32) as u8) as u64) << 32 | (((x >> 24) as u8) as u64) << 24 | (((x >> 16) as u8) as u64) << 16 | (((x >> 8)
        as u8) as u64) << 8 | ((x as u8) as u64) == x) by (bit_vector);
}

/// The bytes of a value stand for that value.
pub proof fn lemma_value_round_trip(v: Option<ValueView>)
    ensures
        bytes_value(value_bytes(v)) == Some(v),
{
    let data = value_bytes(v);
    match v {
        None => {},
        Some(ValueView::String(s)) => {
            assert(data.skip(1) =~= encode_utf8(s));
            vstd::utf8::encode_utf8_valid_utf8(s);
            vstd::utf8::encode_utf8_decode_utf8(s);
        },
        Some(ValueView::Binary(b)) => {
            assert(data.skip(1) =~= b);
        },
        Some(ValueView::Integer(i)) => {
            let x = i as u64;
            lemma_be64_round_trip(x);
            assert(data.skip(1) =~= be64(x));
            assert((x as i64) == i) by (bit_vector)
                requires
                    x == i as u64,
            ;
        },
        Some(ValueView::Float(f)) => {
            lemma_be64_round_trip(f);
            assert(data.skip(1) =~= be64(f));
        },
        Some(ValueView::Bool(b)) => {},
    }
}

/// `String::from_utf8` of std: the text that the bytes encode, or an error where they are
/// not valid UTF-8.
#[verifier::external_body]
pub(crate) fn string_from_utf8(bytes: Vec<u8>) -> (r: Result<String, ()>)
    ensures
        match r {
            Ok(text) => valid_utf8(bytes@) && text@ == decode_utf8(bytes@),
            Err(_) => !valid_utf8(bytes@),
        },
{
    String::from_utf8(bytes).map_err(|_| ())
}

/// Appends the eight bytes of a word, most significant first.
fn push_be64(out: &mut Vec<u8>, x: u64)
    ensures
        final(out)@ == old(out)@ + be64(x),
{
    out.push((x >> 56) as u8);
    out.push((x >> 48) as u8);
    out.push((x >> 40) as u8);
    out.push((x >> 32) as u8);
    out.push((x >> 24) as u8);
    out.push((x >> 16) as u8);
    out.push((x >> 8) as u8);
    out.push(x as u8);
    assert(out@ =~= old(out)@ + be64(x));
}

/// Appends the bytes of `src`.
fn push_all(out: &mut Vec<u8>, src: &[u8])
    ensures
        final(out)@ == old(out)@ + src@,
{
    let mut i: usize = 0;
    while i < src.len()
        invariant
            i <= src@.len(),
            out@ == old(out)@ + src@.take(i as int),
        decreases src@.len() - i,
    {
        out.push(src[i]);
        assert(src@.take(i + 1) =~= src@.take(i as int).push(src@[i as int]));
        i += 1;
    }
    assert(src@.take(i as int) =~= src@);
}

/// A copy of the bytes of `src` from `from` on.
fn bytes_from(src: &[u8], from: usize) -> (out: Vec<u8>)
    requires
        from <= src@.len(),
    ensures
        out@ == src@.skip(from as int),
{
    let mut out: Vec<u8> = Vec::new();
    let mut i: usize = from;
    while i < src.len()
        invariant
            from <= i <= src@.len(),
            out@ == src@.subrange(from as int, i as int),
        decreases src@.len() - i,
    {
        out.push(src[i]);
        assert(src@.subrange(from as int, i + 1) =~= src@.subrange(from as int, i as int).push(src@[i as int]));
        i += 1;
    }
    assert(src@.subrange(from as int, i as int) =~= src@.skip(from as int));
    out
}

impl Value {
    /// The bytes that stand for the value.
    pub fn to_bytes(&self) -> (data: Vec<u8>)
        ensures
            data@ == value_bytes(self@),
    {
        let mut data: Vec<u8> = Vec::new();
        match &self.value {
            None => {
                data.push(0);
            },
            Some(value::Value::String(s)) => {
                data.push(1);
                push_all(&mut data, s.as_str().as_bytes());
            },
            Some(value::Value::Binary(b)) => {
                data.push(2);
                push_all(&mut data, b.as_slice());
            },
            Some(value::Value::Integer(i)) => {
                data.push(3);
                push_be64(&mut data, #[verifier::truncate] (*i as u64));
            },
            Some(value::Value::Float(f)) => {
                data.push(4);
                push_be64(&mut data, *f);
            },
            Some(value::Value::Bool(b)) => {
                data.push(5);
                data.push(if *b { 1 } else { 0 });
            },
        }
        assert(data@ =~= value_bytes(self@));
        data
    }

    /// The value that the bytes stand for. Fails with `ConvertError`, which holds the bytes,
    /// where they stand for none.
    pub fn from_bytes(data: &[u8]) -> (r: Result<Value, KvError>)
        ensures
            match bytes_value(data@) {
                Some(v) => r matches Ok(found) && found@ == v,
                None => r matches Err(KvError::ConvertError(held, _)) && held@ == Some(ValueView::Binary(data@)),
            },
    {
        let len = data.len();
        if len >= 1 {
            let tag = data[0];
            if tag == 0 && len == 1 {
                return Ok(Value::unset());
            } else if tag == 1 {
                if let Ok(text) = string_from_utf8(bytes_from(data, 1)) {
                    return Ok(Value::string(text));
                }
            } else if tag == 2 {
                return Ok(Value::binary(bytes_from(data, 1)));
            } else if (tag == 3 || tag == 4) && len == 9 {
                let word: u64 = (data[1] as u64) << 56 | (data[2] as u64) << 48 | (data[3] as u64) << 40 | (
                data[4] as u64) << 32 | (data[5] as u64) << 24 | (data[6] as u64) << 16 | (data[7] as u64) << 8 | (
                data[8] as u64);
                assert(word == be64_word(data@.skip(1)));
                if tag == 3 {
                    return Ok(Value::integer(#[verifier::truncate] (word as i64)));
                } else {
                    return Ok(Value { value: Some(value::Value::Float(word)) });
                }
            } else if tag == 5 && len == 2 && data[1] <= 1 {
                return Ok(Value::boolean(data[1] == 1));
            }
        }
        assert(data@.skip(0) =~= data@);
        Err(KvError::ConvertError(Value::binary(bytes_from(data, 0)), "Value"))
    }
}

} // verus!
