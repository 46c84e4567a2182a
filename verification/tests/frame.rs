use bytes::{BufMut, BytesMut};
use db_server::command_request::RequestData;
use db_server::network::frame::{
    decode_header, decode_payload, encode_payload, push_frame, read_frame, FrameCoder, COMPRESSION_LIMIT, MAX_FRAME,
};
use db_server::value;
use db_server::{CommandRequest, CommandResponse, Hdel, KvError, Value};

fn put_bytes(out: &mut Vec<u8>, bytes: &[u8]) {
    out.extend_from_slice(&(bytes.len() as u32).to_be_bytes());
    out.extend_from_slice(bytes);
}

fn take_bytes(input: &mut &[u8]) -> Option<Vec<u8>> {
    if input.len() < 4 {
        return None;
    }
    let len = u32::from_be_bytes([input[0], input[1], input[2], input[3]]) as usize;
    if input.len() < 4 + len {
        return None;
    }
    let bytes = input[4..4 + len].to_vec();
    *input = &input[4 + len..];
    Some(bytes)
}

fn invalid() -> KvError {
    KvError::InvalidCommand("not a message".to_string())
}

/// A delete request that knows how to travel.
#[derive(Debug, PartialEq, Clone)]
struct Req(CommandRequest);

impl FrameCoder for Req {
    fn encode_message(&self) -> Result<Vec<u8>, KvError> {
        match &self.0.request_data {
            Some(RequestData::Hdel(p)) => {
                let mut out = Vec::new();
                put_bytes(&mut out, p.table.as_bytes());
                put_bytes(&mut out, p.key.as_bytes());
                Ok(out)
            }
            _ => Err(invalid()),
        }
    }

    fn decode_message(payload: &[u8]) -> Result<Self, KvError> {
        let mut input = payload;
        let table = take_bytes(&mut input).ok_or_else(invalid)?;
        let key = take_bytes(&mut input).ok_or_else(invalid)?;
        let table = String::from_utf8(table).map_err(|_| invalid())?;
        let key = String::from_utf8(key).map_err(|_| invalid())?;
        Ok(Req(CommandRequest { request_data: Some(RequestData::Hdel(Hdel { table, key })) }))
    }
}

/// A response with values that knows how to travel.
#[derive(Debug, PartialEq, Clone)]
struct Res(CommandResponse);

impl FrameCoder for Res {
    fn encode_message(&self) -> Result<Vec<u8>, KvError> {
        let mut out = Vec::new();
        out.extend_from_slice(&self.0.status.to_be_bytes());
        put_bytes(&mut out, self.0.message.as_bytes());
        for v in &self.0.values {
            match &v.value {
                Some(value::Value::String(s)) => {
                    out.push(1);
                    put_bytes(&mut out, s.as_bytes());
                }
                Some(value::Value::Binary(b)) => {
                    out.push(2);
                    put_bytes(&mut out, b);
                }
                Some(value::Value::Integer(i)) => {
                    out.push(3);
                    put_bytes(&mut out, &i.to_be_bytes());
                }
                _ => return Err(invalid()),
            }
        }
        Ok(out)
    }

    fn decode_message(payload: &[u8]) -> Result<Self, KvError> {
        if payload.len() < 4 {
            return Err(invalid());
        }
        let status = u32::from_be_bytes([payload[0], payload[1], payload[2], payload[3]]);
        let mut input = &payload[4..];
        let message = String::from_utf8(take_bytes(&mut input).ok_or_else(invalid)?).map_err(|_| invalid())?;
        let mut values = Vec::new();
        while !input.is_empty() {
            let tag = input[0];
            input = &input[1..];
            let bytes = take_bytes(&mut input).ok_or_else(invalid)?;
            values.push(match tag {
                1 => Value::string(String::from_utf8(bytes).map_err(|_| invalid())?),
                2 => Value::binary(bytes),
                3 => {
                    let mut word = [0u8; 8];
                    word.copy_from_slice(&bytes);
                    Value::integer(i64::from_be_bytes(word))
                }
                _ => return Err(invalid()),
            });
        }
        Ok(Res(CommandResponse { status, message, values, pairs: vec![] }))
    }
}

fn is_compressed(data: &[u8]) -> bool {
    if let &[v] = &data[..1] {
        v >> 7 == 1
    } else {
        false
    }
}

#[test]
fn command_request_encode_decode_should_work() {
    let mut buf = BytesMut::new();

    let cmd = Req(CommandRequest::new_hdel("t1", "k1"));

    cmd.encode_frame(&mut buf).unwrap();

    println!("buf {:?}", buf);

    assert_eq!(is_compressed(&buf), false);
    let cmd1 = Req::decode_frame(&mut buf).unwrap();

    assert_eq!(cmd, cmd1)
}

#[test]
fn command_response_encode_decode_should_work() {
    let mut buf = BytesMut::new();

    let values: Vec<Value> = vec![1.into(), "hello".into(), b"data".to_vec().into()];
    let res = Res(values.into());

    res.encode_frame(&mut buf).unwrap();

    assert_eq!(is_compressed(&buf), false);
    let res1 = Res::decode_frame(&mut buf).unwrap();

    assert_eq!(res, res1)
}

#[test]
fn command_response_compressed_encode_decode_should_work() {
    let mut buf = BytesMut::new();

    let value: Value = vec![0u8; COMPRESSION_LIMIT + 1].into();
    let res = Res(value.into());

    res.encode_frame(&mut buf).unwrap();

    assert_eq!(is_compressed(&buf), true);

    let res1 = Res::decode_frame(&mut buf).unwrap();

    assert_eq!(res, res1)
}

#[test]
fn read_frame_should_work() {
    let mut buf = BytesMut::new();
    let cmd = Req(CommandRequest::new_hdel("t1", "k1"));
    cmd.encode_frame(&mut buf).unwrap();

    let header = u32::from_be_bytes([buf[0], buf[1], buf[2], buf[3]]);
    let (len, _compressed) = decode_header(header);
    let payload = buf[4..4 + len].to_vec();

    let mut data = BytesMut::new();
    read_frame(header, &payload, &mut data).unwrap();
    assert_eq!(&data[..], &buf[..]);

    let cmd1 = Req::decode_frame(&mut data).unwrap();
    assert_eq!(cmd1, cmd)
}

#[test]
fn read_frame_keeps_the_compression_bit() {
    let mut wire = BytesMut::new();
    encode_payload(&vec![7u8; 10_000], &mut wire).unwrap();
    let header = u32::from_be_bytes([wire[0], wire[1], wire[2], wire[3]]);
    assert!(header >= 0x8000_0000);
    let payload = wire[4..].to_vec();
    let mut data = BytesMut::new();
    read_frame(header, &payload, &mut data).unwrap();
    assert_eq!(decode_payload(&mut data), Ok(vec![7u8; 10_000]));
}

#[test]
fn read_frame_refuses_a_payload_of_the_wrong_length() {
    let mut data = BytesMut::new();
    assert_eq!(read_frame(5, &[1, 2, 3], &mut data), Err(KvError::FrameError));
    assert!(data.is_empty());
}

#[test]
fn decode_header_splits_length_and_flag() {
    assert_eq!(decode_header(0), (0, false));
    assert_eq!(decode_header(1436), (1436, false));
    assert_eq!(decode_header(0x8000_0000), (0, true));
    assert_eq!(decode_header(0x8000_0005), (5, true));
    assert_eq!(decode_header(0x7fff_ffff), (0x7fff_ffff, false));
    assert_eq!(decode_header(0xffff_ffff), (0x7fff_ffff, true));
}

#[test]
fn short_payload_goes_out_as_it_is() {
    let mut buf = BytesMut::new();
    encode_payload(b"hello", &mut buf).unwrap();
    assert_eq!(&buf[..], &[0, 0, 0, 5, b'h', b'e', b'l', b'l', b'o']);
}

#[test]
fn empty_payload_is_a_bare_header() {
    let mut buf = BytesMut::new();
    encode_payload(b"", &mut buf).unwrap();
    assert_eq!(&buf[..], &[0, 0, 0, 0]);
    assert_eq!(decode_payload(&mut buf), Ok(vec![]));
    assert!(buf.is_empty());
}

#[test]
fn compression_starts_above_the_limit() {
    let mut at_limit = BytesMut::new();
    encode_payload(&vec![1u8; COMPRESSION_LIMIT], &mut at_limit).unwrap();
    assert_eq!(is_compressed(&at_limit), false);
    assert_eq!(at_limit.len(), 4 + COMPRESSION_LIMIT);
    assert_eq!(&at_limit[..4], &[0, 0, 0x05, 0x9c]);

    let mut above = BytesMut::new();
    encode_payload(&vec![1u8; COMPRESSION_LIMIT + 1], &mut above).unwrap();
    assert_eq!(is_compressed(&above), true);
    let header = u32::from_be_bytes([above[0], above[1], above[2], above[3]]);
    assert_eq!((header & 0x7fff_ffff) as usize, above.len() - 4);
    assert_eq!(decode_payload(&mut above), Ok(vec![1u8; COMPRESSION_LIMIT + 1]));
}

#[test]
fn frame_of_max_size_is_refused() {
    let mut buf = BytesMut::new();
    buf.put_slice(b"kept");
    assert_eq!(encode_payload(&vec![0u8; MAX_FRAME], &mut buf), Err(KvError::FrameError));
    assert_eq!(&buf[..], b"kept");
    assert!(encode_payload(&vec![0u8; MAX_FRAME - 1], &mut buf).is_ok());
    assert_eq!(&buf[..4], b"kept");
}

#[test]
fn frames_are_appended_and_taken_in_order() {
    let mut buf = BytesMut::new();
    encode_payload(b"one", &mut buf).unwrap();
    encode_payload(&vec![9u8; 5000], &mut buf).unwrap();
    encode_payload(b"three", &mut buf).unwrap();
    assert_eq!(decode_payload(&mut buf), Ok(b"one".to_vec()));
    assert_eq!(decode_payload(&mut buf), Ok(vec![9u8; 5000]));
    assert_eq!(decode_payload(&mut buf), Ok(b"three".to_vec()));
    assert!(buf.is_empty());
}

#[test]
fn short_read_leaves_the_buffer_alone() {
    let mut buf = BytesMut::new();
    buf.put_slice(&[0, 0]);
    assert_eq!(decode_payload(&mut buf), Err(KvError::FrameError));
    assert_eq!(&buf[..], &[0, 0]);

    let mut buf = BytesMut::new();
    buf.put_slice(&[0, 0, 0, 4, 1, 2]);
    assert_eq!(decode_payload(&mut buf), Err(KvError::FrameError));
    assert_eq!(&buf[..], &[0, 0, 0, 4, 1, 2]);
}

#[test]
fn corrupt_compressed_payload_is_an_io_error_and_is_consumed() {
    let mut buf = BytesMut::new();
    push_frame(b"not gzip", true, &mut buf).unwrap();
    buf.put_slice(&[0, 0, 0, 1, 42]);
    assert!(matches!(decode_payload(&mut buf), Err(KvError::IoError(_))));
    assert_eq!(decode_payload(&mut buf), Ok(vec![42]));
}

#[test]
fn undecodable_message_is_consumed() {
    let mut buf = BytesMut::new();
    encode_payload(b"xy", &mut buf).unwrap();
    encode_payload(b"", &mut buf).unwrap();
    assert!(Req::decode_frame(&mut buf).is_err());
    assert_eq!(&buf[..], &[0, 0, 0, 0]);
}

#[test]
fn message_that_cannot_be_serialized_leaves_the_buffer_alone() {
    let mut buf = BytesMut::new();
    let cmd = Req(CommandRequest::new_hget("t", "k"));
    assert!(cmd.encode_frame(&mut buf).is_err());
    assert!(buf.is_empty());
}

#[test]
fn a_long_payload_gives_the_same_frame_wherever_it_is_appended() {
    let payload: Vec<u8> = (0..5000u32).map(|i| (i % 251) as u8).collect();
    let mut alone = BytesMut::new();
    encode_payload(&payload, &mut alone).unwrap();
    let mut again = BytesMut::new();
    encode_payload(&payload, &mut again).unwrap();
    assert_eq!(alone, again);

    let mut behind = BytesMut::new();
    encode_payload(b"first", &mut behind).unwrap();
    let held = behind.len();
    encode_payload(&payload, &mut behind).unwrap();
    assert_eq!(&behind[held..], &alone[..]);
    // the frame starts as every gzip member of this encoder does: no time stamp, no name
    assert_eq!(&alone[4..8], &[0x1f, 0x8b, 0x08, 0x00]);
    assert_eq!(&alone[8..12], &[0, 0, 0, 0]);
}
