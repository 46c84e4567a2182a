use db_server::network::frame::{decode_header, FrameCoder};
use db_server::{
    CommandRequest, KvError, MemTable, ProstClientStream, ProstServerStream, ProstStream, Service, ServiceInner,
    ServerStep, StreamingResponse, SubscriptionIds, Value,
};

/// A text that travels as its UTF-8 bytes.
#[derive(Debug, PartialEq, Clone)]
struct Text(String);

impl FrameCoder for Text {
    fn encode_message(&self) -> Result<Vec<u8>, KvError> {
        Ok(self.0.as_bytes().to_vec())
    }

    fn decode_message(payload: &[u8]) -> Result<Self, KvError> {
        match String::from_utf8(payload.to_vec()) {
            Ok(s) => Ok(Text(s)),
            Err(_) => Err(KvError::InvalidCommand("not a text".into())),
        }
    }
}

fn split(frame: &[u8]) -> (u32, Vec<u8>) {
    let header = u32::from_be_bytes([frame[0], frame[1], frame[2], frame[3]]);
    (header, frame[4..].to_vec())
}

#[test]
fn prost_stream_should_work() {
    let mut stream = ProstStream::<Vec<u8>, Text, Text>::new(Vec::new());
    let msg = Text("hello".into());

    stream.start_send(&msg).unwrap();
    // the stream underneath takes whatever is pending
    let pending = stream.pending().to_vec();
    stream.stream.extend_from_slice(&pending);
    assert!(stream.poll_flush(pending.len()));
    assert!(stream.pending().is_empty());

    // and what it took comes back as a frame
    let (header, payload) = split(&stream.stream.clone());
    assert_eq!(stream.poll_next(header, &payload), Ok(msg));
}

#[test]
fn flush_resumes_from_the_written_offset() {
    let mut stream = ProstStream::<(), Text, Text>::new(());
    stream.start_send(&Text("ab".into())).unwrap();
    stream.start_send(&Text("c".into())).unwrap();
    assert_eq!(stream.pending(), &[0, 0, 0, 2, b'a', b'b', 0, 0, 0, 1, b'c']);
    assert!(!stream.poll_flush(3));
    assert_eq!(stream.pending(), &[2, b'a', b'b', 0, 0, 0, 1, b'c']);
    assert!(!stream.poll_flush(0));
    assert!(!stream.poll_flush(7));
    assert_eq!(stream.pending(), &[b'c']);
    assert!(stream.poll_flush(1));
    assert!(stream.pending().is_empty());
    // after a flush the buffer starts anew
    stream.start_send(&Text("d".into())).unwrap();
    assert_eq!(stream.pending(), &[0, 0, 0, 1, b'd']);
}

#[test]
fn flush_of_nothing_is_done_at_once() {
    let mut stream = ProstStream::<(), Text, Text>::new(());
    assert!(stream.pending().is_empty());
    assert!(stream.poll_flush(0));
}

#[test]
fn failed_send_leaves_pending_alone() {
    let mut stream = ProstStream::<(), Text, Text>::new(());
    stream.start_send(&Text("ok".into())).unwrap();
    let before = stream.pending().to_vec();
    let huge = Text("x".repeat(2 * 1024 * 1024));
    assert_eq!(stream.start_send(&huge), Err(KvError::FrameError));
    assert_eq!(stream.pending(), &before[..]);
}

#[test]
fn inbound_frames_leave_nothing_behind() {
    let mut stream = ProstStream::<(), Text, Text>::new(());
    assert_eq!(stream.poll_next(3, b"abc"), Ok(Text("abc".into())));
    // a payload of the wrong length, an undecodable message and a broken compressed payload
    assert_eq!(stream.poll_next(4, b"abc"), Err(KvError::FrameError));
    assert_eq!(stream.poll_next(1, &[0xff]), Err(KvError::InvalidCommand("not a text".into())));
    assert!(matches!(stream.poll_next(0x8000_0002, b"zz"), Err(KvError::IoError(_))));
    // none of them is in the way of the next frame
    assert_eq!(stream.poll_next(2, b"ok"), Ok(Text("ok".into())));
}

#[test]
fn large_messages_travel_compressed() {
    let mut stream = ProstStream::<(), Text, Text>::new(());
    let msg = Text("y".repeat(16384));
    stream.start_send(&msg).unwrap();
    let frame = stream.pending().to_vec();
    let (header, payload) = split(&frame);
    let (len, compressed) = decode_header(header);
    assert!(compressed);
    assert_eq!(len, payload.len());
    assert!(len < 16384);
    assert_eq!(stream.poll_next(header, &payload), Ok(msg));
}

#[test]
fn client_sends_a_frame_and_reads_one() {
    let client = ProstClientStream::new(());
    let frame = client.send(&Text("ping".into())).unwrap();
    assert_eq!(&frame[..], &[0, 0, 0, 4, b'p', b'i', b'n', b'g']);
    let (header, payload) = split(&frame);
    assert_eq!(client.recv::<Text>(header, &payload), Ok(Text("ping".into())));
    assert_eq!(client.recv::<Text>(header, b"pin"), Err(KvError::FrameError));
}

#[test]
fn server_answers_requests_and_stops_on_failure() {
    let service: Service<MemTable> = ServiceInner::new(MemTable::new()).into();
    let mut server = ProstServerStream::new((), service);
    let mut ids = SubscriptionIds::new();

    let step = server.process(&mut ids, Ok(CommandRequest::new_hset("t1", "k1", "v1".into())));
    match step {
        ServerStep::Respond(StreamingResponse::Once(res)) => assert_eq!(res.values, vec![Value::default()]),
        _ => panic!("a response expected"),
    }
    let step = server.process(&mut ids, Ok(CommandRequest::new_hget("t1", "k1")));
    match step {
        ServerStep::Respond(StreamingResponse::Once(res)) => assert_eq!(res.values, vec![Value::from("v1")]),
        _ => panic!("a response expected"),
    }
    assert!(matches!(server.process(&mut ids, Err(KvError::FrameError)), ServerStep::Stop));
    server.after_send();
}
