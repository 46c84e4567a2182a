use db_server::command_request::RequestData;
use db_server::network::frame::{decode_header, FrameCoder};
use db_server::value;
use db_server::{
    CommandRequest, CommandResponse, Hget, Hset, KvError, Kvpair, MemTable, ProstClientStream, ProstServerStream,
    ServerStep, Service, ServiceInner, StreamingResponse, SubscriptionIds, Value,
};

fn put(out: &mut Vec<u8>, bytes: &[u8]) {
    out.extend_from_slice(&(bytes.len() as u32).to_be_bytes());
    out.extend_from_slice(bytes);
}

fn take(input: &mut &[u8]) -> Result<Vec<u8>, KvError> {
    let bad = || KvError::InvalidCommand("not a message".into());
    if input.len() < 4 {
        return Err(bad());
    }
    let len = u32::from_be_bytes([input[0], input[1], input[2], input[3]]) as usize;
    if input.len() < 4 + len {
        return Err(bad());
    }
    let bytes = input[4..4 + len].to_vec();
    *input = &input[4 + len..];
    Ok(bytes)
}

fn take_text(input: &mut &[u8]) -> Result<String, KvError> {
    String::from_utf8(take(input)?).map_err(|_| KvError::InvalidCommand("not a text".into()))
}

/// A get or set request on the wire: a letter, the table, the key and, for a set, the value
/// in its stored form.
#[derive(Debug, PartialEq, Clone)]
struct Req(CommandRequest);

impl FrameCoder for Req {
    fn encode_message(&self) -> Result<Vec<u8>, KvError> {
        let mut out = Vec::new();
        match &self.0.request_data {
            Some(RequestData::Hget(p)) => {
                out.push(b'G');
                put(&mut out, p.table.as_bytes());
                put(&mut out, p.key.as_bytes());
            }
            Some(RequestData::Hset(Hset { table, pair: Some(Kvpair { key, value: Some(v) }) })) => {
                out.push(b'S');
                put(&mut out, table.as_bytes());
                put(&mut out, key.as_bytes());
                put(&mut out, &v.to_bytes());
            }
            _ => return Err(KvError::InvalidCommand("not a get or set".into())),
        }
        Ok(out)
    }

    fn decode_message(payload: &[u8]) -> Result<Self, KvError> {
        let (letter, mut input) = match payload.split_first() {
            Some((letter, rest)) => (*letter, rest),
            None => return Err(KvError::InvalidCommand("empty".into())),
        };
        let table = take_text(&mut input)?;
        let key = take_text(&mut input)?;
        let data = match letter {
            b'G' => RequestData::Hget(Hget { table, key }),
            b'S' => {
                let value = Value::from_bytes(&take(&mut input)?)?;
                RequestData::Hset(Hset { table, pair: Some(Kvpair { key, value: Some(value) }) })
            }
            _ => return Err(KvError::InvalidCommand("unknown letter".into())),
        };
        Ok(Req(CommandRequest { request_data: Some(data) }))
    }
}

/// A response on the wire: the status, the message, and each value in its stored form.
#[derive(Debug, PartialEq, Clone)]
struct Res(CommandResponse);

impl FrameCoder for Res {
    fn encode_message(&self) -> Result<Vec<u8>, KvError> {
        let mut out = Vec::new();
        out.extend_from_slice(&self.0.status.to_be_bytes());
        put(&mut out, self.0.message.as_bytes());
        for v in &self.0.values {
            put(&mut out, &v.to_bytes());
        }
        Ok(out)
    }

    fn decode_message(payload: &[u8]) -> Result<Self, KvError> {
        if payload.len() < 4 {
            return Err(KvError::InvalidCommand("no status".into()));
        }
        let status = u32::from_be_bytes([payload[0], payload[1], payload[2], payload[3]]);
        let mut input = &payload[4..];
        let message = take_text(&mut input)?;
        let mut values = Vec::new();
        while !input.is_empty() {
            values.push(Value::from_bytes(&take(&mut input)?)?);
        }
        Ok(Res(CommandResponse { status, message, values, pairs: vec![] }))
    }
}

/// A server at the far end of a pipe that hands each frame over whole.
struct Far {
    server: ProstServerStream<(), MemTable>,
    ids: SubscriptionIds,
    compressed: Vec<bool>,
}

fn start_server() -> Far {
    let service: Service<MemTable> = ServiceInner::new(MemTable::new()).into();
    Far { server: ProstServerStream::new((), service), ids: SubscriptionIds::new(), compressed: vec![] }
}

impl Far {
    /// Takes a request frame off the wire and puts the response frame on it.
    fn exchange(&mut self, frame: &[u8]) -> Vec<u8> {
        let header = u32::from_be_bytes([frame[0], frame[1], frame[2], frame[3]]);
        self.compressed.push(decode_header(header).1);
        let received: Result<Req, KvError> = db_server::network::received_frame(header, &frame[4..]);
        let res = match self.server.process(&mut self.ids, received.map(|req| req.0)) {
            ServerStep::Respond(StreamingResponse::Once(res)) => res,
            _ => panic!("one response expected"),
        };
        db_server::network::frame_to_send(&Res(res.as_ref().clone())).unwrap().to_vec()
    }
}

fn execute(client: &ProstClientStream<()>, far: &mut Far, cmd: CommandRequest) -> Result<CommandResponse, KvError> {
    let frame = client.send(&Req(cmd))?;
    let answer = far.exchange(&frame);
    let header = u32::from_be_bytes([answer[0], answer[1], answer[2], answer[3]]);
    let res: Res = client.recv(header, &answer[4..])?;
    Ok(res.0)
}

fn assert_res_ok(res: CommandResponse, values: &[Value], pairs: &[Kvpair]) {
    assert_eq!(res.status, 200);
    assert_eq!(res.message, "");
    assert_eq!(res.values, values);
    assert_eq!(res.pairs, pairs);
}

#[test]
fn client_server_basic_communication_should_work() {
    let mut far = start_server();
    let client = ProstClientStream::new(());

    let cmd = CommandRequest::new_hset("t1", "k1", "v1".into());
    let res = execute(&client, &mut far, cmd).unwrap();

    assert_res_ok(res, &[Value::default()], &[]);

    let cmd = CommandRequest::new_hget("t1", "k1");
    let res = execute(&client, &mut far, cmd).unwrap();

    assert_res_ok(res, &["v1".into()], &[]);
    assert_eq!(far.compressed, vec![false, false]);
}

#[test]
fn client_server_compression_should_work() {
    let mut far = start_server();
    let client = ProstClientStream::new(());
    let v: Value = vec![0u8; 16384].into();
    let cmd = CommandRequest::new_hset("t2", "k2", v.clone());
    let res = execute(&client, &mut far, cmd).unwrap();
    assert_res_ok(res, &[Value::default()], &[]);
    let cmd = CommandRequest::new_hget("t2", "k2");
    let res = execute(&client, &mut far, cmd).unwrap();
    assert_res_ok(res, &[v], &[]);
    // the large request went over the wire compressed, the small one as it is
    assert_eq!(far.compressed, vec![true, false]);
    assert!(matches!(
        Value::from_bytes(&[2, 1]).unwrap().value,
        Some(value::Value::Binary(_))
    ));
}
