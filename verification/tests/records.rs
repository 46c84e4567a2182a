use db_server::command_request::RequestData;
use db_server::value;
use db_server::{CommandRequest, CommandResponse, Hdel, Hget, Hgetall, Hset, KvError, Kvpair, Value};

#[test]
fn value_bytes_are_tag_then_content() {
    assert_eq!(Value::default().to_bytes(), vec![0]);
    assert_eq!(Value::from("hi").to_bytes(), vec![1, b'h', b'i']);
    assert_eq!(Value::from(vec![9u8, 8]).to_bytes(), vec![2, 9, 8]);
    assert_eq!(Value::from(258i64).to_bytes(), vec![3, 0, 0, 0, 0, 0, 0, 1, 2]);
    assert_eq!(Value::from(-1i64).to_bytes(), vec![3, 255, 255, 255, 255, 255, 255, 255, 255]);
    assert_eq!(Value { value: Some(value::Value::Float(1)) }.to_bytes(), vec![4, 0, 0, 0, 0, 0, 0, 0, 1]);
    assert_eq!(Value::from(true).to_bytes(), vec![5, 1]);
    assert_eq!(Value::from(false).to_bytes(), vec![5, 0]);
}

#[test]
fn value_bytes_round_trip() {
    let values: Vec<Value> = vec![
        Value::default(),
        "".into(),
        "k\u{fc}hl".into(),
        Vec::<u8>::new().into(),
        vec![1u8, 2, 3].into(),
        0i64.into(),
        i64::MAX.into(),
        i64::MIN.into(),
        Value { value: Some(value::Value::Float(u64::MAX)) },
        true.into(),
        false.into(),
    ];
    for v in values {
        assert_eq!(Value::from_bytes(&v.to_bytes()), Ok(v));
    }
}

#[test]
fn bytes_that_stand_for_no_value_are_refused() {
    for data in [&[][..], &[0, 0], &[1, 0xff], &[3, 1], &[4], &[5], &[5, 2], &[5, 1, 1], &[6], &[200, 1]] {
        assert_eq!(
            Value::from_bytes(data),
            Err(KvError::ConvertError(Value::binary(data.to_vec()), "Value")),
            "{:?}",
            data
        );
    }
}

#[test]
fn conversions_into_values() {
    assert_eq!(Value::from("x"), Value { value: Some(value::Value::String("x".into())) });
    assert_eq!(Value::from("x".to_string()), Value::string("x".into()));
    assert_eq!(Value::from(5i64), Value { value: Some(value::Value::Integer(5)) });
    assert_eq!(Value::from(true), Value { value: Some(value::Value::Bool(true)) });
    assert_eq!(Value::from(vec![1u8]), Value { value: Some(value::Value::Binary(vec![1])) });
    assert_eq!(Value::default(), Value { value: None });
    assert_eq!(Kvpair::from(("k".to_string(), Value::from(1i64))), Kvpair::new("k", 1.into()));
    assert_eq!(Kvpair::default(), Kvpair { key: "".into(), value: None });
}

#[test]
fn conversions_into_responses() {
    let res: CommandResponse = Value::from("v").into();
    assert_eq!(res, CommandResponse { status: 200, message: "".into(), values: vec!["v".into()], pairs: vec![] });
    let res: CommandResponse = vec![Value::from(1i64), Value::default()].into();
    assert_eq!(
        res,
        CommandResponse { status: 200, message: "".into(), values: vec![1.into(), Value::default()], pairs: vec![] }
    );
    let res: CommandResponse = vec![Kvpair::new("k", 1.into())].into();
    assert_eq!(
        res,
        CommandResponse { status: 200, message: "".into(), values: vec![], pairs: vec![Kvpair::new("k", 1.into())] }
    );
    assert_eq!(CommandResponse::ok(), CommandResponse { status: 200, message: "".into(), values: vec![], pairs: vec![] });
    assert_eq!(
        CommandResponse::default(),
        CommandResponse { status: 0, message: "".into(), values: vec![], pairs: vec![] }
    );
    assert!(CommandResponse::default().is_default());
    assert!(!CommandResponse::ok().is_default());
    let mut res = CommandResponse::default();
    res.message = "x".into();
    assert!(!res.is_default());
}

#[test]
fn errors_become_responses_with_their_status() {
    let cases: Vec<(KvError, u32, &str)> = vec![
        (KvError::NotFound("t".into(), "k".into()), 404, "Not found for table: t,key: k"),
        (KvError::InvalidCommand("what".into()), 400, "Cannot parse command: `what`"),
        (KvError::ConvertError(Value::default(), "i64"), 500, "Cannot convert value to i64"),
        (
            KvError::StorageError("get", "t".into(), "k".into(), "gone".into()),
            500,
            "Cannot process command get with table: t, key: k. Error: gone",
        ),
        (KvError::FrameError, 500, "Frame is larger than max size"),
        (KvError::CertificateParseError("CA", "cert"), 500, "Failed to parse certificate: CA cert"),
        (KvError::IoError("broken pipe".into()), 500, "I/O error: broken pipe"),
        (KvError::Internal("oops".into()), 500, "Internal error: oops"),
    ];
    for (e, status, message) in cases {
        assert_eq!(e.to_string(), message);
        let res: CommandResponse = e.into();
        assert_eq!(res, CommandResponse { status, message: message.into(), values: vec![], pairs: vec![] });
    }
}

#[test]
fn outside_errors_become_service_errors() {
    let e: KvError = std::fmt::Error.into();
    assert_eq!(e, KvError::InvalidCommand("Invalid Command".into()));
    let io = std::io::Error::new(std::io::ErrorKind::Other, "disk on fire");
    let e: KvError = io.into();
    assert_eq!(e, KvError::IoError("disk on fire".into()));
    let e: KvError = prost::DecodeError::new("bad").into();
    assert!(matches!(e, KvError::DecodeError(_)));
    assert_eq!(e.to_string(), "Failed to decode protobuf message");
}

#[test]
fn request_builders_set_the_one_command() {
    assert_eq!(
        CommandRequest::new_hget("t", "k").request_data,
        Some(RequestData::Hget(Hget { table: "t".into(), key: "k".into() }))
    );
    assert_eq!(
        CommandRequest::new_hgetall("t").request_data,
        Some(RequestData::Hgetall(Hgetall { table: "t".into() }))
    );
    assert_eq!(
        CommandRequest::new_hdel("t", "k").request_data,
        Some(RequestData::Hdel(Hdel { table: "t".into(), key: "k".into() }))
    );
    assert_eq!(
        CommandRequest::new_hset("t", "k", "v".into()).request_data,
        Some(RequestData::Hset(Hset { table: "t".into(), pair: Some(Kvpair::new("k", "v".into())) }))
    );
}
