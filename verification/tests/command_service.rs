use db_server::command_request::RequestData;
use db_server::{
    dispatch, CommandRequest, CommandResponse, CommandService, Hdel, Hexist, Hmdel, Hmexist, Hmget, Hmset, Hset,
    Kvpair, MemTable, Storage, Value,
};

fn dispatch_unary(cmd: CommandRequest, store: &mut impl Storage) -> CommandResponse {
    match cmd.request_data.unwrap() {
        RequestData::Hget(v) => v.execute(store),
        RequestData::Hgetall(v) => v.execute(store),
        RequestData::Hset(v) => v.execute(store),
        _ => unreachable!(),
    }
}

fn assert_res_ok(mut res: CommandResponse, values: &[Value], pairs: &[Kvpair]) {
    res.pairs.sort_by(|a, b| a.partial_cmp(b).unwrap());
    assert_eq!(res.status, 200);
    assert_eq!(res.message, "");
    assert_eq!(res.values, values);
    assert_eq!(res.pairs, pairs);
}

fn assert_res_error(res: CommandResponse, code: u32, msg: &str) {
    assert_eq!(res.status, code);
    assert!(res.message.contains(msg));
    assert_eq!(res.values, &[]);
    assert_eq!(res.pairs, &[]);
}

#[test]
fn hset_should_work() {
    let mut store = MemTable::new();
    let cmd = CommandRequest::new_hset("t1", "hello", "world".into());
    let res = dispatch_unary(cmd.clone(), &mut store);

    assert_res_ok(res, &[Value::default()], &[]);
    let res = dispatch_unary(cmd, &mut store);
    assert_res_ok(res, &["world".into()], &[]);
}

#[test]
fn hget_should_work() {
    let mut store = MemTable::new();
    let cmd = CommandRequest::new_hset("score", "u1", 10.into());
    dispatch_unary(cmd, &mut store);
    let cmd = CommandRequest::new_hget("score", "u1");
    let res = dispatch_unary(cmd, &mut store);
    assert_res_ok(res, &[10.into()], &[]);
}

#[test]
fn hget_with_non_exist_key_should_return_404() {
    let mut store = MemTable::new();
    let cmd = CommandRequest::new_hget("score", "u1");
    let res = dispatch_unary(cmd, &mut store);
    assert_res_error(res, 404, "Not found");
}

#[test]
fn hgetall_should_work() {
    let mut store = MemTable::new();
    let cmds = vec![
        CommandRequest::new_hset("score", "u1", 10.into()),
        CommandRequest::new_hset("score", "u2", 8.into()),
        CommandRequest::new_hset("score", "u3", 11.into()),
        CommandRequest::new_hset("score", "u1", 6.into()),
    ];
    for cmd in cmds {
        dispatch_unary(cmd, &mut store);
    }
    let cmd = CommandRequest::new_hgetall("score");
    let res = dispatch_unary(cmd, &mut store);
    let pairs = &[Kvpair::new("u1", 6.into()), Kvpair::new("u2", 8.into()), Kvpair::new("u3", 11.into())];
    assert_res_ok(res, &[], pairs);
}

#[test]
fn hget_missing_key_message_is_exact() {
    let mut store = MemTable::new();
    let res = dispatch(CommandRequest::new_hget("score", "u1"), &mut store);
    assert_eq!(res.status, 404);
    assert_eq!(res.message, "Not found for table: score,key: u1");
}

#[test]
fn hgetall_of_missing_table_is_empty_success() {
    let mut store = MemTable::new();
    let res = dispatch(CommandRequest::new_hgetall("nowhere"), &mut store);
    assert_res_ok(res, &[], &[]);
}

#[test]
fn hset_without_pair_answers_default_value() {
    let mut store = MemTable::new();
    let res = Hset { table: "t".into(), pair: None }.execute(&mut store);
    assert_res_ok(res, &[Value::default()], &[]);
    assert_eq!(store.get_all("t"), Ok(vec![]));
}

#[test]
fn hset_without_value_stores_default_value() {
    let mut store = MemTable::new();
    let pair = Kvpair { key: "k".into(), value: None };
    let res = Hset { table: "t".into(), pair: Some(pair) }.execute(&mut store);
    assert_res_ok(res, &[Value::default()], &[]);
    assert_eq!(store.get("t", "k"), Ok(Some(Value::default())));
}

#[test]
fn hdel_returns_previous_value_then_default() {
    let mut store = MemTable::new();
    dispatch(CommandRequest::new_hset("t", "k", "v".into()), &mut store);
    let res = Hdel { table: "t".into(), key: "k".into() }.execute(&mut store);
    assert_res_ok(res, &["v".into()], &[]);
    let res = dispatch(CommandRequest::new_hdel("t", "k"), &mut store);
    assert_res_ok(res, &[Value::default()], &[]);
}

#[test]
fn hexist_answers_boolean() {
    let mut store = MemTable::new();
    dispatch(CommandRequest::new_hset("t", "k", "v".into()), &mut store);
    let res = Hexist { table: "t".into(), key: "k".into() }.execute(&mut store);
    assert_res_ok(res, &[true.into()], &[]);
    let res = Hexist { table: "t".into(), key: "other".into() }.execute(&mut store);
    assert_res_ok(res, &[false.into()], &[]);
}

#[test]
fn multi_key_commands_answer_in_key_order() {
    let mut store = MemTable::new();
    let pairs = vec![Kvpair::new("a", 1.into()), Kvpair::new("b", 2.into()), Kvpair::new("a", 3.into())];
    let res = Hmset { table: "t".into(), pairs }.execute(&mut store);
    assert_res_ok(res, &[Value::default(), Value::default(), 1.into()], &[]);

    let keys = vec!["b".to_string(), "missing".to_string(), "a".to_string()];
    let res = Hmget { table: "t".into(), keys: keys.clone() }.execute(&mut store);
    assert_res_ok(res, &[2.into(), Value::default(), 3.into()], &[]);

    let res = Hmexist { table: "t".into(), keys: keys.clone() }.execute(&mut store);
    assert_res_ok(res, &[true.into(), false.into(), true.into()], &[]);

    let keys = vec!["b".to_string(), "b".to_string(), "a".to_string()];
    let res = Hmdel { table: "t".into(), keys }.execute(&mut store);
    assert_res_ok(res, &[2.into(), Value::default(), 3.into()], &[]);
    assert_eq!(store.get_all("t"), Ok(vec![]));
}

#[test]
fn request_without_command_is_invalid() {
    let mut store = MemTable::new();
    let res = dispatch(CommandRequest { request_data: None }, &mut store);
    assert_eq!(res.status, 400);
    assert_eq!(res.message, "Cannot parse command: `Request has no data`");
}

#[test]
fn topic_command_gets_no_answer_from_the_store() {
    let mut store = MemTable::new();
    let cmd = CommandRequest {
        request_data: Some(RequestData::Subscribe(db_server::Subscribe { topic: "lobby".into() })),
    };
    let res = dispatch(cmd, &mut store);
    assert_eq!(res, CommandResponse::default());
    assert!(res.is_default());
}
