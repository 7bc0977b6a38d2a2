use std::cell::RefCell;
use std::collections::VecDeque;
use std::rc::Rc;

use libmongo::client::{acknowledge, database_names, Client, Codec, Connection};
use libmongo::document::{command_ok, Document, Value, DOUBLE_ONE_BITS};
use libmongo::error::{ErrorKind, MongoErr};
use libmongo::ops::{Command, Operation, WriteConcern, WriteConcernSpec};
use libmongo::options::{CursorType, FindOptions, DEFAULT_BATCH_SIZE};
use libmongo::reply::{classify_reply, DecodedReply, CURSOR_NOT_FOUND, QUERY_FAILURE};
use libmongo::shard::{namespace, require_database, status_report, ShardController};

struct Script {
    replies: VecDeque<DecodedReply>,
    log: Vec<(i32, String)>,
}

#[derive(Clone)]
struct MockCodec {
    script: Rc<RefCell<Script>>,
}

fn render_value(v: &Value) -> String {
    match v {
        Value::Double(bits) => format!("{}", f64::from_bits(*bits)),
        Value::Int32(n) => format!("{}", n),
        Value::Int64(n) => format!("{}", n),
        Value::Str(s) => format!("\"{}\"", s),
        Value::Bool(b) => format!("{}", b),
        Value::Doc(d) => render_doc(d),
        Value::Array(items) => {
            let parts: Vec<String> = items.iter().map(render_value).collect();
            format!("[{}]", parts.join(", "))
        }
        Value::Null => "null".to_string(),
    }
}

fn render_doc(d: &Document) -> String {
    let parts: Vec<String> = d
        .fields
        .iter()
        .map(|(k, v)| format!("{}: {}", k, render_value(v)))
        .collect();
    format!("{{ {} }}", parts.join(", "))
}

fn describe(op: &Operation) -> String {
    match op {
        Operation::Command { db, command } => {
            let c = match command {
                Command::ListDatabases => "listDatabases".to_string(),
                Command::DropDatabase => "dropDatabase".to_string(),
                Command::IsMaster => "ismaster".to_string(),
                Command::EnableSharding(d) => format!("enableSharding {}", d),
                Command::AddShard(h) => format!("addShard {}", h),
                Command::ShardCollection { namespace, key, unique } => {
                    format!("shardCollection {} {} {}", namespace, render_doc(key), unique)
                }
                Command::GetLastError(wc) => format!("getLastError {}", wc.len()),
            };
            format!("{} {}", db, c)
        }
        Operation::Query { db, coll, filter, limit } => {
            format!("query {}.{} {} {}", db, coll, render_doc(filter), limit)
        }
        Operation::Update { db, coll, selector, update } => {
            format!("update {}.{} {} {}", db, coll, render_doc(selector), render_doc(update))
        }
    }
}

impl Codec for MockCodec {
    fn encode(&self, request_id: i32, op: &Operation) -> Vec<u8> {
        self.script.borrow_mut().log.push((request_id, describe(op)));
        request_id.to_le_bytes().to_vec()
    }

    fn decode_reply(&self, _bytes: &Vec<u8>) -> Result<DecodedReply, MongoErr> {
        match self.script.borrow_mut().replies.pop_front() {
            Some(r) => Ok(r),
            None => Err(MongoErr::new(ErrorKind::MalformedReply, "mock", "no reply", "none left")),
        }
    }

    fn render(&self, doc: &Document) -> String {
        render_doc(doc)
    }
}

struct MockConn {
    reachable: bool,
    pending: Option<Vec<u8>>,
}

impl Connection for MockConn {
    fn node(address: String, _port: usize) -> Self {
        MockConn { reachable: address != "unreachable", pending: None }
    }

    fn replica_set(seed: Vec<(String, usize)>) -> Self {
        MockConn { reachable: !seed.is_empty(), pending: None }
    }

    fn connect(&mut self) -> Result<(), MongoErr> {
        if self.reachable {
            Ok(())
        } else {
            Err(MongoErr::new(ErrorKind::TransportFailure, "mock", "refused", "connection refused"))
        }
    }

    fn send(&mut self, bytes: Vec<u8>, _expect_reply: bool) -> Result<(), MongoErr> {
        self.pending = Some(bytes);
        Ok(())
    }

    fn recv(&mut self, _expect_reply: bool) -> Result<Vec<u8>, MongoErr> {
        match self.pending.take() {
            Some(b) => Ok(b),
            None => Err(MongoErr::new(ErrorKind::TransportFailure, "mock", "idle", "nothing sent")),
        }
    }

    fn disconnect(&mut self) -> Result<(), MongoErr> {
        Ok(())
    }
}

fn doc(fields: Vec<(&str, Value)>) -> Document {
    Document { fields: fields.into_iter().map(|(k, v)| (k.to_string(), v)).collect() }
}

fn reply(flags: i32, docs: Vec<Document>) -> DecodedReply {
    DecodedReply { flags, cursor_id: 0, start: 0, nret: docs.len() as i32, docs }
}

fn ok_doc(v: Value) -> Document {
    doc(vec![("ok", v)])
}

fn mock() -> (MockCodec, Rc<RefCell<Script>>) {
    let script = Rc::new(RefCell::new(Script { replies: VecDeque::new(), log: Vec::new() }));
    (MockCodec { script: script.clone() }, script)
}

fn connected_client() -> (Client<MockConn, MockCodec>, Rc<RefCell<Script>>) {
    let (codec, script) = mock();
    let mut c: Client<MockConn, MockCodec> = Client::new(codec);
    c.connect("localhost".to_string(), 27017).unwrap();
    (c, script)
}

fn push_reply(script: &Rc<RefCell<Script>>, r: DecodedReply) {
    script.borrow_mut().replies.push_back(r);
}

fn logged(script: &Rc<RefCell<Script>>) -> Vec<(i32, String)> {
    script.borrow().log.clone()
}

fn no_wc() -> WriteConcernSpec {
    WriteConcernSpec { db: "test".to_string(), concerns: Vec::new() }
}

fn find_all() -> Operation {
    Operation::Query {
        db: "test".to_string(),
        coll: "things".to_string(),
        filter: Document::new(),
        limit: 0,
    }
}

#[test]
fn request_ids_are_consecutive_from_zero() {
    let (mut c, script) = connected_client();
    assert_eq!(c.get_requestId(), 0);
    for _ in 0..3 {
        push_reply(&script, reply(0, vec![]));
        assert!(c.dispatch(find_all(), no_wc(), true).unwrap().is_some());
    }
    let ids: Vec<i32> = logged(&script).iter().map(|e| e.0).collect();
    assert_eq!(ids, vec![0, 1, 2]);
    assert_eq!(c.get_requestId(), 3);
}

#[test]
fn write_consumes_an_id_for_its_acknowledgment() {
    let (mut c, script) = connected_client();
    push_reply(&script, reply(0, vec![ok_doc(Value::Int32(1))]));
    let insert = Operation::Update {
        db: "test".to_string(),
        coll: "things".to_string(),
        selector: Document::new(),
        update: Document::new(),
    };
    assert!(c.dispatch(insert, no_wc(), false).unwrap().is_none());
    push_reply(&script, reply(0, vec![]));
    c.dispatch(find_all(), no_wc(), true).unwrap();
    let log = logged(&script);
    let ids: Vec<i32> = log.iter().map(|e| e.0).collect();
    assert_eq!(ids, vec![0, 1, 2]);
    assert_eq!(log[1].1, "test getLastError 0");
}

#[test]
fn get_request_id_does_not_advance() {
    let (codec, _script) = mock();
    let mut c: Client<MockConn, MockCodec> = Client::new(codec);
    assert_eq!(c.get_requestId(), 0);
    assert_eq!(c.get_requestId(), 0);
    assert_eq!(c.inc_requestId(), 0);
    assert_eq!(c.inc_requestId(), 1);
    assert_eq!(c.get_requestId(), 2);
}

#[test]
fn connect_twice_is_already_connected() {
    let (mut c, script) = connected_client();
    let e = c.connect("otherhost".to_string(), 27017).unwrap_err();
    assert_eq!(e.kind, ErrorKind::AlreadyConnected);
    let e = c.connect_to_rs(vec![("h".to_string(), 1)]).unwrap_err();
    assert_eq!(e.kind, ErrorKind::AlreadyConnected);
    // the first connection is still in use
    push_reply(&script, reply(0, vec![]));
    assert!(c.dispatch(find_all(), no_wc(), true).is_ok());
}

#[test]
fn disconnect_never_connected_is_ok() {
    let (codec, _script) = mock();
    let mut c: Client<MockConn, MockCodec> = Client::new(codec);
    assert!(c.disconnect().is_ok());
    assert!(c.disconnect().is_ok());
}

#[test]
fn reconnect_after_disconnect() {
    let (mut c, _script) = connected_client();
    assert!(c.disconnect().is_ok());
    assert!(c.connect_to_rs(vec![("a".to_string(), 27017), ("b".to_string(), 27018)]).is_ok());
}

#[test]
fn failed_connect_is_transport_failure() {
    let (codec, _script) = mock();
    let mut c: Client<MockConn, MockCodec> = Client::new(codec);
    let e = c.connect("unreachable".to_string(), 27017).unwrap_err();
    assert_eq!(e.kind, ErrorKind::TransportFailure);
    assert_eq!(e.call, "client::connect");
    assert!(e.cause.is_some());
    let e = c.dispatch(find_all(), no_wc(), true).unwrap_err();
    assert_eq!(e.kind, ErrorKind::NotConnected);
}

#[test]
fn dispatch_without_connection_is_not_connected() {
    let (codec, script) = mock();
    let mut c: Client<MockConn, MockCodec> = Client::new(codec);
    let e = c.dispatch(find_all(), no_wc(), false).unwrap_err();
    assert_eq!(e.kind, ErrorKind::NotConnected);
    assert_eq!(logged(&script).len(), 1);
    assert_eq!(c.get_requestId(), 1);
}

#[test]
fn cursor_not_found_takes_precedence() {
    let (mut c, script) = connected_client();
    push_reply(&script, reply(CURSOR_NOT_FOUND | QUERY_FAILURE, vec![]));
    let e = c.dispatch(find_all(), no_wc(), true).unwrap_err();
    assert_eq!(e.kind, ErrorKind::CursorNotFound);
}

#[test]
fn query_failure_flag_fails_the_read() {
    let (mut c, script) = connected_client();
    push_reply(&script, reply(QUERY_FAILURE, vec![]));
    let e = c.dispatch(find_all(), no_wc(), true).unwrap_err();
    assert_eq!(e.kind, ErrorKind::QueryFailure);
}

#[test]
fn other_flag_bits_pass_through() {
    let r = classify_reply(reply(8, vec![doc(vec![("a", Value::Int32(5))])])).unwrap();
    assert_eq!(r.flags, 8);
    assert_eq!(r.docs.len(), 1);
    assert_eq!(classify_reply(reply(1, vec![])).unwrap_err().kind, ErrorKind::CursorNotFound);
    assert_eq!(classify_reply(reply(2, vec![])).unwrap_err().kind, ErrorKind::QueryFailure);
    assert_eq!(classify_reply(reply(3, vec![])).unwrap_err().kind, ErrorKind::CursorNotFound);
}

#[test]
fn undecodable_reply_is_malformed() {
    let (mut c, _script) = connected_client();
    let e = c.dispatch(find_all(), no_wc(), true).unwrap_err();
    assert_eq!(e.kind, ErrorKind::MalformedReply);
}

fn write_with_ack(ack: Document) -> Result<Option<DecodedReply>, MongoErr> {
    let (mut c, script) = connected_client();
    push_reply(&script, reply(0, vec![ack]));
    let wc = WriteConcernSpec {
        db: "orders".to_string(),
        concerns: vec![WriteConcern::Journal(true), WriteConcern::WNodes(2)],
    };
    let insert = Operation::Update {
        db: "orders".to_string(),
        coll: "items".to_string(),
        selector: Document::new(),
        update: Document::new(),
    };
    let r = c.dispatch(insert, wc, false);
    let log = logged(&script);
    assert_eq!(log.len(), 2);
    assert_eq!(log[1].1, "orders getLastError 2");
    r
}

#[test]
fn acknowledged_write_succeeds_in_each_encoding() {
    assert!(write_with_ack(ok_doc(Value::Double(DOUBLE_ONE_BITS))).unwrap().is_none());
    assert!(write_with_ack(ok_doc(Value::Double(1.0f64.to_bits()))).unwrap().is_none());
    assert!(write_with_ack(ok_doc(Value::Int32(1))).unwrap().is_none());
    assert!(write_with_ack(ok_doc(Value::Int64(1))).unwrap().is_none());
}

#[test]
fn unacknowledged_write_is_write_concern_error() {
    let e = write_with_ack(ok_doc(Value::Int32(0))).unwrap_err();
    assert_eq!(e.kind, ErrorKind::WriteConcernError);
    let e = write_with_ack(doc(vec![("err", Value::Str("E11000".to_string()))])).unwrap_err();
    assert_eq!(e.kind, ErrorKind::WriteConcernError);
}

#[test]
fn acknowledge_outcomes() {
    assert!(acknowledge(Ok(ok_doc(Value::Int64(1)))).unwrap().is_none());
    let e = acknowledge(Ok(ok_doc(Value::Int64(2)))).unwrap_err();
    assert_eq!(e.kind, ErrorKind::WriteConcernError);
    let inner = MongoErr::new(ErrorKind::TransportFailure, "x", "y", "z");
    let e = acknowledge(Err(inner)).unwrap_err();
    assert_eq!(e.kind, ErrorKind::WriteConcernError);
    assert_eq!(e.cause.unwrap().kind, ErrorKind::TransportFailure);
}

#[test]
fn ok_field_encodings() {
    assert!(command_ok(&ok_doc(Value::Double(1.0f64.to_bits()))));
    assert!(command_ok(&ok_doc(Value::Int32(1))));
    assert!(command_ok(&ok_doc(Value::Int64(1))));
    assert!(!command_ok(&ok_doc(Value::Int32(0))));
    assert!(!command_ok(&ok_doc(Value::Int32(2))));
    assert!(!command_ok(&ok_doc(Value::Int64(0))));
    assert!(!command_ok(&ok_doc(Value::Double(0.0f64.to_bits()))));
    assert!(!command_ok(&ok_doc(Value::Double(2.0f64.to_bits()))));
    assert!(!command_ok(&ok_doc(Value::Str("1".to_string()))));
    assert!(!command_ok(&ok_doc(Value::Bool(true))));
    assert!(!command_ok(&doc(vec![("n", Value::Int32(1))])));
    assert!(!command_ok(&Document::new()));
}

#[test]
fn ok_field_first_occurrence_counts() {
    let d = doc(vec![("ok", Value::Int32(1)), ("ok", Value::Int32(0))]);
    assert!(command_ok(&d));
}

fn listing(names: &[&str]) -> Document {
    let items = names
        .iter()
        .map(|n| Value::Doc(doc(vec![("name", Value::Str(n.to_string())), ("empty", Value::Bool(false))])))
        .collect();
    doc(vec![("databases", Value::Array(items)), ("ok", Value::Double(DOUBLE_ONE_BITS))])
}

#[test]
fn database_names_of_listing() {
    assert_eq!(database_names(&listing(&["admin", "test"])).unwrap(), vec!["admin", "test"]);
    assert_eq!(database_names(&listing(&[])).unwrap(), Vec::<String>::new());
}

#[test]
fn malformed_listing_is_rejected() {
    let e = database_names(&ok_doc(Value::Int32(1))).unwrap_err();
    assert_eq!(e.kind, ErrorKind::MalformedReply);
    let e = database_names(&doc(vec![("databases", Value::Int32(3))])).unwrap_err();
    assert_eq!(e.kind, ErrorKind::MalformedReply);
    let bad = doc(vec![("databases", Value::Array(vec![Value::Doc(doc(vec![("name", Value::Int32(1))]))]))]);
    assert_eq!(database_names(&bad).unwrap_err().kind, ErrorKind::MalformedReply);
    let bad = doc(vec![("databases", Value::Array(vec![Value::Str("test".to_string())]))]);
    assert_eq!(database_names(&bad).unwrap_err().kind, ErrorKind::MalformedReply);
}

#[test]
fn get_dbs_asks_admin() {
    let (mut c, script) = connected_client();
    push_reply(&script, reply(0, vec![listing(&["local", "shop"])]));
    assert_eq!(c.get_dbs().unwrap(), vec!["local", "shop"]);
    assert_eq!(logged(&script)[0].1, "admin listDatabases");
}

#[test]
fn drop_db_runs_drop_database() {
    let (mut c, script) = connected_client();
    push_reply(&script, reply(0, vec![ok_doc(Value::Int32(1))]));
    assert!(c.drop_db(&"shop".to_string()).is_ok());
    assert_eq!(logged(&script)[0].1, "shop dropDatabase");
}

#[test]
fn run_command_without_document_is_malformed() {
    let (mut c, script) = connected_client();
    push_reply(&script, reply(0, vec![]));
    let e = c.run_command(&"admin".to_string(), Command::IsMaster).unwrap_err();
    assert_eq!(e.kind, ErrorKind::MalformedReply);
}

fn router_reply() -> Document {
    doc(vec![("ismaster", Value::Bool(true)), ("msg", Value::Str("isdbgrid".to_string())), ("ok", Value::Int32(1))])
}

fn controller() -> (ShardController<MockConn, MockCodec>, Rc<RefCell<Script>>) {
    let (c, script) = connected_client();
    push_reply(&script, reply(0, vec![router_reply()]));
    let sc = match ShardController::new(c) {
        Ok(sc) => sc,
        Err((e, _)) => panic!("{:?}", e),
    };
    (sc, script)
}

#[test]
fn controller_accepts_router() {
    let (sc, script) = controller();
    assert_eq!(logged(&script), vec![(0, "admin ismaster".to_string())]);
    assert_eq!(sc.mongos().get_requestId(), 1);
}

#[test]
fn controller_rejects_plain_node() {
    let (c, script) = connected_client();
    push_reply(&script, reply(0, vec![doc(vec![("ismaster", Value::Bool(true)), ("ok", Value::Int32(1))])]));
    let (e, back) = ShardController::new(c).err().unwrap();
    assert_eq!(back.get_requestId(), 1);
    assert_eq!(e.kind, ErrorKind::NotARouter);

    let (c, script) = connected_client();
    push_reply(&script, reply(0, vec![doc(vec![("msg", Value::Str("isdbgridx".to_string()))])]));
    assert_eq!(ShardController::new(c).err().unwrap().0.kind, ErrorKind::NotARouter);

    let (c, _script) = connected_client();
    assert_eq!(ShardController::new(c).err().unwrap().0.kind, ErrorKind::MalformedReply);
}

#[test]
fn enable_sharding_unknown_db_is_not_found() {
    let (mut sc, script) = controller();
    push_reply(&script, reply(0, vec![listing(&["admin", "shop"])]));
    let e = sc.enable_sharding(&"nonexistent_db".to_string()).unwrap_err();
    assert_eq!(e.kind, ErrorKind::EntityNotFound);
    let log = logged(&script);
    assert_eq!(log.len(), 2);
    assert_eq!(log[1].1, "admin listDatabases");
}

#[test]
fn enable_sharding_existing_db() {
    let (mut sc, script) = controller();
    push_reply(&script, reply(0, vec![listing(&["admin", "shop"])]));
    push_reply(&script, reply(0, vec![ok_doc(Value::Int64(1))]));
    assert!(sc.enable_sharding(&"shop".to_string()).is_ok());
    assert_eq!(logged(&script)[2], (2, "shop enableSharding shop".to_string()));

    push_reply(&script, reply(0, vec![listing(&["shop"])]));
    push_reply(&script, reply(0, vec![ok_doc(Value::Int32(0))]));
    let e = sc.enable_sharding(&"shop".to_string()).unwrap_err();
    assert_eq!(e.kind, ErrorKind::CommandNotOk);
    assert_eq!(e.detail, "the server returned ok: 0");
}

#[test]
fn add_shard_issues_command() {
    let (mut sc, script) = controller();
    push_reply(&script, reply(0, vec![ok_doc(Value::Double(DOUBLE_ONE_BITS))]));
    assert!(sc.add_shard(&"host1:27018".to_string()).is_ok());
    assert_eq!(logged(&script)[1].1, "admin addShard host1:27018");

    push_reply(&script, reply(0, vec![ok_doc(Value::Int32(0))]));
    let e = sc.add_shard(&"rs0/host2:27018".to_string()).unwrap_err();
    assert_eq!(e.kind, ErrorKind::CommandNotOk);
    assert_eq!(logged(&script)[2].1, "admin addShard rs0/host2:27018");

    push_reply(&script, reply(0, vec![doc(vec![("errmsg", Value::Str("no".to_string()))])]));
    assert_eq!(sc.add_shard(&"host3".to_string()).unwrap_err().kind, ErrorKind::CommandNotOk);
}

#[test]
fn shard_collection_issues_namespace() {
    let (mut sc, script) = controller();
    push_reply(&script, reply(0, vec![ok_doc(Value::Int32(1))]));
    let key = doc(vec![("user_id", Value::Int32(1))]);
    assert!(sc.shard_collection(&"shop".to_string(), &"orders".to_string(), key, true).is_ok());
    assert_eq!(logged(&script)[1].1, "shop shardCollection shop.orders { user_id: 1 } true");
}

#[test]
fn namespace_joins_with_dot() {
    assert_eq!(namespace(&"shop".to_string(), &"orders".to_string()), "shop.orders");
    assert_eq!(namespace(&"".to_string(), &"".to_string()), ".");
}

#[test]
fn require_database_lookup() {
    let names = vec!["a".to_string(), "b".to_string()];
    assert!(require_database(&names, &"b".to_string()).is_ok());
    assert_eq!(require_database(&names, &"c".to_string()).unwrap_err().kind, ErrorKind::EntityNotFound);
    assert_eq!(require_database(&vec![], &"a".to_string()).unwrap_err().kind, ErrorKind::EntityNotFound);
}

#[test]
fn status_report_text() {
    let text = status_report(&"{ v: 3 }".to_string(), &vec!["s1".to_string(), "s2".to_string()]);
    assert_eq!(text, "--- Sharding Status ---\n  sharding version: { v: 3 }\n  shards:\ns1\ns2\n");
    let text = status_report(&"x".to_string(), &vec![]);
    assert_eq!(text, "--- Sharding Status ---\n  sharding version: x\n  shards:\n");
}

#[test]
fn status_reads_version_and_shards() {
    let (mut sc, script) = controller();
    push_reply(&script, reply(0, vec![doc(vec![("currentVersion", Value::Int32(3))])]));
    push_reply(
        &script,
        reply(0, vec![doc(vec![("_id", Value::Str("shard0".to_string())), ("host", Value::Str("h:1".to_string()))])]),
    );
    let text = sc.status(false).unwrap();
    assert_eq!(
        text,
        "--- Sharding Status ---\n  sharding version: { currentVersion: 3 }\n  shards:\n{ _id: \"shard0\", host: \"h:1\" }\n"
    );
    let log = logged(&script);
    assert_eq!(log[1].1, "query config.version {  } 1");
    assert_eq!(log[2].1, "query config.shards {  } 0");
}

#[test]
fn status_without_version_is_not_found() {
    let (mut sc, script) = controller();
    push_reply(&script, reply(0, vec![]));
    assert_eq!(sc.status(true).unwrap_err().kind, ErrorKind::EntityNotFound);
}

#[test]
fn add_shard_tag_unknown_shard() {
    let (mut sc, script) = controller();
    push_reply(&script, reply(0, vec![]));
    let e = sc.add_shard_tag(&"shard9".to_string(), &"east".to_string()).unwrap_err();
    assert_eq!(e.kind, ErrorKind::EntityNotFound);
    assert_eq!(logged(&script).len(), 2);
}

#[test]
fn add_shard_tag_updates_tags() {
    let (mut sc, script) = controller();
    push_reply(&script, reply(0, vec![doc(vec![("_id", Value::Str("shard0".to_string()))])]));
    push_reply(&script, reply(0, vec![ok_doc(Value::Int32(1))]));
    assert!(sc.add_shard_tag(&"shard0".to_string(), &"east".to_string()).is_ok());
    let log = logged(&script);
    assert_eq!(log[1].1, "query config.shards { _id: \"shard0\" } 1");
    assert_eq!(log[2].1, "update config.shards { _id: \"shard0\" } { $addToSet: { tags: \"east\" } }");
    assert_eq!(log[3].1, "config getLastError 0");
    assert_eq!(sc.into_client().get_requestId(), 4);
}

#[test]
fn find_options_defaults() {
    let o = FindOptions::new();
    assert_eq!(o.skip, 0);
    assert_eq!(o.limit, 0);
    assert!(o.cursor_type == CursorType::NonTailable);
    assert_eq!(o.batch_size, DEFAULT_BATCH_SIZE);
    assert!(o.comment.is_none() && o.sort.is_none() && o.read_preference.is_none());
    let o = o.with_limit(7);
    assert_eq!(o.limit, 7);
    assert_eq!(o.batch_size, 20);
}

#[test]
fn wrapped_error_keeps_cause() {
    let inner = MongoErr::new(ErrorKind::TransportFailure, "conn", "io", "reset");
    let e = MongoErr::wrap(ErrorKind::WriteConcernError, "outer", "write concern error", inner);
    assert_eq!(e.call, "outer");
    assert_eq!(e.detail, "reset");
    assert_eq!(e.cause.unwrap().call, "conn");
}

#[test]
fn render_shows_the_chain() {
    let inner = MongoErr::new(ErrorKind::TransportFailure, "conn", "io", "reset");
    let e = MongoErr::wrap(ErrorKind::WriteConcernError, "outer", "write concern error", inner);
    assert_eq!(e.render(), "outer: write concern error: reset\n-->\nconn: io: reset");
    let single = MongoErr::new(ErrorKind::CommandNotOk, "shard::add_shard", "error adding shard", "the server returned ok: 0");
    assert_eq!(single.render(), "shard::add_shard: error adding shard: the server returned ok: 0");
}

#[test]
fn empty_seed_list_fails_to_connect() {
    let (codec, _script) = mock();
    let mut c: Client<MockConn, MockCodec> = Client::new(codec);
    let e = c.connect_to_rs(Vec::new()).unwrap_err();
    assert_eq!(e.kind, ErrorKind::TransportFailure);
    assert_eq!(e.call, "client::connect_to_rs");
}

#[test]
fn not_ok_errors_name_their_subject() {
    let (mut sc, script) = controller();
    push_reply(&script, reply(0, vec![ok_doc(Value::Int32(0))]));
    let e = sc.add_shard(&"host1:27018".to_string()).unwrap_err();
    assert_eq!(e.category, "error adding shard at host1:27018");
    assert_eq!(e.detail, "the server returned ok: 0");

    push_reply(&script, reply(0, vec![Document::new()]));
    let key = doc(vec![("k", Value::Int32(1))]);
    let e = sc.shard_collection(&"shop".to_string(), &"orders".to_string(), key, false).unwrap_err();
    assert_eq!(e.kind, ErrorKind::CommandNotOk);
    assert_eq!(e.category, "error sharding collection shop.orders");

    push_reply(&script, reply(0, vec![listing(&["shop"])]));
    push_reply(&script, reply(0, vec![ok_doc(Value::Int64(2))]));
    let e = sc.enable_sharding(&"shop".to_string()).unwrap_err();
    assert_eq!(e.category, "error enabling sharding on shop");
}

#[test]
fn failed_listing_sends_nothing_more() {
    let (mut sc, script) = controller();
    push_reply(&script, reply(QUERY_FAILURE, vec![]));
    let e = sc.enable_sharding(&"shop".to_string()).unwrap_err();
    assert_eq!(e.kind, ErrorKind::QueryFailure);
    assert_eq!(logged(&script).len(), 2);
}

#[test]
fn failed_lookup_sends_no_update() {
    let (mut sc, script) = controller();
    push_reply(&script, reply(QUERY_FAILURE, vec![]));
    let e = sc.add_shard_tag(&"shard0".to_string(), &"east".to_string()).unwrap_err();
    assert_eq!(e.kind, ErrorKind::QueryFailure);
    assert_eq!(logged(&script).len(), 2);
}

#[test]
fn failed_acknowledgment_wraps_its_cause() {
    let (mut c, script) = connected_client();
    push_reply(&script, reply(QUERY_FAILURE, vec![]));
    let insert = Operation::Update {
        db: "test".to_string(),
        coll: "things".to_string(),
        selector: Document::new(),
        update: Document::new(),
    };
    let e = c.dispatch(insert, no_wc(), false).unwrap_err();
    assert_eq!(e.kind, ErrorKind::WriteConcernError);
    assert_eq!(e.cause.unwrap().kind, ErrorKind::QueryFailure);
}

#[test]
fn adopted_connection_is_reachable() {
    let (codec, _script) = mock();
    let mut c: Client<MockConn, MockCodec> = Client::new(codec);
    assert!(c.get_connection().is_none());
    c.connect_to_rs(vec![("a".to_string(), 27017)]).unwrap();
    assert!(c.get_connection().unwrap().reachable);
    c.disconnect().unwrap();
    assert!(c.get_connection().is_none());
}
