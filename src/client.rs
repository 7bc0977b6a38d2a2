use vstd::prelude::*;
use vstd::string::*;
use crate::document::{command_ok, command_succeeded, Document, Value};
use crate::error::{ErrorKind, MongoErr};
use crate::ops::{is_command, Command, Operation, WriteConcernSpec};
use crate::reply::{classify_reply, reply_error, DecodedReply};

verus! {

/// A stream connection to one server node or to a replica set.
pub trait Connection: Sized {
    /// An unopened connection to a single node.
    fn node(address: String, port: usize) -> Self;

    /// An unopened connection to a replica set, from a seed list of hosts.
    fn replica_set(seed: Vec<(String, usize)>) -> Self;

    fn connect(&mut self) -> Result<(), MongoErr>;

    fn send(&mut self, bytes: Vec<u8>, expect_reply: bool) -> Result<(), MongoErr>;

    fn recv(&mut self, expect_reply: bool) -> Result<Vec<u8>, MongoErr>;

    fn disconnect(&mut self) -> Result<(), MongoErr>;
}

/// Message framing and document encoding.
pub trait Codec: Sized {
    /// Frames `op` as a wire message carrying `request_id`.
    fn encode(&self, request_id: i32, op: &Operation) -> Vec<u8>;

    fn decode_reply(&self, bytes: &Vec<u8>) -> Result<DecodedReply, MongoErr>;

    /// Renders a document as readable text.
    fn render(&self, doc: &Document) -> String;
}

/// The request dispatcher: owns at most one connection and numbers requests.
///
/// Every exchange takes `&mut self`, so the send and receive of one request
/// and the counter step that numbers it happen under one exclusive borrow;
/// callers that share a client across threads serialize through a lock
/// around it.
pub struct Client<C: Connection, D: Codec> {
    conn: Option<C>,
    cur_request_id: i32,
    codec: D,
    issued: Ghost<Seq<(i32, Operation)>>,
    received: Ghost<Seq<DecodedReply>>,
}

/// The document a reply carries as a command result: its first one, if the
/// reply raises no flag error and holds any.
pub open spec fn reply_doc(rep: DecodedReply) -> Option<Document> {
    if reply_error(rep.flags).is_none() && rep.docs@.len() > 0 {
        Some(rep.docs@[0])
    } else {
        None
    }
}

/// Whether a reply carries a command result that reports success.
pub open spec fn command_reply_ok(rep: DecodedReply) -> bool {
    match reply_doc(rep) {
        Some(d) => command_succeeded(d),
        None => false,
    }
}

/// The error categories that a read-style exchange can end in.
pub open spec fn read_error_kind(k: ErrorKind) -> bool {
    k == ErrorKind::NotConnected || k == ErrorKind::TransportFailure || k
        == ErrorKind::MalformedReply || k == ErrorKind::CursorNotFound || k
        == ErrorKind::QueryFailure
}

pub open spec fn admin_db() -> Seq<char> {
    seq!['a', 'd', 'm', 'i', 'n']
}

/// Turns the outcome of the acknowledgment command into the outcome of a
/// write: success with no payload exactly when the command reports ok.
pub fn acknowledge(ack: Result<Document, MongoErr>) -> (r: Result<Option<DecodedReply>, MongoErr>)
    ensures
        match r {
            Ok(v) => v.is_none() && (ack matches Ok(d) && command_succeeded(d)),
            Err(e) => e.kind == ErrorKind::WriteConcernError && (ack matches Ok(d)
                ==> !command_succeeded(d) && e.cause.is_none() && e.detail@
                == "the server returned ok: 0"@),
        },
        ack matches Err(e0) ==> (r matches Err(e) && e.cause == Some(Box::new(e0))),
{
    match ack {
        Ok(d) => {
            if command_ok(&d) {
                Ok(None)
            } else {
                Err(
                    MongoErr::new(
                        ErrorKind::WriteConcernError,
                        "client::dispatch",
                        "write concern error",
                        "the server returned ok: 0",
                    ),
                )
            }
        },
        Err(e) => Err(
            MongoErr::wrap(ErrorKind::WriteConcernError, "client::dispatch", "write concern error", e),
        ),
    }
}

pub open spec fn databases_key() -> Seq<char> {
    seq!['d', 'a', 't', 'a', 'b', 'a', 's', 'e', 's']
}

pub open spec fn name_key() -> Seq<char> {
    seq!['n', 'a', 'm', 'e']
}

/// The name that one entry of a database listing holds, if it is well formed.
pub open spec fn entry_name(v: Value) -> Option<Seq<char>> {
    match v {
        Value::Doc(d) => match d.find_spec(name_key()) {
            Some(Value::Str(s)) => Some(s@),
            _ => None,
        },
        _ => None,
    }
}

/// The names of a database listing, in order, if every entry is well formed.
pub open spec fn entry_names(items: Seq<Value>) -> Option<Seq<Seq<char>>>
    decreases items.len(),
{
    if items.len() == 0 {
        Some(Seq::empty())
    } else {
        match entry_names(items.drop_last()) {
            Some(ns) => match entry_name(items.last()) {
                Some(n) => Some(ns.push(n)),
                None => None,
            },
            None => None,
        }
    }
}

/// The database names of a `listDatabases` reply, if it has the expected shape.
pub open spec fn listed_databases(reply: Document) -> Option<Seq<Seq<char>>> {
    match reply.find_spec(databases_key()) {
        Some(Value::Array(items)) => entry_names(items@),
        _ => None,
    }
}

proof fn lemma_entry_names_prefix_none(items: Seq<Value>, j: int)
    requires
        0 <= j <= items.len(),
        entry_names(items.take(j)).is_none(),
    ensures
        entry_names(items).is_none(),
    decreases items.len(),
{
    if j == items.len() {
        assert(items.take(j) =~= items);
    } else {
        assert(items.drop_last().take(j) =~= items.take(j));
        lemma_entry_names_prefix_none(items.drop_last(), j);
    }
}

/// Extracts the database names from a `listDatabases` reply.
pub fn database_names(reply: &Document) -> (r: Result<Vec<String>, MongoErr>)
    ensures
        match r {
            Ok(names) => listed_databases(*reply) == Some(names@.map_values(|s: String| s@)),
            Err(e) => listed_databases(*reply).is_none() && e.kind == ErrorKind::MalformedReply,
        },
{
    let key = String::from_str("databases");
    let name = String::from_str("name");
    proof {
        reveal_strlit("databases");
        reveal_strlit("name");
    }
    assert(key@ =~= databases_key());
    assert(name@ =~= name_key());
    let items = match reply.find(&key) {
        Some(Value::Array(items)) => items,
        _ => {
            return Err(
                MongoErr::new(
                    ErrorKind::MalformedReply,
                    "client::get_dbs",
                    "could not get databases",
                    "missing or malformed \"databases\" field in reply",
                ),
            );
        },
    };
    let mut names: Vec<String> = Vec::new();
    let mut i: usize = 0;
    assert(items@.take(0) =~= Seq::<Value>::empty());
    assert(names@.map_values(|s: String| s@) =~= Seq::<Seq<char>>::empty());
    while i < items.len()
        invariant
            i <= items@.len(),
            key@ == databases_key(),
            name@ == name_key(),
            reply.find_spec(databases_key()) == Some(Value::Array(*items)),
            entry_names(items@.take(i as int)) == Some(names@.map_values(|s: String| s@)),
        decreases items@.len() - i,
    {
        assert(items@.take(i + 1).drop_last() =~= items@.take(i as int));
        assert(items@.take(i + 1).last() == items@[i as int]);
        let found = match &items[i] {
            Value::Doc(d) => match d.find(&name) {
                Some(Value::Str(s)) => Some(s.clone()),
                _ => None,
            },
            _ => None,
        };
        match found {
            Some(s) => {
                let ghost before = names@;
                names.push(s);
                assert(names@.map_values(|s: String| s@) =~= before.map_values(|s: String| s@).push(
                    s@,
                ));
            },
            None => {
                proof {
                    lemma_entry_names_prefix_none(items@, i + 1);
                }
                return Err(
                    MongoErr::new(
                        ErrorKind::MalformedReply,
                        "client::get_dbs",
                        "could not extract database name",
                        "an entry of \"databases\" has no string \"name\" field",
                    ),
                );
            },
        }
        i = i + 1;
    }
    assert(items@.take(items@.len() as int) =~= items@);
    Ok(names)
}

/// The first document of a reply, which carries a command's result.
fn first_document(reply: DecodedReply) -> (r: Result<Document, MongoErr>)
    ensures
        match r {
            Ok(d) => reply.docs@.len() > 0 && d == reply.docs@[0],
            Err(e) => reply.docs@.len() == 0 && e.kind == ErrorKind::MalformedReply,
        },
{
    let mut docs = reply.docs;
    if docs.len() == 0 {
        Err(
            MongoErr::new(
                ErrorKind::MalformedReply,
                "client::run_command",
                "empty reply",
                "the server returned no document",
            ),
        )
    } else {
        Ok(docs.remove(0))
    }
}

impl<C: Connection, D: Codec> Client<C, D> {
    /// The owned connection, if any.
    pub closed spec fn connection(&self) -> Option<C> {
        self.conn
    }

    pub open spec fn connected(&self) -> bool {
        self.connection().is_some()
    }

    /// The first unused request id.
    pub closed spec fn next_id(&self) -> int {
        self.cur_request_id as int
    }

    /// Every message encoded so far, with the request id it carries.
    pub closed spec fn issued(&self) -> Seq<(i32, Operation)> {
        self.issued@
    }

    /// Every reply decoded so far, before its flags were classified.
    pub closed spec fn received(&self) -> Seq<DecodedReply> {
        self.received@
    }

    /// Whether `self` has decoded exactly one reply more than `before`.
    pub open spec fn one_more_reply(&self, before: &Self) -> bool {
        &&& self.received().len() == before.received().len() + 1
        &&& self.received().subrange(0, before.received().len() as int) == before.received()
    }

    /// Whether `n` more request ids can be handed out.
    pub open spec fn has_ids(&self, n: int) -> bool {
        0 <= self.next_id() && self.next_id() + n <= i32::MAX
    }

    /// Whether the messages issued so far carry the ids 0, 1, ... in order,
    /// with the counter just past the last.
    pub open spec fn ids_dense(&self) -> bool {
        &&& self.issued().len() == self.next_id()
        &&& forall|k: int| 0 <= k < self.issued().len() ==> self.issued()[k].0 == k
    }

    /// Whether `self` extends `before` with the connection still present or
    /// still absent.
    pub open spec fn issued_after(&self, before: &Self) -> bool {
        &&& self.connected() == before.connected()
        &&& self.extends(before)
    }

    /// Whether `self` differs from `before` by messages issued, with the
    /// next ids in turn, and by replies decoded, both logs kept as they were.
    pub open spec fn extends(&self, before: &Self) -> bool {
        &&& before.received().len() <= self.received().len()
        &&& self.received().subrange(0, before.received().len() as int) == before.received()
        &&& before.issued().len() <= self.issued().len()
        &&& self.issued().subrange(0, before.issued().len() as int) == before.issued()
        &&& self.next_id() == before.next_id() + (self.issued().len() - before.issued().len())
        &&& forall|k: int|
            before.issued().len() <= k < self.issued().len() ==> self.issued()[k].0
                == before.next_id() + (k - before.issued().len())
    }

    /// An empty client: not connected, with its counter at 0.
    pub fn new(codec: D) -> (c: Self)
        ensures
            !c.connected(),
            c.next_id() == 0,
            c.issued().len() == 0,
            c.received().len() == 0,
            c.ids_dense(),
    {
        Client { conn: None, cur_request_id: 0, codec, issued: Ghost(Seq::empty()), received: Ghost(Seq::empty()) }
    }

    /// The adopted connection, if any, for topology-specific operations.
    pub fn get_connection(&self) -> (r: Option<&C>)
        ensures
            match r {
                Some(c) => self.connection() == Some(*c),
                None => self.connection().is_none(),
            },
    {
        self.conn.as_ref()
    }

    pub fn codec(&self) -> &D {
        &self.codec
    }

    fn connect_to_conn(&mut self, call: &str, conn: C) -> (r: Result<(), MongoErr>)
        ensures
            final(self).next_id() == old(self).next_id(),
            final(self).issued() == old(self).issued(),
            final(self).received() == old(self).received(),
            final(self).extends(&*old(self)),
            old(self).connected() ==> final(self).connection() == old(self).connection()
                && (r matches Err(e) && e.kind == ErrorKind::AlreadyConnected),
            !old(self).connected() ==> match r {
                Ok(_) => final(self).connected(),
                Err(e) => !final(self).connected() && e.kind == ErrorKind::TransportFailure
                    && e.call@ == call@ && e.cause.is_some(),
            },
    {
        proof {
            assert(self.issued@.subrange(0, self.issued@.len() as int) =~= self.issued@);
            assert(self.received@.subrange(0, self.received@.len() as int) =~= self.received@);
        }
        if self.conn.is_some() {
            return Err(
                MongoErr::new(
                    ErrorKind::AlreadyConnected,
                    call,
                    "already connected",
                    "cannot connect if already connected; please first disconnect",
                ),
            );
        }
        let mut conn = conn;
        match conn.connect() {
            Ok(_) => {
                self.conn = Some(conn);
                Ok(())
            },
            Err(e) => Err(MongoErr::wrap(ErrorKind::TransportFailure, call, "connecting", e)),
        }
    }

    /// Connects to a single server.
    pub fn connect(&mut self, address: String, port: usize) -> (r: Result<(), MongoErr>)
        ensures
            final(self).next_id() == old(self).next_id(),
            final(self).issued() == old(self).issued(),
            final(self).received() == old(self).received(),
            final(self).extends(&*old(self)),
            old(self).connected() ==> final(self).connection() == old(self).connection()
                && (r matches Err(e) && e.kind == ErrorKind::AlreadyConnected),
            !old(self).connected() ==> match r {
                Ok(_) => final(self).connected(),
                Err(e) => !final(self).connected() && e.kind == ErrorKind::TransportFailure
                    && e.call@ == "client::connect"@ && e.cause.is_some(),
            },
    {
        self.connect_to_conn("client::connect", C::node(address, port))
    }

    /// Connects to a replica set through a seed list of hosts.
    pub fn connect_to_rs(&mut self, seed: Vec<(String, usize)>) -> (r: Result<(), MongoErr>)
        ensures
            final(self).next_id() == old(self).next_id(),
            final(self).issued() == old(self).issued(),
            final(self).received() == old(self).received(),
            final(self).extends(&*old(self)),
            old(self).connected() ==> final(self).connection() == old(self).connection()
                && (r matches Err(e) && e.kind == ErrorKind::AlreadyConnected),
            !old(self).connected() ==> match r {
                Ok(_) => final(self).connected(),
                Err(e) => !final(self).connected() && e.kind == ErrorKind::TransportFailure
                    && e.call@ == "client::connect_to_rs"@ && e.cause.is_some(),
            },
    {
        self.connect_to_conn("client::connect_to_rs", C::replica_set(seed))
    }

    /// Releases the connection; succeeds at once when there is none.
    pub fn disconnect(&mut self) -> (r: Result<(), MongoErr>)
        ensures
            !final(self).connected(),
            final(self).next_id() == old(self).next_id(),
            final(self).issued() == old(self).issued(),
            final(self).received() == old(self).received(),
            final(self).extends(&*old(self)),
            !old(self).connected() ==> r is Ok,
    {
        proof {
            assert(self.issued@.subrange(0, self.issued@.len() as int) =~= self.issued@);
            assert(self.received@.subrange(0, self.received@.len() as int) =~= self.received@);
        }
        match self.conn.take() {
            None => Ok(()),
            Some(c) => {
                let mut c = c;
                c.disconnect()
            },
        }
    }

    /// The first unused request id, without consuming it.
    #[allow(non_snake_case)]
    pub fn get_requestId(&self) -> (r: i32)
        ensures
            r == self.next_id(),
    {
        self.cur_request_id
    }

    /// Consumes the first unused request id and returns it.
    #[allow(non_snake_case)]
    pub fn inc_requestId(&mut self) -> (r: i32)
        requires
            old(self).has_ids(1),
        ensures
            r == old(self).next_id(),
            final(self).next_id() == old(self).next_id() + 1,
            final(self).issued() == old(self).issued(),
            final(self).received() == old(self).received(),
            final(self).connection() == old(self).connection(),
    {
        let id = self.cur_request_id;
        self.cur_request_id = id + 1;
        id
    }
    fn send_op(&mut self, op: Operation, expect_reply: bool) -> (r: Result<(), MongoErr>)
        requires
            old(self).has_ids(1),
        ensures
            final(self).issued() == old(self).issued().push((old(self).next_id() as i32, op)),
            final(self).next_id() == old(self).next_id() + 1,
            final(self).connected() == old(self).connected(),
            final(self).issued_after(&*old(self)),
            final(self).received() == old(self).received(),
            match r {
                Ok(_) => old(self).connected(),
                Err(e) => (!old(self).connected() && e.kind == ErrorKind::NotConnected) || (old(self).connected()
                    && e.kind == ErrorKind::TransportFailure && e.call@ == "client::send"@
                    && e.cause.is_some()),
            },
    {
        let id = self.inc_requestId();
        let bytes = self.codec.encode(id, &op);
        self.issued = Ghost(self.issued@.push((id, op)));
        assert(self.issued@.subrange(0, old(self).issued@.len() as int) =~= old(self).issued@);
        assert(self.received@.subrange(0, old(self).received@.len() as int) =~= old(self).received@);
        match self.conn.take() {
            None => Err(
                MongoErr::new(
                    ErrorKind::NotConnected,
                    "client::send",
                    "client not connected",
                    "attempted to send on nonexistent connection",
                ),
            ),
            Some(c) => {
                let mut c = c;
                let sent = c.send(bytes, expect_reply);
                self.conn = Some(c);
                match sent {
                    Ok(_) => Ok(()),
                    Err(e) => Err(
                        MongoErr::wrap(ErrorKind::TransportFailure, "client::send", "sending", e),
                    ),
                }
            },
        }
    }

    fn receive(&mut self) -> (r: Result<DecodedReply, MongoErr>)
        ensures
            final(self).issued() == old(self).issued(),
            final(self).next_id() == old(self).next_id(),
            final(self).connected() == old(self).connected(),
            final(self).received() == old(self).received() || final(self).one_more_reply(&*old(self)),
            final(self).received() == old(self).received() ==> (r matches Err(e) && read_error_kind(e.kind)),
            old(self).connected() ==> !(r matches Err(e) && e.kind == ErrorKind::NotConnected),
            final(self).one_more_reply(&*old(self)) ==> match r {
                Ok(v) => v == final(self).received().last() && reply_error(v.flags).is_none(),
                Err(e) => reply_error(final(self).received().last().flags) == Some(e.kind),
            },
    {
        let bytes = match self.conn.take() {
            None => {
                return Err(
                    MongoErr::new(
                        ErrorKind::NotConnected,
                        "client::recv",
                        "client not connected",
                        "attempted to receive on nonexistent connection",
                    ),
                );
            },
            Some(c) => {
                let mut c = c;
                let got = c.recv(true);
                self.conn = Some(c);
                match got {
                    Ok(b) => b,
                    Err(e) => {
                        return Err(
                            MongoErr::wrap(
                                ErrorKind::TransportFailure,
                                "client::recv",
                                "receiving",
                                e,
                            ),
                        );
                    },
                }
            },
        };
        let reply = match self.codec.decode_reply(&bytes) {
            Ok(m) => {
                self.received = Ghost(self.received@.push(m));
                assert(self.received@.subrange(0, old(self).received@.len() as int) =~= old(self).received@);
                m
            },
            Err(e) => {
                return Err(
                    MongoErr::wrap(ErrorKind::MalformedReply, "client::recv", "decoding reply", e),
                );
            },
        };
        classify_reply(reply)
    }

    /// Sends a read-style operation and collects its classified reply.
    fn query(&mut self, op: Operation) -> (r: Result<DecodedReply, MongoErr>)
        requires
            old(self).has_ids(1),
        ensures
            final(self).issued() == old(self).issued().push((old(self).next_id() as i32, op)),
            final(self).next_id() == old(self).next_id() + 1,
            final(self).connected() == old(self).connected(),
            final(self).issued_after(&*old(self)),
            !old(self).connected() ==> (r matches Err(e) && e.kind == ErrorKind::NotConnected),
            final(self).received() == old(self).received() || final(self).one_more_reply(&*old(self)),
            final(self).received() == old(self).received() ==> (r matches Err(e) && read_error_kind(e.kind)),
            old(self).connected() ==> !(r matches Err(e) && e.kind == ErrorKind::NotConnected),
            final(self).one_more_reply(&*old(self)) ==> match r {
                Ok(v) => v == final(self).received().last() && reply_error(v.flags).is_none(),
                Err(e) => reply_error(final(self).received().last().flags) == Some(e.kind),
            },
    {
        match self.send_op(op, true) {
            Ok(_) => self.receive(),
            Err(e) => Err(e),
        }
    }

    /// Sends an encoded operation. A write-style operation is then confirmed
    /// by a `getLastError` command against `wc.db`, carrying `wc.concerns`,
    /// and yields no reply; a read-style one yields its classified reply.
    pub fn dispatch(&mut self, op: Operation, wc: WriteConcernSpec, is_read: bool) -> (r: Result<
        Option<DecodedReply>,
        MongoErr,
    >)
        requires
            old(self).has_ids(if is_read { 1 } else { 2 }),
        ensures
            final(self).issued_after(&*old(self)),
            final(self).issued().len() > old(self).issued().len(),
            final(self).issued()[old(self).issued().len() as int].1 == op,
            !old(self).connected() ==> (r matches Err(e) && e.kind == ErrorKind::NotConnected)
                && final(self).issued().len() == old(self).issued().len() + 1,
            is_read ==> final(self).issued().len() == old(self).issued().len() + 1,
            is_read ==> match r {
                Ok(v) => (v matches Some(m) && reply_error(m.flags).is_none()),
                Err(e) => read_error_kind(e.kind),
            },
            !is_read ==> match r {
                Ok(v) => v.is_none() && final(self).issued().len() == old(self).issued().len() + 2,
                Err(e) => e.kind == ErrorKind::NotConnected || e.kind == ErrorKind::TransportFailure
                    || e.kind == ErrorKind::WriteConcernError,
            },
            final(self).received() == old(self).received() || final(self).one_more_reply(&*old(self)),
            final(self).received() == old(self).received() ==> r is Err,
            !is_read && final(self).one_more_reply(&*old(self)) ==> final(self).issued().len()
                == old(self).issued().len() + 2,
            is_read && final(self).one_more_reply(&*old(self)) ==> match r {
                Ok(v) => (v matches Some(m) && m == final(self).received().last()),
                Err(e) => reply_error(final(self).received().last().flags) == Some(e.kind),
            },
            !is_read ==> (r is Ok <==> (final(self).issued().len() == old(self).issued().len() + 2
                && final(self).one_more_reply(&*old(self)) && command_reply_ok(
                final(self).received().last(),
            ))),
            !is_read && final(self).issued().len() == old(self).issued().len() + 2
                ==> final(self).issued()[old(self).issued().len() + 1int].1 == (Operation::Command {
                db: wc.db,
                command: Command::GetLastError(wc.concerns),
            }),
            old(self).connected() ==> !(r matches Err(e) && e.kind == ErrorKind::NotConnected),
            !is_read && final(self).issued().len() == old(self).issued().len() + 1 ==> r is Err
                && final(self).received() == old(self).received() && (old(self).connected() ==> (
                r matches Err(e) && e.kind == ErrorKind::TransportFailure && e.cause.is_some())),
            !is_read && final(self).issued().len() == old(self).issued().len() + 2 ==> (r matches Err(e)
                ==> e.kind == ErrorKind::WriteConcernError && (!final(self).one_more_reply(&*old(self))
                ==> (e.cause matches Some(c) && read_error_kind(c.kind)))),
    {
        if is_read {
            match self.query(op) {
                Ok(m) => Ok(Some(m)),
                Err(e) => Err(e),
            }
        } else {
            let ghost start = *self;
            match self.send_op(op, false) {
                Ok(_) => {},
                Err(e) => {
                    return Err(e);
                },
            }
            let ack = Operation::Command { db: wc.db, command: Command::GetLastError(wc.concerns) };
            let ghost mid = *self;
            let confirmed = match self.query(ack) {
                Ok(reply) => first_document(reply),
                Err(e) => Err(e),
            };
            proof {
                lemma_extends_trans(start, mid, *self);
            }
            acknowledge(confirmed)
        }
    }

    /// Runs `command` against database `db` and returns the result document.
    pub fn run_command(&mut self, db: &String, command: Command) -> (r: Result<Document, MongoErr>)
        requires
            old(self).has_ids(1),
        ensures
            final(self).issued_after(&*old(self)),
            final(self).issued().len() == old(self).issued().len() + 1,
            is_command(final(self).issued().last().1, db@, command),
            !old(self).connected() ==> (r matches Err(e) && e.kind == ErrorKind::NotConnected),
            old(self).connected() ==> !(r matches Err(e) && e.kind == ErrorKind::NotConnected),
            r matches Err(e) ==> read_error_kind(e.kind),
            final(self).received() == old(self).received() || final(self).one_more_reply(&*old(self)),
            r matches Ok(d) ==> final(self).one_more_reply(&*old(self)) && reply_doc(
                final(self).received().last(),
            ) == Some(d),
            final(self).one_more_reply(&*old(self)) && reply_doc(
                final(self).received().last(),
            ).is_some() ==> r is Ok,
    {
        let op = Operation::Command { db: db.clone(), command };
        match self.query(op) {
            Ok(reply) => first_document(reply),
            Err(e) => Err(e),
        }
    }

    /// Lists the names of the databases on the server.
    pub fn get_dbs(&mut self) -> (r: Result<Vec<String>, MongoErr>)
        requires
            old(self).has_ids(1),
        ensures
            final(self).issued_after(&*old(self)),
            final(self).issued().len() == old(self).issued().len() + 1,
            is_command(final(self).issued().last().1, admin_db(), Command::ListDatabases),
            !old(self).connected() ==> (r matches Err(e) && e.kind == ErrorKind::NotConnected),
            old(self).connected() ==> !(r matches Err(e) && e.kind == ErrorKind::NotConnected),
            r matches Err(e) ==> read_error_kind(e.kind),
            final(self).received() == old(self).received() || final(self).one_more_reply(&*old(self)),
            r matches Ok(names) ==> final(self).one_more_reply(&*old(self)) && (reply_doc(
                final(self).received().last(),
            ) matches Some(d) && listed_databases(d) == Some(names@.map_values(|s: String| s@))),
            final(self).one_more_reply(&*old(self)) && (reply_doc(
                final(self).received().last(),
            ) matches Some(d) && listed_databases(d).is_some()) ==> r is Ok,
    {
        let admin = String::from_str("admin");
        proof {
            reveal_strlit("admin");
        }
        assert(admin@ =~= admin_db());
        match self.run_command(&admin, Command::ListDatabases) {
            Ok(doc) => database_names(&doc),
            Err(e) => Err(e),
        }
    }

    /// Drops database `db`.
    pub fn drop_db(&mut self, db: &String) -> (r: Result<(), MongoErr>)
        requires
            old(self).has_ids(1),
        ensures
            final(self).issued_after(&*old(self)),
            final(self).issued().len() == old(self).issued().len() + 1,
            is_command(final(self).issued().last().1, db@, Command::DropDatabase),
            !old(self).connected() ==> (r matches Err(e) && e.kind == ErrorKind::NotConnected),
            old(self).connected() ==> !(r matches Err(e) && e.kind == ErrorKind::NotConnected),
            r matches Err(e) ==> read_error_kind(e.kind),
            final(self).received() == old(self).received() || final(self).one_more_reply(&*old(self)),
            r is Ok <==> (final(self).one_more_reply(&*old(self)) && reply_doc(
                final(self).received().last(),
            ).is_some()),
    {
        match self.run_command(db, Command::DropDatabase) {
            Ok(_) => Ok(()),
            Err(e) => Err(e),
        }
    }
}

/// Request ids are handed out densely: a client whose issued messages carry
/// the ids 0, 1, ..., n - 1 still has that property after any further
/// messages, now numbered 0, 1, ..., m - 1 in the order they were issued.
pub proof fn lemma_request_ids_dense<C: Connection, D: Codec>(
    before: Client<C, D>,
    after: Client<C, D>,
)
    requires
        before.ids_dense(),
        after.extends(&before),
    ensures
        after.ids_dense(),
        forall|i: int, j: int|
            0 <= i < j < after.issued().len() ==> after.issued()[i].0 < after.issued()[j].0,
{
    assert forall|k: int| 0 <= k < after.issued().len() implies after.issued()[k].0 == k by {
        if k < before.issued().len() {
            assert(after.issued()[k] == after.issued().subrange(0, before.issued().len() as int)[k]);
        }
    }
}

/// Extending the logs composes: two runs in turn are one run.
pub proof fn lemma_extends_trans<C: Connection, D: Codec>(
    a: Client<C, D>,
    b: Client<C, D>,
    c: Client<C, D>,
)
    requires
        b.extends(&a),
        c.extends(&b),
    ensures
        c.extends(&a),
{
    assert(c.issued().subrange(0, a.issued().len() as int) =~= b.issued().subrange(
        0,
        a.issued().len() as int,
    ));
    assert(c.received().subrange(0, a.received().len() as int) =~= b.received().subrange(
        0,
        a.received().len() as int,
    ));
    assert forall|k: int| a.issued().len() <= k < c.issued().len() implies c.issued()[k].0
        == a.next_id() + (k - a.issued().len()) by {
        if k < b.issued().len() {
            assert(c.issued()[k] == c.issued().subrange(0, b.issued().len() as int)[k]);
        }
    }
}

} // verus!
