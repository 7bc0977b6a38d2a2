use vstd::prelude::*;
use vstd::string::*;
use crate::client::{
    admin_db, command_reply_ok, listed_databases, read_error_kind, reply_doc, Client, Codec,
    Connection,
};
use crate::document::{command_ok, command_succeeded, Document, Value};
use crate::error::{ErrorKind, MongoErr};
use crate::ops::{is_command, Command, Operation, WriteConcernSpec};
use crate::reply::{reply_error, DecodedReply};

verus! {

pub open spec fn msg_key() -> Seq<char> {
    seq!['m', 's', 'g']
}

/// The string by which a cluster router identifies itself.
pub open spec fn router_marker() -> Seq<char> {
    seq!['i', 's', 'd', 'b', 'g', 'r', 'i', 'd']
}

/// Whether an `ismaster` reply comes from a cluster router.
pub open spec fn is_router_reply(reply: Document) -> bool {
    match reply.find_spec(msg_key()) {
        Some(Value::Str(s)) => s@ == router_marker(),
        _ => false,
    }
}

pub open spec fn config_db() -> Seq<char> {
    seq!['c', 'o', 'n', 'f', 'i', 'g']
}

pub open spec fn shards_coll() -> Seq<char> {
    seq!['s', 'h', 'a', 'r', 'd', 's']
}

pub open spec fn version_coll() -> Seq<char> {
    seq!['v', 'e', 'r', 's', 'i', 'o', 'n']
}

/// Whether `d` is the one-field document `{ key: <text> }`.
pub open spec fn is_str_pair(d: Document, key: Seq<char>, text: Seq<char>) -> bool {
    &&& d.fields@.len() == 1
    &&& d.fields@[0].0@ == key
    &&& match d.fields@[0].1 {
        Value::Str(s) => s@ == text,
        _ => false,
    }
}

/// Whether `d` is `{ $addToSet: { tags: <tag> } }`.
pub open spec fn is_tag_update(d: Document, tag: Seq<char>) -> bool {
    &&& d.fields@.len() == 1
    &&& d.fields@[0].0@ == "$addToSet"@
    &&& match d.fields@[0].1 {
        Value::Doc(inner) => is_str_pair(inner, "tags"@, tag),
        _ => false,
    }
}

/// Whether `op` queries `db.coll`.
pub open spec fn is_query_on(op: Operation, db: Seq<char>, coll: Seq<char>) -> bool {
    match op {
        Operation::Query { db: d, coll: c, .. } => d@ == db && c@ == coll,
        _ => false,
    }
}

/// Whether `op` looks up the shard named `shard` in the shard registry.
pub open spec fn is_shard_lookup(op: Operation, shard: Seq<char>) -> bool {
    match op {
        Operation::Query { db: d, coll: c, filter, .. } => d@ == config_db() && c@ == shards_coll()
            && is_str_pair(filter, "_id"@, shard),
        _ => false,
    }
}

/// Whether `op` adds `tag` to the tag set of the shard named `shard`.
pub open spec fn is_tag_request(op: Operation, shard: Seq<char>, tag: Seq<char>) -> bool {
    match op {
        Operation::Update { db: d, coll: c, selector, update } => d@ == config_db() && c@
            == shards_coll() && is_str_pair(selector, "_id"@, shard) && is_tag_update(update, tag),
        _ => false,
    }
}

/// The database names that a `listDatabases` reply carries, if well formed.
pub open spec fn listing_names(rep: DecodedReply) -> Option<Seq<Seq<char>>> {
    match reply_doc(rep) {
        Some(d) => listed_databases(d),
        None => None,
    }
}

/// The shard lines of a status report.
pub open spec fn shard_lines(shards: Seq<Seq<char>>) -> Seq<char>
    decreases shards.len(),
{
    if shards.len() == 0 {
        Seq::empty()
    } else {
        shard_lines(shards.drop_last()) + shards.last() + "\n"@
    }
}

/// The text of a status report.
pub open spec fn status_text(version: Seq<char>, shards: Seq<Seq<char>>) -> Seq<char> {
    "--- Sharding Status ---\n"@ + "  sharding version: "@ + version + "\n"@ + "  shards:\n"@
        + shard_lines(shards)
}

/// Checks that an `ismaster` reply identifies a cluster router.
pub fn check_router(reply: &Document) -> (r: Result<(), MongoErr>)
    ensures
        match r {
            Ok(_) => is_router_reply(*reply),
            Err(e) => !is_router_reply(*reply) && e.kind == ErrorKind::NotARouter,
        },
{
    let key = String::from_str("msg");
    let marker = String::from_str("isdbgrid");
    proof {
        reveal_strlit("msg");
        reveal_strlit("isdbgrid");
    }
    assert(key@ =~= msg_key());
    assert(marker@ =~= router_marker());
    let found = match reply.find(&key) {
        Some(Value::Str(s)) => *s == marker,
        _ => false,
    };
    if found {
        Ok(())
    } else {
        Err(
            MongoErr::new(
                ErrorKind::NotARouter,
                "shard::new",
                "not a cluster router",
                "a shard controller can only connect to a router (ismaster reply lacks msg: \"isdbgrid\")",
            ),
        )
    }
}

/// Whether a reply carries a command result that reports failure.
pub open spec fn command_reply_failed(rep: DecodedReply) -> bool {
    match reply_doc(rep) {
        Some(d) => !command_succeeded(d),
        None => false,
    }
}

/// Whether `e` is the error for a command whose reply did not report ok.
pub open spec fn not_ok_error(e: MongoErr, category: Seq<char>) -> bool {
    &&& e.kind == ErrorKind::CommandNotOk
    &&& e.category@ == category
    &&& e.detail@ == "the server returned ok: 0"@
}

/// `prefix` followed by `subject`.
fn labelled(prefix: &str, subject: &String) -> (r: String)
    ensures
        r@ == prefix@ + subject@,
{
    let mut s = String::from_str(prefix);
    s.append(subject.as_str());
    s
}

/// Interprets the reply of an administrative command.
pub fn interpret_command(reply: &Document, call: &str, category: &str) -> (r: Result<(), MongoErr>)
    ensures
        match r {
            Ok(_) => command_succeeded(*reply),
            Err(e) => !command_succeeded(*reply) && not_ok_error(e, category@) && e.call@ == call@,
        },
{
    if command_ok(reply) {
        Ok(())
    } else {
        Err(MongoErr::new(ErrorKind::CommandNotOk, call, category, "the server returned ok: 0"))
    }
}

/// Checks that `db` is among the listed database names.
pub fn require_database(names: &Vec<String>, db: &String) -> (r: Result<(), MongoErr>)
    ensures
        match r {
            Ok(_) => names@.map_values(|s: String| s@).contains(db@),
            Err(e) => !names@.map_values(|s: String| s@).contains(db@) && e.kind
                == ErrorKind::EntityNotFound,
        },
{
    let mut i: usize = 0;
    while i < names.len()
        invariant
            i <= names@.len(),
            forall|j: int| 0 <= j < i ==> names@[j]@ != db@,
        decreases names@.len() - i,
    {
        if names[i] == *db {
            assert(names@.map_values(|s: String| s@)[i as int] == db@);
            return Ok(());
        }
        i = i + 1;
    }
    let ghost views = names@.map_values(|s: String| s@);
    assert forall|j: int| 0 <= j < views.len() implies views[j] != db@ by {
        assert(views[j] == names@[j]@);
    }
    Err(
        MongoErr::new(
            ErrorKind::EntityNotFound,
            "shard::enable_sharding",
            "database not found",
            "sharding can only be enabled on an existing db",
        ),
    )
}

/// The namespace `<db>.<coll>` of a collection.
pub fn namespace(db: &String, coll: &String) -> (r: String)
    ensures
        r@ == db@ + seq!['.'] + coll@,
{
    let mut s = db.clone();
    s.append(".");
    s.append(coll.as_str());
    proof {
        reveal_strlit(".");
    }
    s
}

/// The document `{ key: <text> }`.
fn str_pair(key: &str, text: &String) -> (d: Document)
    ensures
        is_str_pair(d, key@, text@),
{
    let mut d = Document::new();
    d.push(String::from_str(key), Value::Str(text.clone()));
    d
}

/// Renders the status report from the rendered version marker and shards.
pub fn status_report(version: &String, shards: &Vec<String>) -> (r: String)
    ensures
        r@ == status_text(version@, shards@.map_values(|s: String| s@)),
{
    let mut out = String::from_str("--- Sharding Status ---\n");
    out.append("  sharding version: ");
    out.append(version.as_str());
    out.append("\n");
    out.append("  shards:\n");
    let ghost head = out@;
    let mut i: usize = 0;
    assert(shards@.map_values(|s: String| s@).take(0) =~= Seq::<Seq<char>>::empty());
    while i < shards.len()
        invariant
            i <= shards@.len(),
            head == "--- Sharding Status ---\n"@ + "  sharding version: "@ + version@ + "\n"@
                + "  shards:\n"@,
            out@ == head + shard_lines(shards@.map_values(|s: String| s@).take(i as int)),
        decreases shards@.len() - i,
    {
        let ghost views = shards@.map_values(|s: String| s@);
        assert(views.take(i + 1).drop_last() =~= views.take(i as int));
        assert(views.take(i + 1).last() == shards@[i as int]@);
        out.append(shards[i].as_str());
        out.append("\n");
        assert(out@ =~= head + shard_lines(views.take(i + 1)));
        i = i + 1;
    }
    assert(shards@.map_values(|s: String| s@).take(shards@.len() as int) =~= shards@.map_values(
        |s: String| s@,
    ));
    out
}

/// An administrative controller over a client connected to a cluster router.
pub struct ShardController<C: Connection, D: Codec> {
    mongos: Client<C, D>,
}

/// The error categories that an administrative command can end in.
pub open spec fn admin_error_kind(k: ErrorKind) -> bool {
    read_error_kind(k) || k == ErrorKind::CommandNotOk
}

impl<C: Connection, D: Codec> ShardController<C, D> {
    /// The client the controller works through.
    pub closed spec fn client(&self) -> Client<C, D> {
        self.mongos
    }

    pub fn mongos(&self) -> (c: &Client<C, D>)
        ensures
            *c == self.client(),
    {
        &self.mongos
    }

    /// Gives the client back.
    pub fn into_client(self) -> (c: Client<C, D>)
        ensures
            c == self.client(),
    {
        self.mongos
    }

    /// Wraps `client` after checking, with an `ismaster` command against the
    /// admin database, that it talks to a cluster router.
    /// On failure the client comes back with the error.
    pub fn new(client: Client<C, D>) -> (r: Result<Self, (MongoErr, Client<C, D>)>)
        requires
            client.has_ids(1),
        ensures
            match r {
                Ok(sc) => sc.client().issued_after(&client) && sc.client().issued().len()
                    == client.issued().len() + 1 && is_command(
                    sc.client().issued().last().1,
                    admin_db(),
                    Command::IsMaster,
                ) && sc.client().one_more_reply(&client) && (reply_doc(
                    sc.client().received().last(),
                ) matches Some(d) && is_router_reply(d)),
                Err((e, c)) => c.issued_after(&client) && c.issued().len() == client.issued().len()
                    + 1 && is_command(c.issued().last().1, admin_db(), Command::IsMaster) && !(
                c.one_more_reply(&client) && (reply_doc(c.received().last()) matches Some(d)
                    && is_router_reply(d))) && (e.kind == ErrorKind::NotARouter <==> (
                c.one_more_reply(&client) && (reply_doc(c.received().last()) matches Some(d)
                    && !is_router_reply(d)))) && (e.kind == ErrorKind::NotConnected
                    <==> !client.connected()) && (e.kind == ErrorKind::NotARouter
                    || read_error_kind(e.kind)),
            },
    {
        let mut client = client;
        let admin = String::from_str("admin");
        proof {
            reveal_strlit("admin");
        }
        assert(admin@ =~= admin_db());
        match client.run_command(&admin, Command::IsMaster) {
            Ok(doc) => match check_router(&doc) {
                Ok(_) => Ok(ShardController { mongos: client }),
                Err(e) => Err((e, client)),
            },
            Err(e) => Err((e, client)),
        }
    }

    /// Enables sharding on database `db`, which must already exist.
    pub fn enable_sharding(&mut self, db: &String) -> (r: Result<(), MongoErr>)
        requires
            old(self).client().has_ids(2),
        ensures
            final(self).client().issued_after(&old(self).client()),
            final(self).client().issued().len() > old(self).client().issued().len(),
            is_command(
                final(self).client().issued()[old(self).client().issued().len() as int].1,
                admin_db(),
                Command::ListDatabases,
            ),
            (r matches Err(e) && e.kind == ErrorKind::EntityNotFound) ==> final(self).client().issued().len()
                == old(self).client().issued().len() + 1,
            r is Ok ==> final(self).client().issued().len() == old(self).client().issued().len() + 2
                && is_command(
                final(self).client().issued().last().1,
                db@,
                Command::EnableSharding(*db),
            ),
            !old(self).client().connected() ==> (r matches Err(e) && e.kind
                == ErrorKind::NotConnected),
            r matches Err(e) ==> admin_error_kind(e.kind) || e.kind == ErrorKind::EntityNotFound,
            old(self).client().connected() ==> !(r matches Err(e) && e.kind == ErrorKind::NotConnected),
            final(self).client().issued().len() == old(self).client().issued().len() + 2 <==> (final(self).client().received().len()
                > old(self).client().received().len() && (listing_names(
                final(self).client().received()[old(self).client().received().len() as int],
            ) matches Some(names) && names.contains(db@))),
            final(self).client().issued().len() == old(self).client().issued().len() + 1 || final(self).client().issued().len()
                == old(self).client().issued().len() + 2,
            final(self).client().issued().len() == old(self).client().issued().len() + 2 ==> is_command(
                final(self).client().issued().last().1,
                db@,
                Command::EnableSharding(*db),
            ),
            final(self).client().issued().len() == old(self).client().issued().len() + 2 && final(self).client().received().len()
                == old(self).client().received().len() + 2 && command_reply_failed(final(self).client().received().last())
                ==> (r matches Err(e) && not_ok_error(e, "error enabling sharding on "@ + db@)),
            final(self).client().received().len() <= old(self).client().received().len() + 2,
            r is Ok <==> (final(self).client().received().len() == old(self).client().received().len()
                + 2 && (listing_names(
                final(self).client().received()[old(self).client().received().len() as int],
            ) matches Some(names) && names.contains(db@)) && command_reply_ok(
                final(self).client().received().last(),
            )),
            (final(self).client().received().len() > old(self).client().received().len() && (
            listing_names(
                final(self).client().received()[old(self).client().received().len() as int],
            ) matches Some(names) && !names.contains(db@))) ==> (r matches Err(e) && e.kind
                == ErrorKind::EntityNotFound) && final(self).client().issued().len() == old(self).client().issued().len() + 1,
    {
        let ghost start = self.mongos;
        let names = match self.mongos.get_dbs() {
            Ok(names) => names,
            Err(e) => {
                return Err(e);
            },
        };
        match require_database(&names, db) {
            Ok(_) => {},
            Err(e) => {
                return Err(e);
            },
        }
        let ghost mid = self.mongos;
        let result = self.mongos.run_command(db, Command::EnableSharding(db.clone()));
        proof {
            crate::client::lemma_extends_trans(start, mid, self.mongos);
            assert(self.mongos.issued()[start.issued().len() as int] == mid.issued()[start.issued().len() as int]);
            assert(self.mongos.received()[start.received().len() as int] == self.mongos.received().subrange(0, mid.received().len() as int)[start.received().len() as int]);
        }
        match result {
            Ok(doc) => {
                let category = labelled("error enabling sharding on ", db);
                interpret_command(&doc, "shard::enable_sharding", category.as_str())
            },
            Err(e) => Err(e),
        }
    }

    /// Lets the router manage a new shard at `hostname`: `<host>`,
    /// `<host>:<port>`, `<replset>/<host>` or `<replset>/<host>:<port>`.
    /// The form is not checked here; the server decides.
    pub fn add_shard(&mut self, hostname: &String) -> (r: Result<(), MongoErr>)
        requires
            old(self).client().has_ids(1),
        ensures
            final(self).client().issued_after(&old(self).client()),
            final(self).client().issued().len() == old(self).client().issued().len() + 1,
            is_command(
                final(self).client().issued().last().1,
                admin_db(),
                Command::AddShard(*hostname),
            ),
            !old(self).client().connected() ==> (r matches Err(e) && e.kind
                == ErrorKind::NotConnected),
            old(self).client().connected() ==> !(r matches Err(e) && e.kind == ErrorKind::NotConnected),
            final(self).client().one_more_reply(&old(self).client()) && command_reply_failed(final(self).client().received().last())
                ==> (r matches Err(e) && not_ok_error(e, "error adding shard at "@ + hostname@)),
            r matches Err(e) ==> admin_error_kind(e.kind),
            final(self).client().received().len() <= old(self).client().received().len() + 1,
            r is Ok <==> (final(self).client().one_more_reply(&old(self).client())
                && command_reply_ok(final(self).client().received().last())),
    {
        let admin = String::from_str("admin");
        proof {
            reveal_strlit("admin");
        }
        assert(admin@ =~= admin_db());
        match self.mongos.run_command(&admin, Command::AddShard(hostname.clone())) {
            Ok(doc) => {
                let category = labelled("error adding shard at ", hostname);
                interpret_command(&doc, "shard::add_shard", category.as_str())
            },
            Err(e) => Err(e),
        }
    }

    /// Shards collection `db.coll` on `key`.
    pub fn shard_collection(&mut self, db: &String, coll: &String, key: Document, unique: bool) -> (r:
        Result<(), MongoErr>)
        requires
            old(self).client().has_ids(1),
        ensures
            final(self).client().issued_after(&old(self).client()),
            final(self).client().issued().len() == old(self).client().issued().len() + 1,
            match final(self).client().issued().last().1 {
                Operation::Command {
                    db: d,
                    command: Command::ShardCollection { namespace: ns, key: k, unique: u },
                } => d@ == db@ && ns@ == db@ + seq!['.'] + coll@ && k == key && u == unique,
                _ => false,
            },
            !old(self).client().connected() ==> (r matches Err(e) && e.kind
                == ErrorKind::NotConnected),
            old(self).client().connected() ==> !(r matches Err(e) && e.kind == ErrorKind::NotConnected),
            final(self).client().one_more_reply(&old(self).client()) && command_reply_failed(final(self).client().received().last())
                ==> (r matches Err(e) && not_ok_error(
                e,
                "error sharding collection "@ + (db@ + seq!['.'] + coll@),
            )),
            r matches Err(e) ==> admin_error_kind(e.kind),
            final(self).client().received().len() <= old(self).client().received().len() + 1,
            r is Ok <==> (final(self).client().one_more_reply(&old(self).client())
                && command_reply_ok(final(self).client().received().last())),
    {
        let ns = namespace(db, coll);
        let category = labelled("error sharding collection ", &ns);
        let command = Command::ShardCollection { namespace: ns, key, unique };
        match self.mongos.run_command(db, command) {
            Ok(doc) => interpret_command(&doc, "shard::shard_collection", category.as_str()),
            Err(e) => Err(e),
        }
    }

    /// Reports the cluster's version marker and its shards. `verbose` is
    /// kept for more detail per shard; the registry read is the same.
    pub fn status(&mut self, verbose: bool) -> (r: Result<String, MongoErr>)
        requires
            old(self).client().has_ids(2),
        ensures
            final(self).client().issued_after(&old(self).client()),
            final(self).client().issued().len() > old(self).client().issued().len(),
            is_query_on(
                final(self).client().issued()[old(self).client().issued().len() as int].1,
                config_db(),
                version_coll(),
            ),
            r is Ok ==> final(self).client().issued().len() == old(self).client().issued().len() + 2
                && is_query_on(final(self).client().issued().last().1, config_db(), shards_coll()),
            r matches Ok(s) ==> final(self).client().received().len() == old(self).client().received().len() + 2 && exists|
                v: Seq<char>,
                sh: Seq<Seq<char>>,
            | sh.len() == final(self).client().received().last().docs@.len() && s@ == #[trigger] status_text(v, sh),
            old(self).client().connected() ==> !(r matches Err(e) && e.kind == ErrorKind::NotConnected),
            final(self).client().issued().len() == old(self).client().issued().len() + 1 || final(self).client().issued().len()
                == old(self).client().issued().len() + 2,
            final(self).client().issued().len() == old(self).client().issued().len() + 2 ==> is_query_on(
                final(self).client().issued().last().1,
                config_db(),
                shards_coll(),
            ),
            final(self).client().issued().len() == old(self).client().issued().len() + 2 <==> (final(self).client().received().len()
                > old(self).client().received().len() && reply_doc(
                final(self).client().received()[old(self).client().received().len() as int],
            ).is_some()),
            !old(self).client().connected() ==> (r matches Err(e) && e.kind
                == ErrorKind::NotConnected),
            r matches Err(e) ==> read_error_kind(e.kind) || e.kind == ErrorKind::EntityNotFound,
    {
        let config = String::from_str("config");
        let version = String::from_str("version");
        let shards = String::from_str("shards");
        proof {
            reveal_strlit("config");
            reveal_strlit("version");
            reveal_strlit("shards");
        }
        assert(config@ =~= config_db());
        assert(version@ =~= version_coll());
        assert(shards@ =~= shards_coll());
        let ghost start = self.mongos;
        let op = Operation::Query { db: config.clone(), coll: version, filter: Document::new(), limit: 1 };
        let version_doc = match self.mongos.dispatch(op, WriteConcernSpec { db: String::new(), concerns: Vec::new() }, true) {
            Ok(Some(m)) => {
                let mut docs = m.docs;
                if docs.len() == 0 {
                    return Err(
                        MongoErr::new(
                            ErrorKind::EntityNotFound,
                            "shard::status",
                            "no sharding version",
                            "the config database holds no version document",
                        ),
                    );
                }
                docs.remove(0)
            },
            Ok(None) => {
                return Err(
                    MongoErr::new(
                        ErrorKind::MalformedReply,
                        "shard::status",
                        "no reply",
                        "a query returned no reply",
                    ),
                );
            },
            Err(e) => {
                return Err(e);
            },
        };
        let version_text = self.mongos.codec().render(&version_doc);
        let ghost mid = self.mongos;
        let op = Operation::Query { db: config, coll: shards, filter: Document::new(), limit: 0 };
        let registry = self.mongos.dispatch(op, WriteConcernSpec { db: String::new(), concerns: Vec::new() }, true);
        proof {
            crate::client::lemma_extends_trans(start, mid, self.mongos);
            assert(self.mongos.issued()[start.issued().len() as int] == mid.issued()[start.issued().len() as int]);
        }
        let shard_docs = match registry {
            Ok(Some(m)) => m.docs,
            Ok(None) => {
                return Err(
                    MongoErr::new(
                        ErrorKind::MalformedReply,
                        "shard::status",
                        "no reply",
                        "a query returned no reply",
                    ),
                );
            },
            Err(e) => {
                return Err(e);
            },
        };
        let mut lines: Vec<String> = Vec::new();
        let mut i: usize = 0;
        while i < shard_docs.len()
            invariant
                i <= shard_docs@.len(),
                lines@.len() == i,
            decreases shard_docs@.len() - i,
        {
            lines.push(self.mongos.codec().render(&shard_docs[i]));
            i = i + 1;
        }
        let report = status_report(&version_text, &lines);
        assert(report@ == status_text(version_text@, lines@.map_values(|s: String| s@)));
        Ok(report)
    }

    /// Adds `tag` to the tag set of the shard named `shard`, which must be in
    /// the cluster's shard registry.
    pub fn add_shard_tag(&mut self, shard: &String, tag: &String) -> (r: Result<(), MongoErr>)
        requires
            old(self).client().has_ids(3),
        ensures
            final(self).client().issued_after(&old(self).client()),
            final(self).client().issued().len() > old(self).client().issued().len(),
            is_shard_lookup(
                final(self).client().issued()[old(self).client().issued().len() as int].1,
                shard@,
            ),
            (r matches Err(e) && e.kind == ErrorKind::EntityNotFound) ==> final(self).client().issued().len()
                == old(self).client().issued().len() + 1,
            r is Ok ==> final(self).client().issued().len() == old(self).client().issued().len() + 3
                && is_tag_request(
                final(self).client().issued()[old(self).client().issued().len() + 1int].1,
                shard@,
                tag@,
            ),
            !old(self).client().connected() ==> (r matches Err(e) && e.kind
                == ErrorKind::NotConnected),
            r matches Err(e) ==> read_error_kind(e.kind) || e.kind == ErrorKind::EntityNotFound
                || e.kind == ErrorKind::WriteConcernError,
            final(self).client().received().len() <= old(self).client().received().len() + 2,
            old(self).client().connected() ==> !(r matches Err(e) && e.kind == ErrorKind::NotConnected),
            (final(self).client().received().len() > old(self).client().received().len() && reply_doc(
                final(self).client().received()[old(self).client().received().len() as int],
            ).is_some()) ==> final(self).client().issued().len() >= old(self).client().issued().len() + 2 && is_tag_request(
                final(self).client().issued()[old(self).client().issued().len() + 1int].1,
                shard@,
                tag@,
            ),
            !(final(self).client().received().len() > old(self).client().received().len() && reply_doc(
                final(self).client().received()[old(self).client().received().len() as int],
            ).is_some()) ==> final(self).client().issued().len() == old(self).client().issued().len() + 1,
            r is Ok <==> (final(self).client().received().len() == old(self).client().received().len()
                + 2 && reply_doc(
                final(self).client().received()[old(self).client().received().len() as int],
            ).is_some() && command_reply_ok(final(self).client().received().last())),
            (final(self).client().received().len() > old(self).client().received().len() && ({
                let found = final(self).client().received()[old(self).client().received().len() as int];
                reply_error(found.flags).is_none() && found.docs@.len() == 0
            })) ==> (r matches Err(e) && e.kind == ErrorKind::EntityNotFound) && final(self).client().issued().len() == old(self).client().issued().len() + 1,
    {
        let config = String::from_str("config");
        let shards = String::from_str("shards");
        proof {
            reveal_strlit("config");
            reveal_strlit("shards");
            reveal_strlit("_id");
            reveal_strlit("tags");
            reveal_strlit("$addToSet");
        }
        assert(config@ =~= config_db());
        assert(shards@ =~= shards_coll());
        let ghost start = self.mongos;
        let lookup = Operation::Query {
            db: config.clone(),
            coll: shards.clone(),
            filter: str_pair("_id", shard),
            limit: 1,
        };
        match self.mongos.dispatch(lookup, WriteConcernSpec { db: String::new(), concerns: Vec::new() }, true) {
            Ok(Some(m)) => {
                if m.docs.len() == 0 {
                    return Err(
                        MongoErr::new(
                            ErrorKind::EntityNotFound,
                            "shard::add_shard_tag",
                            "shard not found",
                            "no shard with that id in the shard registry",
                        ),
                    );
                }
            },
            Ok(None) => {
                return Err(
                    MongoErr::new(
                        ErrorKind::MalformedReply,
                        "shard::add_shard_tag",
                        "no reply",
                        "a query returned no reply",
                    ),
                );
            },
            Err(e) => {
                return Err(e);
            },
        }
        let mut update = Document::new();
        update.push(String::from_str("$addToSet"), Value::Doc(str_pair("tags", tag)));
        let ghost mid = self.mongos;
        let config_name = config.clone();
        let op = Operation::Update { db: config, coll: shards, selector: str_pair("_id", shard), update };
        let result = self.mongos.dispatch(op, WriteConcernSpec { db: config_name, concerns: Vec::new() }, false);
        proof {
            crate::client::lemma_extends_trans(start, mid, self.mongos);
            assert(self.mongos.issued()[start.issued().len() as int] == mid.issued()[start.issued().len() as int]);
            assert(self.mongos.received()[start.received().len() as int] == self.mongos.received().subrange(0, mid.received().len() as int)[start.received().len() as int]);
        }
        match result {
            Ok(_) => Ok(()),
            Err(e) => Err(e),
        }
    }
}

} // verus!
