use vstd::prelude::*;
use crate::document::Document;

verus! {

/// One write-concern directive, passed through to the acknowledgment command.
#[derive(Clone, Debug)]
pub enum WriteConcern {
    Journal(bool),
    WNodes(i32),
    WMode(String),
    WTimeout(i32),
    Fsync(bool),
}

/// The database that a write is acknowledged against, with its directives.
pub struct WriteConcernSpec {
    pub db: String,
    pub concerns: Vec<WriteConcern>,
}

/// A server command, as a structured document shape.
#[derive(Debug)]
pub enum Command {
    ListDatabases,
    DropDatabase,
    IsMaster,
    EnableSharding(String),
    AddShard(String),
    ShardCollection { namespace: String, key: Document, unique: bool },
    GetLastError(Vec<WriteConcern>),
}

/// A wire operation, before it is encoded with its request id.
#[derive(Debug)]
pub enum Operation {
    /// Runs `command` against database `db`.
    Command { db: String, command: Command },
    /// Queries `db.coll`; a `limit` of 0 means no limit.
    Query { db: String, coll: String, filter: Document, limit: i32 },
    /// Updates the documents of `db.coll` that match `selector`.
    Update { db: String, coll: String, selector: Document, update: Document },
}

pub open spec fn is_command(op: Operation, db: Seq<char>, command: Command) -> bool {
    match op {
        Operation::Command { db: d, command: c } => d@ == db && c == command,
        _ => false,
    }
}

} // verus!
