use vstd::prelude::*;
use crate::document::Document;

verus! {

/// The batch size a cursor asks for when none is given.
pub const DEFAULT_BATCH_SIZE: i32 = 20;

/// Describes the type of cursor to return on collection queries.
#[derive(Clone, Copy, PartialEq, Eq, Structural, Debug)]
pub enum CursorType {
    NonTailable,
    Tailable,
    TailableAwait,
}

/// Describes the type of document to return on write operations.
#[derive(Clone, Copy, PartialEq, Eq, Structural, Debug)]
pub enum ReturnDocument {
    Before,
    After,
}

/// Which members of a replica set may serve a read.
#[derive(Clone, Copy, PartialEq, Eq, Structural, Debug)]
pub enum ReadMode {
    Primary,
    PrimaryPreferred,
    Secondary,
    SecondaryPreferred,
    Nearest,
}

/// A read preference: a mode and the tag sets that narrow it.
#[derive(Debug)]
pub struct ReadPreference {
    pub mode: ReadMode,
    pub tag_sets: Vec<Vec<(String, String)>>,
}

/// Writes that can be batched together.
#[derive(Debug)]
pub enum WriteModel {
    InsertOneModel { document: Document },
    DeleteOneModel { filter: Document },
    DeleteManyModel { filter: Document },
    ReplaceOneModel { filter: Document, replacement: Document, upsert: bool },
    UpdateOneModel { filter: Document, update: Document, upsert: bool },
    UpdateManyModel { filter: Document, update: Document, upsert: bool },
}

/// Options for aggregation queries.
#[derive(Debug)]
pub struct AggregateOptions {
    pub allow_disk_use: bool,
    pub use_cursor: bool,
    pub batch_size: i32,
    pub max_time_ms: Option<i64>,
    pub read_preference: Option<ReadPreference>,
}

/// Options for count queries.
#[derive(Debug)]
pub struct CountOptions {
    pub hint: Option<Document>,
    pub limit: Option<i64>,
    pub max_time_ms: Option<i64>,
    pub skip: Option<u64>,
    pub read_preference: Option<ReadPreference>,
}

/// Options for distinct queries.
#[derive(Debug)]
pub struct DistinctOptions {
    pub max_time_ms: Option<i64>,
    pub read_preference: Option<ReadPreference>,
}

/// Options for collection queries.
#[derive(Debug)]
pub struct FindOptions {
    pub allow_partial_results: bool,
    pub no_cursor_timeout: bool,
    pub op_log_replay: bool,
    pub skip: u32,
    pub limit: i32,
    pub cursor_type: CursorType,
    pub batch_size: i32,
    pub comment: Option<String>,
    pub max_time_ms: Option<i64>,
    pub modifiers: Option<Document>,
    pub projection: Option<Document>,
    pub sort: Option<Document>,
    pub read_preference: Option<ReadPreference>,
}

/// Options for findOneAndDelete operations.
#[derive(Debug)]
pub struct FindOneAndDeleteOptions {
    pub max_time_ms: Option<i64>,
    pub projection: Option<Document>,
    pub sort: Option<Document>,
}

/// Options for findOneAndReplace operations.
#[derive(Debug)]
pub struct FindOneAndReplaceOptions {
    pub return_document: ReturnDocument,
    pub max_time_ms: Option<i64>,
    pub projection: Option<Document>,
    pub sort: Option<Document>,
    pub upsert: bool,
}

/// Options for findOneAndUpdate operations.
#[derive(Debug)]
pub struct FindOneAndUpdateOptions {
    pub return_document: ReturnDocument,
    pub max_time_ms: Option<i64>,
    pub projection: Option<Document>,
    pub sort: Option<Document>,
    pub upsert: bool,
}

impl FindOptions {
    /// Options with default parameters: no skip, no limit, a non-tailable
    /// cursor with the default batch size, and nothing else set.
    pub fn new() -> (o: FindOptions)
        ensures
            !o.allow_partial_results,
            !o.no_cursor_timeout,
            !o.op_log_replay,
            o.skip == 0,
            o.limit == 0,
            o.cursor_type == CursorType::NonTailable,
            o.batch_size == DEFAULT_BATCH_SIZE,
            o.comment.is_none(),
            o.max_time_ms.is_none(),
            o.modifiers.is_none(),
            o.projection.is_none(),
            o.sort.is_none(),
            o.read_preference.is_none(),
    {
        FindOptions {
            allow_partial_results: false,
            no_cursor_timeout: false,
            op_log_replay: false,
            skip: 0,
            limit: 0,
            cursor_type: CursorType::NonTailable,
            batch_size: DEFAULT_BATCH_SIZE,
            comment: None,
            max_time_ms: None,
            modifiers: None,
            projection: None,
            sort: None,
            read_preference: None,
        }
    }

    /// The same options with a new limit.
    pub fn with_limit(self, limit: i32) -> (o: FindOptions)
        ensures
            o == (FindOptions { limit, ..self }),
    {
        let mut o = self;
        o.limit = limit;
        o
    }
}

} // verus!
