use vstd::prelude::*;
use crate::document::Document;
use crate::error::{ErrorKind, MongoErr};

verus! {

/// Reply flag: the cursor named by the request is not valid at the server.
pub const CURSOR_NOT_FOUND: i32 = 1;

/// Reply flag: the query failed.
pub const QUERY_FAILURE: i32 = 2;

/// A decoded reply to a read-style message.
#[derive(Debug)]
pub struct DecodedReply {
    pub flags: i32,
    pub cursor_id: i64,
    pub start: i32,
    pub nret: i32,
    pub docs: Vec<Document>,
}

pub open spec fn has_flag(flags: i32, bit: i32) -> bool {
    flags & bit != 0
}

/// The error category that a reply's flags call for, if any; a missing
/// cursor takes precedence over a failed query.
pub open spec fn reply_error(flags: i32) -> Option<ErrorKind> {
    if has_flag(flags, CURSOR_NOT_FOUND) {
        Some(ErrorKind::CursorNotFound)
    } else if has_flag(flags, QUERY_FAILURE) {
        Some(ErrorKind::QueryFailure)
    } else {
        None
    }
}

/// Classifies a decoded reply by its flag bits.
pub fn classify_reply(reply: DecodedReply) -> (r: Result<DecodedReply, MongoErr>)
    ensures
        match r {
            Ok(v) => reply_error(reply.flags).is_none() && v == reply,
            Err(e) => reply_error(reply.flags) == Some(e.kind),
        },
{
    if reply.flags & CURSOR_NOT_FOUND != 0 {
        Err(
            MongoErr::new(
                ErrorKind::CursorNotFound,
                "client::recv_reply",
                "CursorNotFound",
                "cursor ID not valid at server",
            ),
        )
    } else if reply.flags & QUERY_FAILURE != 0 {
        Err(
            MongoErr::new(
                ErrorKind::QueryFailure,
                "client::recv_reply",
                "QueryFailure",
                "the server reported a query failure",
            ),
        )
    } else {
        Ok(reply)
    }
}

} // verus!
