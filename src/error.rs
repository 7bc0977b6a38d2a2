use vstd::prelude::*;
use vstd::string::*;

verus! {

/// The category of a failure.
#[derive(PartialEq, Eq, Structural, Clone, Copy, Debug)]
pub enum ErrorKind {
    AlreadyConnected,
    NotConnected,
    TransportFailure,
    MalformedReply,
    CursorNotFound,
    QueryFailure,
    WriteConcernError,
    CommandNotOk,
    EntityNotFound,
    NotARouter,
}

/// An error: the call site that raised it, its category, a free-text detail,
/// and the lower-level error it wraps, if any.
#[derive(Debug)]
pub struct MongoErr {
    pub kind: ErrorKind,
    pub call: String,
    pub category: String,
    pub detail: String,
    pub cause: Option<Box<MongoErr>>,
}

/// How many errors stand below `e` in its chain.
pub open spec fn chain_depth(e: MongoErr) -> nat
    decreases e,
{
    match e.cause {
        Some(b) => 1 + chain_depth(*b),
        None => 0,
    }
}

/// The one-line form of `e` alone: `call: category: detail`.
pub open spec fn line_of(e: MongoErr) -> Seq<char> {
    e.call@ + ": "@ + e.category@ + ": "@ + e.detail@
}

/// The text of `e` and of the errors it wraps, one line each, joined by
/// `-->` markers from the outermost call site down.
pub open spec fn rendered(e: MongoErr) -> Seq<char>
    decreases e,
{
    match e.cause {
        Some(b) => line_of(e) + "\n-->\n"@ + rendered(*b),
        None => line_of(e),
    }
}

impl MongoErr {
    /// Renders the error with its whole chain of causes.
    pub fn render(&self) -> (r: String)
        ensures
            r@ == rendered(*self),
    {
        let mut out = String::new();
        let mut cur: &MongoErr = self;
        let mut done = false;
        while !done
            invariant
                done ==> rendered(*self) == out@,
                !done ==> rendered(*self) == out@ + rendered(*cur),
            decreases chain_depth(*cur) + (if done { 0int } else { 1int }),
        {
            let ghost before = out@;
            out.append(cur.call.as_str());
            out.append(": ");
            out.append(cur.category.as_str());
            out.append(": ");
            out.append(cur.detail.as_str());
            assert(out@ =~= before + line_of(*cur));
            match &cur.cause {
                Some(b) => {
                    let ghost mid = out@;
                    out.append("\n-->\n");
                    assert(out@ =~= mid + "\n-->\n"@);
                    assert(rendered(*self) =~= out@ + rendered(**b));
                    cur = b;
                },
                None => {
                    done = true;
                },
            }
        }
        out
    }

    pub fn new(kind: ErrorKind, call: &str, category: &str, detail: &str) -> (e: MongoErr)
        ensures
            e.kind == kind,
            e.call@ == call@,
            e.category@ == category@,
            e.detail@ == detail@,
            e.cause.is_none(),
    {
        MongoErr {
            kind,
            call: String::from_str(call),
            category: String::from_str(category),
            detail: String::from_str(detail),
            cause: None,
        }
    }

    /// Re-raises `cause` at a new call site, keeping it as the chained cause.
    pub fn wrap(kind: ErrorKind, call: &str, category: &str, cause: MongoErr) -> (e: MongoErr)
        ensures
            e.kind == kind,
            e.call@ == call@,
            e.category@ == category@,
            e.detail@ == cause.detail@,
            e.cause == Some(Box::new(cause)),
    {
        let detail = cause.detail.clone();
        MongoErr {
            kind,
            call: String::from_str(call),
            category: String::from_str(category),
            detail,
            cause: Some(Box::new(cause)),
        }
    }
}

} // verus!
