use vstd::prelude::*;

verus! {

/// The bit pattern of the IEEE-754 double `1.0`.
pub const DOUBLE_ONE_BITS: u64 = 0x3FF0_0000_0000_0000;

/// A decoded document value. Doubles are carried as their IEEE-754 bit
/// pattern, so that comparisons stay exact integer comparisons.
#[derive(Debug)]
pub enum Value {
    Double(u64),
    Int32(i32),
    Int64(i64),
    Str(String),
    Bool(bool),
    Doc(Document),
    Array(Vec<Value>),
    Null,
}

/// A decoded document: its fields in wire order.
#[derive(Debug)]
pub struct Document {
    pub fields: Vec<(String, Value)>,
}

/// The value of the first field named `key`, if any.
pub open spec fn find_in(fields: Seq<(String, Value)>, key: Seq<char>) -> Option<Value>
    decreases fields.len(),
{
    if fields.len() == 0 {
        None
    } else if fields[0].0@ == key {
        Some(fields[0].1)
    } else {
        find_in(fields.drop_first(), key)
    }
}

impl Document {
    pub open spec fn find_spec(&self, key: Seq<char>) -> Option<Value> {
        find_in(self.fields@, key)
    }

    pub fn new() -> (d: Document)
        ensures
            d.fields@.len() == 0,
    {
        Document { fields: Vec::new() }
    }

    /// Appends a field.
    pub fn push(&mut self, key: String, value: Value)
        ensures
            final(self).fields@ == old(self).fields@.push((key, value)),
    {
        self.fields.push((key, value));
    }

    /// Looks up the first field named `key`.
    pub fn find(&self, key: &String) -> (r: Option<&Value>)
        ensures
            match r {
                Some(v) => self.find_spec(key@) == Some(*v),
                None => self.find_spec(key@).is_none(),
            },
    {
        let mut i: usize = 0;
        assert(self.fields@.skip(0) =~= self.fields@);
        while i < self.fields.len()
            invariant
                i <= self.fields@.len(),
                find_in(self.fields@, key@) == find_in(self.fields@.skip(i as int), key@),
            decreases self.fields@.len() - i,
        {
            assert(self.fields@.skip(i as int).drop_first() =~= self.fields@.skip(i + 1));
            if self.fields[i].0 == *key {
                return Some(&self.fields[i].1);
            }
            i = i + 1;
        }
        None
    }
}

/// Whether an "ok" field marks success: the double 1.0, the 32-bit integer 1
/// or the 64-bit integer 1, whichever encoding the server chose.
pub open spec fn ok_is_one(v: Option<Value>) -> bool {
    match v {
        Some(Value::Double(bits)) => bits == DOUBLE_ONE_BITS,
        Some(Value::Int32(n)) => n == 1,
        Some(Value::Int64(n)) => n == 1,
        _ => false,
    }
}

pub open spec fn ok_key() -> Seq<char> {
    seq!['o', 'k']
}

/// Whether a command reply reports success.
pub open spec fn command_succeeded(reply: Document) -> bool {
    ok_is_one(reply.find_spec(ok_key()))
}

/// Interprets the "ok" field of a command reply.
pub fn command_ok(reply: &Document) -> (r: bool)
    ensures
        r == command_succeeded(*reply),
{
    let key = String::from_str("ok");
    proof {
        reveal_strlit("ok");
    }
    assert(key@ =~= ok_key());
    match reply.find(&key) {
        Some(Value::Double(bits)) => *bits == DOUBLE_ONE_BITS,
        Some(Value::Int32(n)) => *n == 1,
        Some(Value::Int64(n)) => *n == 1,
        _ => false,
    }
}

} // verus!
