use vstd::prelude::*;

use crate::text::same_text;
use serde_json::Value;

verus! {

/// A JSON document as the navigation logic reads it: the replies of the
/// multiplexer's command-line interface.
pub enum Json {
    Null,
    Bool(bool),
    /// A number; `Some` holds its value where it is an integer in the range
    /// of `u64`, `None` stands for any other number.
    Number(Option<u64>),
    Str(String),
    Array(Vec<Json>),
    /// The members of an object, in the order in which they are held.
    Object(Vec<(String, Json)>),
}

/// The value of the first member named `key`.
pub open spec fn member(entries: Seq<(String, Json)>, key: Seq<char>) -> Option<Json>
    decreases entries.len(),
{
    if entries.len() == 0 {
        None
    } else if entries[0].0@ == key {
        Some(entries[0].1)
    } else {
        member(entries.drop_first(), key)
    }
}

/// The value that an optional reference points to.
pub open spec fn deref_opt(r: Option<&Json>) -> Option<Json> {
    match r {
        Some(v) => Some(*v),
        None => None,
    }
}

/// The characters of each word of a path.
pub open spec fn path_view(path: Seq<&str>) -> Seq<Seq<char>> {
    path.map_values(|s: &str| s@)
}

impl Json {
    /// The member `key` of an object; nothing for any other value.
    pub open spec fn field(self, key: Seq<char>) -> Option<Json> {
        match self {
            Json::Object(entries) => member(entries@, key),
            _ => None,
        }
    }

    /// The value reached by following the member names of `path` in turn.
    pub open spec fn at_path(self, path: Seq<Seq<char>>) -> Option<Json>
        decreases path.len(),
    {
        if path.len() == 0 {
            Some(self)
        } else {
            match self.field(path[0]) {
                Some(child) => child.at_path(path.drop_first()),
                None => None,
            }
        }
    }

    /// The element at index `i` of an array; nothing for any other value.
    pub open spec fn element(self, i: int) -> Option<Json> {
        match self {
            Json::Array(items) => if 0 <= i < items@.len() {
                Some(items@[i])
            } else {
                None
            },
            _ => None,
        }
    }

    pub open spec fn text(self) -> Option<Seq<char>> {
        match self {
            Json::Str(s) => Some(s@),
            _ => None,
        }
    }

    pub open spec fn flag(self) -> Option<bool> {
        match self {
            Json::Bool(b) => Some(b),
            _ => None,
        }
    }

    pub open spec fn count(self) -> Option<u64> {
        match self {
            Json::Number(n) => n,
            _ => None,
        }
    }

    pub open spec fn elements(self) -> Option<Seq<Json>> {
        match self {
            Json::Array(items) => Some(items@),
            _ => None,
        }
    }

    /// The member `key` of an object.
    pub fn get(&self, key: &str) -> (r: Option<&Json>)
        ensures
            deref_opt(r) == self.field(key@),
    {
        match self {
            Json::Object(entries) => {
                let n = entries.len();
                let mut i: usize = 0;
                proof {
                    assert(entries@.skip(0) =~= entries@);
                }
                while i < n
                    invariant
                        n == entries@.len(),
                        i <= n,
                        member(entries@, key@) == member(entries@.skip(i as int), key@),
                        self.field(key@) == member(entries@, key@),
                    decreases n - i,
                {
                    let entry = &entries[i];
                    proof {
                        assert(entries@.skip(i as int)[0] == entries@[i as int]);
                    }
                    if same_text(entry.0.as_str(), key) {
                        proof {
                            assert(entries@.skip(i as int).len() > 0);
                            assert(member(entries@.skip(i as int), key@) == Some(entry.1));
                        }
                        return Some(&entry.1);
                    }
                    proof {
                        assert(entries@.skip(i as int).drop_first() =~= entries@.skip(i + 1));
                    }
                    i = i + 1;
                }
                proof {
                    assert(entries@.skip(n as int).len() == 0);
                }
                None
            },
            _ => None,
        }
    }

    /// The value reached by following the member names of `path` in turn.
    pub fn lookup(&self, path: &[&str]) -> (r: Option<&Json>)
        ensures
            deref_opt(r) == self.at_path(path_view(path@)),
    {
        let n = path.len();
        let mut cur: &Json = self;
        let mut i: usize = 0;
        proof {
            assert(path_view(path@).skip(0) =~= path_view(path@));
        }
        while i < n
            invariant
                n == path@.len(),
                i <= n,
                self.at_path(path_view(path@)) == cur.at_path(path_view(path@).skip(i as int)),
            decreases n - i,
        {
            let ghost rest = path_view(path@).skip(i as int);
            proof {
                assert(rest[0] == path[i as int]@);
                assert(rest.drop_first() =~= path_view(path@).skip(i + 1));
            }
            match cur.get(path[i]) {
                Some(child) => {
                    cur = child;
                },
                None => {
                    return None;
                },
            }
            i = i + 1;
        }
        proof {
            assert(path_view(path@).skip(n as int).len() == 0);
        }
        Some(cur)
    }

    /// The element at index `i` of an array.
    pub fn index(&self, i: usize) -> (r: Option<&Json>)
        ensures
            deref_opt(r) == self.element(i as int),
    {
        match self {
            Json::Array(items) => if i < items.len() {
                Some(&items[i])
            } else {
                None
            },
            _ => None,
        }
    }

    pub fn as_str(&self) -> (r: Option<&str>)
        ensures
            r is Some == self.text() is Some,
            r matches Some(s) ==> self.text() == Some(s@),
    {
        match self {
            Json::Str(s) => Some(s.as_str()),
            _ => None,
        }
    }

    pub fn as_bool(&self) -> (r: Option<bool>)
        ensures
            r == self.flag(),
    {
        match self {
            Json::Bool(b) => Some(*b),
            _ => None,
        }
    }

    pub fn as_u64(&self) -> (r: Option<u64>)
        ensures
            r == self.count(),
    {
        match self {
            Json::Number(n) => *n,
            _ => None,
        }
    }

    pub fn as_array(&self) -> (r: Option<&Vec<Json>>)
        ensures
            r is Some == self.elements() is Some,
            r matches Some(v) ==> self.elements() == Some(v@),
    {
        match self {
            Json::Array(items) => Some(items),
            _ => None,
        }
    }
}

#[verifier::external_type_specification]
#[verifier::external_body]
pub struct ExValue(Value);

/// The document that `serde_json::from_slice` reads from `bytes`, in the
/// library's form; nothing where the bytes are not one JSON document.
pub uninterp spec fn parsed_reply(bytes: Seq<u8>) -> Option<Json>;

/// Converts a `serde_json::Value` member for member: each variant to the
/// variant of the same name, a number to its `as_u64` value.
#[verifier::external_body]
fn value_to_json(value: Value) -> Json {
    match value {
        Value::Null => Json::Null,
        Value::Bool(b) => Json::Bool(b),
        Value::Number(n) => Json::Number(n.as_u64()),
        Value::String(s) => Json::Str(s),
        Value::Array(items) => Json::Array(items.into_iter().map(value_to_json).collect()),
        Value::Object(members) => Json::Object(
            members.into_iter().map(|(k, v)| (k, value_to_json(v))).collect(),
        ),
    }
}

/// Calls `serde_json::from_slice::<serde_json::Value>` on a reply's bytes.
/// Claimed: the result is a function of the bytes alone, named
/// `parsed_reply` (JSON's grammar is not written out here); `None` where
/// serde_json refuses the bytes.
#[verifier::external_body]
pub fn parse_reply(bytes: &[u8]) -> (r: Option<Json>)
    ensures
        r == parsed_reply(bytes@),
{
    match serde_json::from_slice::<Value>(bytes) {
        Ok(value) => Some(value_to_json(value)),
        Err(_) => None,
    }
}

} // verus!
