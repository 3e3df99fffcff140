//! A JSON document tree, as the Klippy JSON-RPC messages carry it.
use vstd::prelude::*;

use crate::text::str_equals;

verus! {

/// A JSON number. Integers keep their exact value; a non-integer number
/// is carried by its IEEE-754 double bit pattern, which this library only
/// moves around and never computes with.
#[derive(Debug, Clone, Copy, PartialEq, Eq, Structural)]
pub enum JsonNumber {
    /// A non-negative integer.
    PosInt(u64),
    /// A negative integer.
    NegInt(i64),
    /// A number with a fraction or exponent, as IEEE-754 double bits.
    Real(u64),
}

/// A JSON value. Object members keep their order; lookups find the first
/// member with the key.
#[derive(Debug)]
pub enum JsonValue {
    Null,
    Bool(bool),
    Number(JsonNumber),
    String(String),
    Array(Vec<JsonValue>),
    Object(Vec<(String, JsonValue)>),
}

/// The value of the first member named `key` among `members`.
pub open spec fn member_lookup(members: Seq<(String, JsonValue)>, key: Seq<char>) -> Option<
    JsonValue,
>
    decreases members.len(),
{
    if members.len() == 0 {
        None
    } else if members[0].0@ == key {
        Some(members[0].1)
    } else {
        member_lookup(members.drop_first(), key)
    }
}

/// The position of the first member named `key`.
pub open spec fn member_index(members: Seq<(String, JsonValue)>, key: Seq<char>, i: int) -> bool {
    &&& 0 <= i < members.len()
    &&& members[i].0@ == key
    &&& forall|k: int| 0 <= k < i ==> members[k].0@ != key
}

/// The lookup finds the first member with the key.
pub proof fn lemma_member_lookup_found(members: Seq<(String, JsonValue)>, key: Seq<char>, i: int)
    requires
        member_index(members, key, i),
    ensures
        member_lookup(members, key) == Some(members[i].1),
    decreases i,
{
    if i > 0 {
        let t = members.drop_first();
        assert(member_index(t, key, i - 1)) by {
            assert forall|k: int| 0 <= k < i - 1 implies t[k].0@ != key by {
                assert(t[k] == members[k + 1]);
            }
        }
        lemma_member_lookup_found(t, key, i - 1);
        assert(members[0].0@ != key);
    }
}

/// The lookup of a key that no member has finds nothing.
pub proof fn lemma_member_lookup_absent(members: Seq<(String, JsonValue)>, key: Seq<char>)
    requires
        forall|k: int| 0 <= k < members.len() ==> members[k].0@ != key,
    ensures
        member_lookup(members, key) is None,
    decreases members.len(),
{
    if members.len() > 0 {
        let t = members.drop_first();
        assert forall|k: int| 0 <= k < t.len() implies t[k].0@ != key by {
            assert(t[k] == members[k + 1]);
        }
        lemma_member_lookup_absent(t, key);
        assert(members[0].0@ != key);
    }
}

/// The position of the first member named `key`, if there is one.
fn find_member(members: &Vec<(String, JsonValue)>, key: &str) -> (r: Option<usize>)
    ensures
        r matches Some(i) ==> member_index(members@, key@, i as int),
        r is None ==> member_lookup(members@, key@) is None,
        r matches Some(i) ==> member_lookup(members@, key@) == Some(members@[i as int].1),
{
    let mut i: usize = 0;
    while i < members.len()
        invariant
            i <= members@.len(),
            forall|k: int| 0 <= k < i ==> members@[k].0@ != key@,
        decreases members@.len() - i,
    {
        if str_equals(members[i].0.as_str(), key) {
            proof {
                lemma_member_lookup_found(members@, key@, i as int);
            }
            return Some(i);
        }
        i += 1;
    }
    proof {
        lemma_member_lookup_absent(members@, key@);
    }
    None
}

impl JsonValue {
    /// The member `key` of an object; `None` for other values.
    pub open spec fn spec_get(self, key: Seq<char>) -> Option<JsonValue> {
        match self {
            JsonValue::Object(members) => member_lookup(members@, key),
            _ => None,
        }
    }

    /// The value of a non-negative integer.
    pub open spec fn spec_as_u64(self) -> Option<u64> {
        match self {
            JsonValue::Number(JsonNumber::PosInt(n)) => Some(n),
            _ => None,
        }
    }

    /// The number a value holds.
    pub open spec fn spec_as_number(self) -> Option<JsonNumber> {
        match self {
            JsonValue::Number(n) => Some(n),
            _ => None,
        }
    }

    /// The member `key` of an object; `None` for other values.
    pub fn get(&self, key: &str) -> (r: Option<&JsonValue>)
        ensures
            r matches Some(v) ==> self.spec_get(key@) == Some(*v),
            r is None ==> self.spec_get(key@) is None,
    {
        match self {
            JsonValue::Object(members) => match find_member(members, key) {
                Some(i) => Some(&members[i].1),
                None => None,
            },
            _ => None,
        }
    }

    /// Removes the member `key` from an object and hands it out; other
    /// values give `None`.
    pub fn take(self, key: &str) -> (r: Option<JsonValue>)
        ensures
            r == self.spec_get(key@),
    {
        match self {
            JsonValue::Object(mut members) => match find_member(&members, key) {
                Some(i) => {
                    let (_, v) = members.remove(i);
                    Some(v)
                },
                None => None,
            },
            _ => None,
        }
    }

    /// The value of a non-negative integer.
    pub fn as_u64(&self) -> (r: Option<u64>)
        ensures
            r == self.spec_as_u64(),
    {
        match self {
            JsonValue::Number(JsonNumber::PosInt(n)) => Some(*n),
            _ => None,
        }
    }

    /// The number a value holds.
    pub fn as_number(&self) -> (r: Option<JsonNumber>)
        ensures
            r == self.spec_as_number(),
    {
        match self {
            JsonValue::Number(n) => Some(*n),
            _ => None,
        }
    }

    /// The text of a string value.
    pub fn as_str(&self) -> (r: Option<&str>)
        ensures
            r matches Some(s) ==> self matches JsonValue::String(t) && s@ == t@,
            r is None ==> !(self is String),
    {
        match self {
            JsonValue::String(s) => Some(s.as_str()),
            _ => None,
        }
    }

    /// The elements of an array value.
    pub fn as_array(&self) -> (r: Option<&Vec<JsonValue>>)
        ensures
            r matches Some(v) ==> self matches JsonValue::Array(w) && v@ == w@,
            r is None ==> !(self is Array),
    {
        match self {
            JsonValue::Array(v) => Some(v),
            _ => None,
        }
    }
}

/// `v` is the string `s`.
pub open spec fn is_json_str(v: JsonValue, s: Seq<char>) -> bool {
    v matches JsonValue::String(t) && t@ == s
}

/// `members[i]` is named `key`.
pub open spec fn key_at(members: Seq<(String, JsonValue)>, i: int, key: Seq<char>) -> bool {
    0 <= i < members.len() && members[i].0@ == key
}

/// Makes a string value.
pub fn json_str(s: &str) -> (r: JsonValue)
    ensures
        is_json_str(r, s@),
{
    JsonValue::String(s.to_owned())
}

} // verus!
