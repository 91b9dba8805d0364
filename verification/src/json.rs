//! A JSON document as the trace renderer reads it.
//!
//! Numbers keep what the renderer asks of them: whether they are a
//! non-negative integer that fits in a `u64` (and which), a negative one
//! that fits in an `i64`, or neither.
use vstd::prelude::*;

verus! {

/// A JSON number.
#[derive(Debug)]
pub enum JsonNumber {
    /// A non-negative integer that fits in a `u64`.
    PosInt(u64),
    /// A negative integer that fits in an `i64`.
    NegInt(i64),
    /// Any other number (with a fraction or an exponent, or out of range).
    Other,
}

/// One `"key": value` member of a JSON object.
#[derive(Debug)]
pub struct JsonMember {
    pub key: String,
    pub value: Json,
}

/// A JSON value.
#[derive(Debug)]
pub enum Json {
    Null,
    Bool(bool),
    Number(JsonNumber),
    Str(String),
    Array(Vec<Json>),
    Object(Vec<JsonMember>),
}

/// The value of the first member of `members` with key `key`.
pub open spec fn member_lookup(members: Seq<JsonMember>, key: Seq<char>) -> Option<Json>
    decreases members.len(),
{
    if members.len() == 0 {
        None
    } else if members[0].key@ == key {
        Some(members[0].value)
    } else {
        member_lookup(members.drop_first(), key)
    }
}

/// `value.get(key)`: the member `key` of an object; nothing for other values.
pub open spec fn json_get(v: Json, key: Seq<char>) -> Option<Json> {
    match v {
        Json::Object(members) => member_lookup(members@, key),
        _ => None,
    }
}

/// `json_get` on a value that may be absent.
pub open spec fn json_get_opt(v: Option<Json>, key: Seq<char>) -> Option<Json> {
    match v {
        Some(v) => json_get(v, key),
        None => None,
    }
}

/// The elements of an array; nothing for other values.
pub open spec fn json_as_array(v: Option<Json>) -> Option<Seq<Json>> {
    match v {
        Some(Json::Array(items)) => Some(items@),
        _ => None,
    }
}

/// The text of a string; nothing for other values.
pub open spec fn json_as_str(v: Option<Json>) -> Option<Seq<char>> {
    match v {
        Some(Json::Str(s)) => Some(s@),
        _ => None,
    }
}

/// The value of a non-negative integer that fits in a `u64`; nothing for
/// other values.
pub open spec fn json_as_u64(v: Option<Json>) -> Option<u64> {
    match v {
        Some(Json::Number(JsonNumber::PosInt(n))) => Some(n),
        _ => None,
    }
}

/// A reference to an optional value, as an optional value.
pub open spec fn deref_opt(r: Option<&Json>) -> Option<Json> {
    match r {
        Some(v) => Some(*v),
        None => None,
    }
}

impl Json {
    /// The member `key` of an object (the first, if several have that key).
    pub fn get(&self, key: &str) -> (r: Option<&Json>)
        ensures
            deref_opt(r) == json_get(*self, key@),
    {
        match self {
            Json::Object(members) => {
                let n = members.len();
                let mut i: usize = 0;
                assert(members@.skip(0) =~= members@);
                while i < n
                    invariant
                        json_get(*self, key@) == member_lookup(members@, key@),
                        n == members@.len(),
                        i <= n,
                        member_lookup(members@, key@) == member_lookup(members@.skip(i as int), key@),
                    decreases n - i,
                {
                    let m = &members[i];
                    assert(members@.skip(i as int)[0] == members@[i as int]);
                    assert(members@.skip(i as int).drop_first() =~= members@.skip(i + 1));
                    if crate::text::str_equals(m.key.as_str(), key) {
                        assert(member_lookup(members@.skip(i as int), key@) == Some(members@[i as int].value));
                        return Some(&m.value);
                    }
                    i = i + 1;
                }
                None
            },
            _ => None,
        }
    }
}

/// `json_get` on a value that may be absent.
pub fn get_opt<'a>(v: Option<&'a Json>, key: &str) -> (r: Option<&'a Json>)
    ensures
        deref_opt(r) == json_get_opt(deref_opt(v), key@),
{
    match v {
        Some(v) => v.get(key),
        None => None,
    }
}

/// The elements of an array.
pub fn as_array(v: Option<&Json>) -> (r: Option<&Vec<Json>>)
    ensures
        match r {
            Some(items) => json_as_array(deref_opt(v)) == Some(items@),
            None => json_as_array(deref_opt(v)) is None,
        },
{
    match v {
        Some(Json::Array(items)) => Some(items),
        _ => None,
    }
}

/// The text of a string.
pub fn as_str(v: Option<&Json>) -> (r: Option<&String>)
    ensures
        match r {
            Some(s) => json_as_str(deref_opt(v)) == Some(s@),
            None => json_as_str(deref_opt(v)) is None,
        },
{
    match v {
        Some(Json::Str(s)) => Some(s),
        _ => None,
    }
}

/// The value of a non-negative integer that fits in a `u64`.
pub fn as_u64(v: Option<&Json>) -> (r: Option<u64>)
    ensures
        r == json_as_u64(deref_opt(v)),
{
    match v {
        Some(Json::Number(JsonNumber::PosInt(n))) => Some(*n),
        _ => None,
    }
}

proof fn lemma_member_lookup_first(members: Seq<JsonMember>, key: Seq<char>, j: int)
    requires
        0 <= j < members.len(),
        members[j].key@ == key,
        forall|i: int| 0 <= i < j ==> #[trigger] members[i].key@ != key,
    ensures
        member_lookup(members, key) == Some(members[j].value),
    decreases j,
{
    if j > 0 {
        let rest = members.drop_first();
        assert(members[0].key@ != key);
        assert forall|i: int| 0 <= i < j - 1 implies #[trigger] rest[i].key@ != key by {
            assert(rest[i] == members[i + 1]);
        }
        lemma_member_lookup_first(rest, key, j - 1);
    }
}

proof fn lemma_member_lookup_absent(members: Seq<JsonMember>, key: Seq<char>)
    requires
        forall|i: int| 0 <= i < members.len() ==> #[trigger] members[i].key@ != key,
    ensures
        member_lookup(members, key) is None,
    decreases members.len(),
{
    if members.len() > 0 {
        let rest = members.drop_first();
        assert forall|i: int| 0 <= i < rest.len() implies #[trigger] rest[i].key@ != key by {
            assert(rest[i] == members[i + 1]);
        }
        lemma_member_lookup_absent(rest, key);
    }
}

/// The member `key` of an object is the value of its first member with that
/// key, and there is none when no member has it; other values have no
/// members.
pub proof fn object_member_is_first_with_key(members: Seq<JsonMember>, key: Seq<char>, j: int)
    ensures
        (0 <= j < members.len() && members[j].key@ == key && forall|i: int|
            0 <= i < j ==> #[trigger] members[i].key@ != key) ==> member_lookup(members, key) == Some(
            members[j].value,
        ),
        (forall|i: int| 0 <= i < members.len() ==> #[trigger] members[i].key@ != key) ==> member_lookup(
            members,
            key,
        ) is None,
        json_get(Json::Null, key) is None,
        forall|items: Vec<Json>| #[trigger] json_get(Json::Array(items), key) is None,
        forall|s: String| #[trigger] json_get(Json::Str(s), key) is None,
{
    if 0 <= j < members.len() && members[j].key@ == key && forall|i: int|
        0 <= i < j ==> #[trigger] members[i].key@ != key {
        lemma_member_lookup_first(members, key, j);
    }
    if forall|i: int| 0 <= i < members.len() ==> #[trigger] members[i].key@ != key {
        lemma_member_lookup_absent(members, key);
    }
}

/// A number is read as a `u64` exactly when it is a non-negative integer
/// that fits; a string is read as its text; an array as its elements; any
/// other value, or none, is not read as these.
pub proof fn json_readings(v: Option<Json>)
    ensures
        forall|n: u64| #[trigger] json_as_u64(Some(Json::Number(JsonNumber::PosInt(n)))) == Some(n),
        forall|n: i64| #[trigger] json_as_u64(Some(Json::Number(JsonNumber::NegInt(n)))) is None,
        json_as_u64(Some(Json::Number(JsonNumber::Other))) is None,
        forall|t: String| #[trigger] json_as_str(Some(Json::Str(t))) == Some(t@),
        forall|items: Vec<Json>| #[trigger] json_as_array(Some(Json::Array(items))) == Some(items@),
        json_as_u64(None) is None && json_as_str(None) is None && json_as_array(None) is None,
        !(v matches Some(Json::Number(JsonNumber::PosInt(_)))) ==> json_as_u64(v) is None,
        !(v matches Some(Json::Str(_))) ==> json_as_str(v) is None,
        !(v matches Some(Json::Array(_))) ==> json_as_array(v) is None,
{
}

} // verus!
