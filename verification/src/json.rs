//! A JSON document model: the values the library reads from and writes to KDF.

use vstd::prelude::*;

verus! {

/// A JSON number as KDF's JSON carries it.
#[derive(Debug, Clone, PartialEq, Eq)]
pub enum JsonNumber {
    /// A non-negative integer.
    UInt(u64),
    /// A negative integer.
    Int(i64),
    /// Any other number, kept as its decimal text.
    Float(String),
}

/// A JSON value; objects keep their members in order.
#[derive(Debug)]
pub enum JsonValue {
    Null,
    Bool(bool),
    Number(JsonNumber),
    Str(String),
    Array(Vec<JsonValue>),
    Object(Vec<(String, JsonValue)>),
}

/// The mathematical shape of a JSON number.
pub enum NumberModel {
    UInt(nat),
    Int(int),
    Float(Seq<char>),
}

/// The mathematical shape of a JSON value.
pub enum Json {
    Null,
    Bool(bool),
    Number(NumberModel),
    Str(Seq<char>),
    Array(Seq<Json>),
    Object(Seq<(Seq<char>, Json)>),
}

pub open spec fn number_model(n: JsonNumber) -> NumberModel {
    match n {
        JsonNumber::UInt(u) => NumberModel::UInt(u as nat),
        JsonNumber::Int(i) => NumberModel::Int(i as int),
        JsonNumber::Float(s) => NumberModel::Float(s@),
    }
}

pub open spec fn json_model(v: JsonValue) -> Json
    decreases v, 1int,
{
    match v {
        JsonValue::Null => Json::Null,
        JsonValue::Bool(b) => Json::Bool(b),
        JsonValue::Number(n) => Json::Number(number_model(n)),
        JsonValue::Str(s) => Json::Str(s@),
        JsonValue::Array(a) => Json::Array(seq_model(a@)),
        JsonValue::Object(o) => Json::Object(members_model(o@)),
    }
}

pub open spec fn seq_model(s: Seq<JsonValue>) -> Seq<Json>
    decreases s, 0int,
{
    if s.len() == 0 {
        Seq::empty()
    } else {
        seq_model(s.drop_last()).push(json_model(s.last()))
    }
}

pub open spec fn members_model(s: Seq<(String, JsonValue)>) -> Seq<(Seq<char>, Json)>
    decreases s, 0int,
{
    if s.len() == 0 {
        Seq::empty()
    } else {
        members_model(s.drop_last()).push((s.last().0@, json_model(s.last().1)))
    }
}

} // verus!

verus! {

impl View for JsonValue {
    type V = Json;

    open spec fn view(&self) -> Json {
        json_model(*self)
    }
}

/// The value stored under `key` among `members` (the first such member).
pub open spec fn member_get(members: Seq<(Seq<char>, Json)>, key: Seq<char>) -> Option<Json>
    decreases members.len(),
{
    if members.len() == 0 {
        None
    } else if members[0].0 == key {
        Some(members[0].1)
    } else {
        member_get(members.drop_first(), key)
    }
}

/// `value[key]` for an object, nothing for any other value.
pub open spec fn json_get(v: Json, key: Seq<char>) -> Option<Json> {
    match v {
        Json::Object(ms) => member_get(ms, key),
        _ => None,
    }
}

/// The text of a JSON string.
pub open spec fn json_as_str(v: Option<Json>) -> Option<Seq<char>> {
    match v {
        Some(Json::Str(s)) => Some(s),
        _ => None,
    }
}

/// The value of a non-negative JSON integer.
pub open spec fn json_as_u64(v: Option<Json>) -> Option<nat> {
    match v {
        Some(Json::Number(NumberModel::UInt(n))) => Some(n),
        _ => None,
    }
}

pub proof fn lemma_seq_model(s: Seq<JsonValue>)
    ensures
        seq_model(s).len() == s.len(),
        forall|i: int| 0 <= i < s.len() ==> #[trigger] seq_model(s)[i] == json_model(s[i]),
    decreases s.len(),
{
    if s.len() > 0 {
        lemma_seq_model(s.drop_last());
    }
}

pub proof fn lemma_members_model(s: Seq<(String, JsonValue)>)
    ensures
        members_model(s).len() == s.len(),
        forall|i: int|
            0 <= i < s.len() ==> #[trigger] members_model(s)[i] == (s[i].0@, json_model(s[i].1)),
    decreases s.len(),
{
    if s.len() > 0 {
        lemma_members_model(s.drop_last());
    }
}

/// `member_get` finds the first member with the key.
pub proof fn lemma_member_get_index(members: Seq<(Seq<char>, Json)>, key: Seq<char>, i: int)
    requires
        0 <= i < members.len(),
        members[i].0 == key,
        forall|j: int| 0 <= j < i ==> members[j].0 != key,
    ensures
        member_get(members, key) == Some(members[i].1),
    decreases i,
{
    if i > 0 {
        lemma_member_get_index(members.drop_first(), key, i - 1);
    }
}

/// `member_get` finds nothing when no member has the key.
pub proof fn lemma_member_get_none(members: Seq<(Seq<char>, Json)>, key: Seq<char>)
    requires
        forall|j: int| 0 <= j < members.len() ==> members[j].0 != key,
    ensures
        member_get(members, key) is None,
    decreases members.len(),
{
    if members.len() > 0 {
        lemma_member_get_none(members.drop_first(), key);
    }
}

impl JsonValue {
    /// `value.get(key)`: the member `key` of an object.
    pub fn get(&self, key: &str) -> (r: Option<&JsonValue>)
        ensures
            r is Some <==> json_get(self@, key@) is Some,
            r matches Some(x) ==> json_get(self@, key@) == Some(x@),
    {
        match self {
            JsonValue::Object(members) => {
                proof {
                    lemma_members_model(members@);
                }
                let ghost ms = members_model(members@);
                let mut i: usize = 0;
                while i < members.len()
                    invariant
                        i <= members@.len(),
                        ms == members_model(members@),
                        ms.len() == members@.len(),
                        forall|k: int| 0 <= k < members@.len() ==> #[trigger] ms[k] == (members@[k].0@, json_model(members@[k].1)),
                        forall|j: int| 0 <= j < i ==> ms[j].0 != key@,
                        self@ == Json::Object(ms),
                    decreases members@.len() - i,
                {
                    if crate::text::str_eq(members[i].0.as_str(), key) {
                        proof {
                            lemma_member_get_index(ms, key@, i as int);
                        }
                        return Some(&members[i].1);
                    }
                    i = i + 1;
                }
                proof {
                    lemma_member_get_none(ms, key@);
                }
                None
            },
            _ => None,
        }
    }

    /// `value.as_str()`: the text of a string.
    pub fn as_str(&self) -> (r: Option<&str>)
        ensures
            r is Some <==> json_as_str(Some(self@)) is Some,
            r matches Some(s) ==> json_as_str(Some(self@)) == Some(s@),
    {
        match self {
            JsonValue::Str(s) => Some(s.as_str()),
            _ => None,
        }
    }

    /// `value.as_u64()`: the value of a non-negative integer.
    pub fn as_u64(&self) -> (r: Option<u64>)
        ensures
            r is Some <==> json_as_u64(Some(self@)) is Some,
            r matches Some(n) ==> json_as_u64(Some(self@)) == Some(n as nat),
    {
        match self {
            JsonValue::Number(JsonNumber::UInt(n)) => Some(*n),
            _ => None,
        }
    }

    /// `value.as_array()`: the elements of an array.
    pub fn as_array(&self) -> (r: Option<&Vec<JsonValue>>)
        ensures
            r is Some <==> self@ is Array,
            r matches Some(a) ==> self@ == Json::Array(seq_model(a@)),
    {
        match self {
            JsonValue::Array(a) => Some(a),
            _ => None,
        }
    }
}

/// The text of an optional string member, as returned by `get(..).and_then(as_str)`.
pub fn member_str<'a>(v: &'a JsonValue, key: &str) -> (r: Option<&'a str>)
    ensures
        r is Some <==> json_as_str(json_get(v@, key@)) is Some,
        r matches Some(s) ==> json_as_str(json_get(v@, key@)) == Some(s@),
{
    match v.get(key) {
        Some(x) => x.as_str(),
        None => None,
    }
}

/// A string value.
pub fn json_string(s: &str) -> (r: JsonValue)
    ensures
        r@ == Json::Str(s@),
{
    JsonValue::Str(String::from_str(s))
}

} // verus!

verus! {

/// A non-negative integer value.
pub open spec fn uint(n: nat) -> Json {
    Json::Number(NumberModel::UInt(n))
}

/// Appends the member `key: value` to an object's member list.
pub fn push_member(members: &mut Vec<(String, JsonValue)>, key: &str, value: JsonValue)
    ensures
        members_model(final(members)@) == members_model(old(members)@).push((key@, value@)),
{
    let k = String::from_str(key);
    let ghost entry = (k, value);
    members.push((k, value));
    assert(final(members)@.drop_last() =~= old(members)@);
    assert(final(members)@.last() == entry);
}

/// Appends `value` to an array's element list.
pub fn push_element(elements: &mut Vec<JsonValue>, value: JsonValue)
    ensures
        seq_model(final(elements)@) == seq_model(old(elements)@).push(value@),
{
    elements.push(value);
    assert(final(elements)@.drop_last() =~= old(elements)@);
}

/// An unsigned integer value.
pub fn uint_value(n: u64) -> (r: JsonValue)
    ensures
        r@ == uint(n as nat),
{
    JsonValue::Number(JsonNumber::UInt(n))
}

} // verus!
