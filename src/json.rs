//! A JSON document tree owned by the library, the text parser behind it, and
//! typed accessors whose results are stated over spec functions.
use vstd::prelude::*;
use vstd::string::*;

verus! {

/// A parsed JSON value. Numbers are kept as integers where they are integral;
/// a number with a fraction or an exponent is only recorded as `Fraction`.
#[derive(Debug)]
pub enum JsonValue {
    Null,
    Bool(bool),
    /// A non-negative integer that fits in `u64`.
    UInt(u64),
    /// A negative integer that fits in `i64`.
    NegInt(i64),
    /// A number that is not held as an integer.
    Fraction,
    Str(String),
    Array(Vec<JsonValue>),
    /// Members in document order.
    Object(Vec<(String, JsonValue)>),
}

#[verifier::external_type_specification]
#[verifier::external_body]
pub struct ExOutsideJson(serde_json::Value);

/// What serde_json makes of a text: the parsed tree, or `None` where the text
/// is no JSON document. It depends on the text alone.
pub uninterp spec fn parsed_json(text: Seq<char>) -> Option<JsonValue>;

/// Relies on `serde_json::Value`'s variants and on `serde_json::Number::as_u64`
/// and `as_i64`: moves a tree of serde_json into the library's own tree.
#[verifier::external_body]
fn json_from_outside(v: serde_json::Value) -> (r: JsonValue) {
    match v {
        serde_json::Value::Null => JsonValue::Null,
        serde_json::Value::Bool(b) => JsonValue::Bool(b),
        serde_json::Value::Number(n) => match (n.as_u64(), n.as_i64()) {
            (Some(u), _) => JsonValue::UInt(u),
            (None, Some(i)) => JsonValue::NegInt(i),
            (None, None) => JsonValue::Fraction,
        },
        serde_json::Value::String(s) => JsonValue::Str(s),
        serde_json::Value::Array(a) => JsonValue::Array(a.into_iter().map(json_from_outside).collect()),
        serde_json::Value::Object(m) => JsonValue::Object(m.into_iter().map(|(k, x)| (k, json_from_outside(x))).collect()),
    }
}

/// Relies on `serde_json::from_str::<serde_json::Value>`: parses a JSON text,
/// `None` where serde_json reports an error.
#[verifier::external_body]
pub(crate) fn parse_json(text: &str) -> (r: Option<JsonValue>)
    ensures
        r == parsed_json(text@),
{
    serde_json::from_str::<serde_json::Value>(text).ok().map(json_from_outside)
}

/// The value of the first member named `key` among `members`.
pub open spec fn member_value(members: Seq<(String, JsonValue)>, key: Seq<char>) -> Option<JsonValue>
    decreases members.len(),
{
    if members.len() == 0 {
        None
    } else if members[0].0@ == key {
        Some(members[0].1)
    } else {
        member_value(members.drop_first(), key)
    }
}

/// The member `key` of an object; `None` for a value that is no object.
pub open spec fn spec_field(v: JsonValue, key: Seq<char>) -> Option<JsonValue> {
    match v {
        JsonValue::Object(members) => member_value(members@, key),
        _ => None,
    }
}

/// A JSON value read as `u64`: only a non-negative integer qualifies.
pub open spec fn spec_u64(v: JsonValue) -> Option<u64> {
    match v {
        JsonValue::UInt(n) => Some(n),
        _ => None,
    }
}

/// A JSON value read as `i64`: an integer in `i64`'s range.
pub open spec fn spec_i64(v: JsonValue) -> Option<i64> {
    match v {
        JsonValue::UInt(n) => if n <= i64::MAX as u64 { Some(n as i64) } else { None },
        JsonValue::NegInt(n) => Some(n),
        _ => None,
    }
}

/// A JSON value read as a byte: an integer from 0 to 255.
pub open spec fn spec_u8(v: JsonValue) -> Option<u8> {
    match v {
        JsonValue::UInt(n) => if n <= u8::MAX as u64 { Some(n as u8) } else { None },
        _ => None,
    }
}

/// A JSON value read as a string.
pub open spec fn spec_str(v: JsonValue) -> Option<Seq<char>> {
    match v {
        JsonValue::Str(s) => Some(s@),
        _ => None,
    }
}

/// A JSON value read as an array.
pub open spec fn spec_array(v: JsonValue) -> Option<Seq<JsonValue>> {
    match v {
        JsonValue::Array(a) => Some(a@),
        _ => None,
    }
}

/// An optional `u64` member: absent or `null` gives `Some(None)`, an
/// integer gives `Some(Some(n))`, anything else fails.
pub open spec fn spec_opt_u64(v: Option<JsonValue>) -> Option<Option<u64>> {
    match v {
        None => Some(None),
        Some(JsonValue::Null) => Some(None),
        Some(x) => match spec_u64(x) {
            Some(n) => Some(Some(n)),
            None => None,
        },
    }
}

/// A pair of integers, written as an array of exactly two.
pub open spec fn spec_pair(v: JsonValue) -> Option<(i64, i64)> {
    match v {
        JsonValue::Array(a) => if a@.len() == 2 {
            match (spec_i64(a@[0]), spec_i64(a@[1])) {
                (Some(x), Some(y)) => Some((x, y)),
                _ => None,
            }
        } else {
            None
        },
        _ => None,
    }
}

/// Looks up the member `key` of an object, the first one where several share it.
pub fn get_field<'a>(v: &'a JsonValue, key: &str) -> (r: Option<&'a JsonValue>)
    ensures
        r is Some == spec_field(*v, key@) is Some,
        r is Some ==> *r->Some_0 == spec_field(*v, key@)->Some_0,
{
    match v {
        JsonValue::Object(members) => {
            let k = key.to_owned();
            let mut i: usize = 0;
            assert(members@.subrange(0, members@.len() as int) =~= members@);
            while i < members.len()
                invariant
                    0 <= i <= members@.len(),
                    k@ == key@,
                    spec_field(*v, key@) == member_value(members@, key@),
                    member_value(members@, key@) == member_value(members@.subrange(i as int, members@.len() as int), key@),
                decreases members@.len() - i,
            {
                proof {
                    let rest = members@.subrange(i as int, members@.len() as int);
                    assert(rest.drop_first() =~= members@.subrange(i + 1, members@.len() as int));
                    assert(rest[0] == members@[i as int]);
                }
                if members[i].0 == k {
                    return Some(&members[i].1);
                }
                i = i + 1;
            }
            None
        },
        _ => None,
    }
}

/// Reads a value as `u64`.
pub fn as_u64(v: &JsonValue) -> (r: Option<u64>)
    ensures
        r == spec_u64(*v),
{
    match v {
        JsonValue::UInt(n) => Some(*n),
        _ => None,
    }
}

/// Reads a value as `i64`.
pub fn as_i64(v: &JsonValue) -> (r: Option<i64>)
    ensures
        r == spec_i64(*v),
{
    match v {
        JsonValue::UInt(n) => if *n <= i64::MAX as u64 { Some(*n as i64) } else { None },
        JsonValue::NegInt(n) => Some(*n),
        _ => None,
    }
}

/// Reads a value as a byte.
pub fn as_u8(v: &JsonValue) -> (r: Option<u8>)
    ensures
        r == spec_u8(*v),
{
    match v {
        JsonValue::UInt(n) => if *n <= u8::MAX as u64 { Some(*n as u8) } else { None },
        _ => None,
    }
}

/// Reads a value as a string.
pub fn as_string(v: &JsonValue) -> (r: Option<String>)
    ensures
        r is Some == spec_str(*v) is Some,
        r is Some ==> r->Some_0@ == spec_str(*v)->Some_0,
{
    match v {
        JsonValue::Str(s) => Some(s.clone()),
        _ => None,
    }
}

/// Reads an optional `u64` member, where absence and `null` both mean `None`.
pub fn as_opt_u64(v: Option<&JsonValue>) -> (r: Option<Option<u64>>)
    ensures
        r == spec_opt_u64(match v { Some(x) => Some(*x), None => None }),
{
    match v {
        None => Some(None),
        Some(JsonValue::Null) => Some(None),
        Some(x) => match as_u64(x) {
            Some(n) => Some(Some(n)),
            None => None,
        },
    }
}

/// Reads a pair of integers written as a two-element array.
pub fn as_pair(v: &JsonValue) -> (r: Option<(i64, i64)>)
    ensures
        r == spec_pair(*v),
{
    match v {
        JsonValue::Array(a) => {
            if a.len() == 2 {
                match (as_i64(&a[0]), as_i64(&a[1])) {
                    (Some(x), Some(y)) => Some((x, y)),
                    _ => None,
                }
            } else {
                None
            }
        },
        _ => None,
    }
}

/// The member `key` read as `u64`.
pub open spec fn field_u64(v: JsonValue, key: Seq<char>) -> Option<u64> {
    match spec_field(v, key) {
        Some(x) => spec_u64(x),
        None => None,
    }
}

/// The member `key` read as `i64`.
pub open spec fn field_i64(v: JsonValue, key: Seq<char>) -> Option<i64> {
    match spec_field(v, key) {
        Some(x) => spec_i64(x),
        None => None,
    }
}

/// The member `key` read as a string.
pub open spec fn field_str(v: JsonValue, key: Seq<char>) -> Option<Seq<char>> {
    match spec_field(v, key) {
        Some(x) => spec_str(x),
        None => None,
    }
}

/// The member `key` read as an array.
pub open spec fn field_array(v: JsonValue, key: Seq<char>) -> Option<Seq<JsonValue>> {
    match spec_field(v, key) {
        Some(x) => spec_array(x),
        None => None,
    }
}

/// The member `key` read as a pair of integers.
pub open spec fn field_pair(v: JsonValue, key: Seq<char>) -> Option<(i64, i64)> {
    match spec_field(v, key) {
        Some(x) => spec_pair(x),
        None => None,
    }
}

/// The member `key` read as an optional `u64`.
pub open spec fn field_opt_u64(v: JsonValue, key: Seq<char>) -> Option<Option<u64>> {
    spec_opt_u64(spec_field(v, key))
}

/// Whether a string holds exactly the characters of `name`.
pub fn text_equals(s: &String, name: &str) -> (r: bool)
    ensures
        r == (s@ == name@),
{
    *s == name.to_owned()
}

/// Reads the member `key` as `u64`.
pub fn read_u64(v: &JsonValue, key: &str) -> (r: Option<u64>)
    ensures
        r == field_u64(*v, key@),
{
    match get_field(v, key) {
        Some(x) => as_u64(x),
        None => None,
    }
}

/// Reads the member `key` as `i64`.
pub fn read_i64(v: &JsonValue, key: &str) -> (r: Option<i64>)
    ensures
        r == field_i64(*v, key@),
{
    match get_field(v, key) {
        Some(x) => as_i64(x),
        None => None,
    }
}

/// Reads the member `key` as a string.
pub fn read_string(v: &JsonValue, key: &str) -> (r: Option<String>)
    ensures
        r is Some == field_str(*v, key@) is Some,
        r is Some ==> r->Some_0@ == field_str(*v, key@)->Some_0,
{
    match get_field(v, key) {
        Some(x) => as_string(x),
        None => None,
    }
}

/// Reads the member `key` as an array.
pub fn read_array<'a>(v: &'a JsonValue, key: &str) -> (r: Option<&'a Vec<JsonValue>>)
    ensures
        r is Some == field_array(*v, key@) is Some,
        r is Some ==> r->Some_0@ == field_array(*v, key@)->Some_0,
{
    match get_field(v, key) {
        Some(JsonValue::Array(a)) => Some(a),
        _ => None,
    }
}

/// Reads the member `key` as a pair of integers.
pub fn read_pair(v: &JsonValue, key: &str) -> (r: Option<(i64, i64)>)
    ensures
        r == field_pair(*v, key@),
{
    match get_field(v, key) {
        Some(x) => as_pair(x),
        None => None,
    }
}

/// Reads the member `key` as an optional `u64`.
pub fn read_opt_u64(v: &JsonValue, key: &str) -> (r: Option<Option<u64>>)
    ensures
        r == field_opt_u64(*v, key@),
{
    as_opt_u64(get_field(v, key))
}

} // verus!
