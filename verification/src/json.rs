//! A JSON value as plain data, and the lookups the protocol code makes on it.
//!
//! Numbers keep what the logic reads of them: an integer exactly, a number
//! with a fraction or exponent by the two saturating integer casts that the
//! readers apply to it and by its floor and fraction, which order it.
use crate::text::{parse_i64, parse_i64_exec, str_eq};
use vstd::prelude::*;

verus! {

/// What a non-integer JSON number reads as: through `as i64` and `as u64`,
/// and as its floor and the part above the floor, so that two numbers can be
/// ordered by value.
#[derive(Debug, Clone, Copy, PartialEq, Eq)]
pub struct FloatCasts {
    pub as_i64: i64,
    pub as_u64: u64,
    /// The greatest integer not above the number, saturated to the `i64`
    /// range.
    pub floor: i64,
    /// The number minus its floor, in units of 2^-64 (rounded down); 0 when
    /// the floor saturated.
    pub fraction: u64,
}

#[derive(Debug, PartialEq)]
pub enum Json {
    Null,
    Bool(bool),
    /// An integer; JSON integers read here lie in `i64::MIN ..= u64::MAX`.
    Int(i128),
    /// A number written with a fraction or an exponent.
    Float(FloatCasts),
    Str(String),
    Array(Vec<Json>),
    /// Members in document order.
    Object(Vec<(String, Json)>),
}

/// The value of the first member named `key`.
pub open spec fn lookup(fields: Seq<(String, Json)>, key: Seq<char>) -> Option<Json>
    decreases fields.len(),
{
    if fields.len() == 0 {
        None
    } else if fields[0].0@ == key {
        Some(fields[0].1)
    } else {
        lookup(fields.drop_first(), key)
    }
}

/// `value[key]` for an object, `None` for anything else.
pub open spec fn get(v: Json, key: Seq<char>) -> Option<Json> {
    match v {
        Json::Object(fields) => lookup(fields@, key),
        _ => None,
    }
}

pub open spec fn as_str(v: Json) -> Option<Seq<char>> {
    match v {
        Json::Str(s) => Some(s@),
        _ => None,
    }
}

pub open spec fn as_bool(v: Json) -> Option<bool> {
    match v {
        Json::Bool(b) => Some(b),
        _ => None,
    }
}

/// An integer that fits in `i64`.
pub open spec fn as_i64(v: Json) -> Option<i64> {
    match v {
        Json::Int(n) => if i64::MIN <= n <= i64::MAX {
            Some(n as i64)
        } else {
            None
        },
        _ => None,
    }
}

/// A non-negative integer that fits in `u64`.
pub open spec fn as_u64(v: Json) -> Option<u64> {
    match v {
        Json::Int(n) => if 0 <= n <= u64::MAX {
            Some(n as u64)
        } else {
            None
        },
        _ => None,
    }
}

pub open spec fn get_str(v: Json, key: Seq<char>) -> Option<Seq<char>> {
    match get(v, key) {
        Some(x) => as_str(x),
        None => None,
    }
}

pub open spec fn get_i64(v: Json, key: Seq<char>) -> Option<i64> {
    match get(v, key) {
        Some(x) => as_i64(x),
        None => None,
    }
}

pub open spec fn get_bool(v: Json, key: Seq<char>) -> Option<bool> {
    match get(v, key) {
        Some(x) => as_bool(x),
        None => None,
    }
}

/// A string value, by reference.
pub fn json_as_str(v: &Json) -> (r: Option<&String>)
    ensures
        match r {
            Some(s) => as_str(*v) == Some(s@),
            None => as_str(*v) is None,
        },
{
    match v {
        Json::Str(s) => Some(s),
        _ => None,
    }
}

pub fn json_as_bool(v: &Json) -> (r: Option<bool>)
    ensures
        r == as_bool(*v),
{
    match v {
        Json::Bool(b) => Some(*b),
        _ => None,
    }
}

pub fn json_as_i64(v: &Json) -> (r: Option<i64>)
    ensures
        r == as_i64(*v),
{
    match v {
        Json::Int(n) => if -9223372036854775808i128 <= *n && *n <= 9223372036854775807i128 {
            Some(*n as i64)
        } else {
            None
        },
        _ => None,
    }
}

pub fn json_as_u64(v: &Json) -> (r: Option<u64>)
    ensures
        r == as_u64(*v),
{
    match v {
        Json::Int(n) => if 0i128 <= *n && *n <= 18446744073709551615i128 {
            Some(*n as u64)
        } else {
            None
        },
        _ => None,
    }
}

/// The elements of an array.
pub fn json_as_array(v: &Json) -> (r: Option<&Vec<Json>>)
    ensures
        match r {
            Some(a) => v matches Json::Array(b) && a@ == b@,
            None => !(v matches Json::Array(_)),
        },
{
    match v {
        Json::Array(a) => Some(a),
        _ => None,
    }
}

proof fn lemma_lookup_skip(fields: Seq<(String, Json)>, key: Seq<char>, i: int)
    requires
        0 <= i < fields.len(),
        fields[i].0@ != key,
    ensures
        lookup(fields.skip(i), key) == lookup(fields.skip(i + 1), key),
{
    assert(fields.skip(i).drop_first() == fields.skip(i + 1));
}

/// `v[key]`.
pub fn json_get<'a>(v: &'a Json, key: &str) -> (r: Option<&'a Json>)
    ensures
        match r {
            Some(x) => get(*v, key@) == Some(*x),
            None => get(*v, key@) is None,
        },
{
    match v {
        Json::Object(fields) => {
            let mut i: usize = 0;
            assert(fields@.skip(0) == fields@);
            while i < fields.len()
                invariant
                    i <= fields.len(),
                    get(*v, key@) == lookup(fields@.skip(i as int), key@),
                decreases fields.len() - i,
            {
                if str_eq(fields[i].0.as_str(), key) {
                    let ghost rest = fields@.skip(i as int);
                    assert(rest[0] == fields@[i as int]);
                    assert(rest.len() > 0 && rest[0].0@ == key@);
                    assert(lookup(rest, key@) == Some(rest[0].1));
                    assert(get(*v, key@) == Some(fields@[i as int].1));
                    return Some(&fields[i].1);
                }
                proof {
                    lemma_lookup_skip(fields@, key@, i as int);
                }
                i = i + 1;
            }
            None
        },
        _ => None,
    }
}

/// The members of an object, moved out of it.
fn into_members(v: Json) -> (r: Option<Vec<(String, Json)>>)
    ensures
        match v {
            Json::Object(f) => r == Some(f),
            _ => r is None,
        },
{
    match v {
        Json::Object(f) => Some(f),
        _ => None,
    }
}

/// `v[key]`, moved out of `v`.
pub fn json_take(v: Json, key: &str) -> (r: Option<Json>)
    ensures
        r == get(v, key@),
{
    let ghost whole = v;
    let mut fields = match into_members(v) {
        Some(f) => f,
        None => return None,
    };
    let ghost all = fields@;
    assert(get(whole, key@) == lookup(all, key@));
    assert(all.skip(0) == all);
    let mut i: usize = 0;
    while i < fields.len()
        invariant
            i <= fields.len(),
            fields@ == all,
            whole == v,
            get(whole, key@) == lookup(all.skip(i as int), key@),
        decreases fields.len() - i,
    {
        if str_eq(fields[i].0.as_str(), key) {
            let ghost rest = all.skip(i as int);
            assert(rest[0] == all[i as int]);
            assert(rest.len() > 0 && rest[0].0@ == key@);
            assert(lookup(rest, key@) == Some(rest[0].1));
            let member = fields.swap_remove(i);
            return Some(member.1);
        }
        proof {
            lemma_lookup_skip(all, key@, i as int);
        }
        i = i + 1;
    }
    None
}

/// `v[key]` as a string.
pub fn json_get_str<'a>(v: &'a Json, key: &str) -> (r: Option<&'a String>)
    ensures
        match r {
            Some(s) => get_str(*v, key@) == Some(s@),
            None => get_str(*v, key@) is None,
        },
{
    match json_get(v, key) {
        Some(x) => json_as_str(x),
        None => None,
    }
}

/// `v[key]` as an `i64`.
pub fn json_get_i64(v: &Json, key: &str) -> (r: Option<i64>)
    ensures
        r == get_i64(*v, key@),
{
    match json_get(v, key) {
        Some(x) => json_as_i64(x),
        None => None,
    }
}

/// `v[key]` as a boolean.
pub fn json_get_bool(v: &Json, key: &str) -> (r: Option<bool>)
    ensures
        r == get_bool(*v, key@),
{
    match json_get(v, key) {
        Some(x) => json_as_bool(x),
        None => None,
    }
}


/// A number in `i64`: an integer as it is (saturated at `i64::MAX` above
/// it), a float by its `as i64` cast, a string by `str::parse`.
pub open spec fn lenient_i64(v: Json) -> Option<i64> {
    match v {
        Json::Int(n) => if n < i64::MIN {
            None
        } else if n <= i64::MAX {
            Some(n as i64)
        } else {
            Some(i64::MAX)
        },
        Json::Float(c) => Some(c.as_i64),
        Json::Str(s) => parse_i64(s@),
        _ => None,
    }
}

/// A number in `u64`: an integer as it is (a negative one reads as 0), a
/// float by its `as u64` cast.
pub open spec fn lenient_u64(v: Json) -> Option<u64> {
    match v {
        Json::Int(n) => if n < i64::MIN {
            None
        } else if n < 0 {
            Some(0)
        } else if n <= u64::MAX {
            Some(n as u64)
        } else {
            None
        },
        Json::Float(c) => Some(c.as_u64),
        _ => None,
    }
}

/// Reads an integer from whatever a client sent: a JSON integer, a float
/// (truncated), or a numeric string.
pub fn value_as_i64(v: &Json) -> (r: Option<i64>)
    ensures
        r == lenient_i64(*v),
{
    match v {
        Json::Int(n) => if *n < -9223372036854775808i128 {
            None
        } else if *n <= 9223372036854775807i128 {
            Some(*n as i64)
        } else {
            Some(9223372036854775807i64)
        },
        Json::Float(c) => Some(c.as_i64),
        Json::Str(s) => parse_i64_exec(s.as_str()),
        _ => None,
    }
}

/// Reads a non-negative integer: a JSON integer (negative ones as 0) or a
/// float (truncated).
pub fn value_as_u64(v: &Json) -> (r: Option<u64>)
    ensures
        r == lenient_u64(*v),
{
    match v {
        Json::Int(n) => if *n < -9223372036854775808i128 {
            None
        } else if *n < 0 {
            Some(0)
        } else if *n <= 18446744073709551615i128 {
            Some(*n as u64)
        } else {
            None
        },
        Json::Float(c) => Some(c.as_u64),
        _ => None,
    }
}

} // verus!
