//! JSON documents as the collectors read them: a tree of plain values, made
//! from bytes by `serde_json`, and the ways to look into it.

use vstd::prelude::*;
use crate::text::same_text;

verus! {

/// A JSON value. A number is `UInt` where it is an integer from 0 to the
/// largest `u64`, `NegInt` where it is an integer below 0 that fits `i64`,
/// and else `Real`, with the number's text.
#[derive(Debug)]
pub enum Json {
    Null,
    Bool(bool),
    UInt(u64),
    NegInt(i64),
    Real(String),
    Str(String),
    Array(Vec<Json>),
    Object(Vec<(String, Json)>),
}

/// `serde_json::Value`, of which nothing is claimed: a value of it is only
/// handed from the parser to the conversion below.
#[verifier::external_type_specification]
#[verifier::external_body]
pub struct ExValue(serde_json::Value);

/// The JSON value that a text holds, as `serde_json` parses it; nothing
/// where the text is no JSON document.
pub uninterp spec fn json_of(bytes: Seq<u8>) -> Option<Json>;

/// The variants of `serde_json::Value`, each moved over to the variant of
/// `Json` that stands for it: a number by `Number::as_u64`, `as_i64` and
/// its `Display`, the members of an object in the order in which its map
/// hands them out.
#[verifier::external_body]
fn json_from_value(v: serde_json::Value) -> Json {
    match v {
        serde_json::Value::Null => Json::Null,
        serde_json::Value::Bool(b) => Json::Bool(b),
        serde_json::Value::Number(n) => match (n.as_u64(), n.as_i64()) {
            (Some(u), _) => Json::UInt(u),
            (None, Some(i)) => Json::NegInt(i),
            (None, None) => Json::Real(n.to_string()),
        },
        serde_json::Value::String(s) => Json::Str(s),
        serde_json::Value::Array(a) => Json::Array(a.into_iter().map(json_from_value).collect()),
        serde_json::Value::Object(m) => Json::Object(
            m.into_iter().map(|(k, v)| (k, json_from_value(v))).collect(),
        ),
    }
}

/// `serde_json::from_slice` at the type `serde_json::Value`: parses one
/// JSON document that fills the whole text. The contract gives the result
/// its name and claims nothing else of it.
#[verifier::external_body]
pub(crate) fn json_from_slice(bytes: &[u8]) -> (r: Option<Json>)
    ensures
        r == json_of(bytes@),
{
    match serde_json::from_slice::<serde_json::Value>(bytes) {
        Ok(v) => Some(json_from_value(v)),
        Err(_) => None,
    }
}

/// The value of the first member named `key`, if there is one.
pub open spec fn member(entries: Seq<(String, Json)>, key: Seq<char>) -> Option<Json>
    decreases entries.len(),
{
    if entries.len() == 0 {
        None
    } else if entries[0].0@ == key {
        Some(entries[0].1)
    } else {
        member(entries.skip(1), key)
    }
}

impl Json {
    /// The member `key` of an object; nothing for a value that is no object
    /// or has no such member.
    pub open spec fn field(self, key: Seq<char>) -> Option<Json> {
        match self {
            Json::Object(entries) => member(entries@, key),
            _ => None,
        }
    }

    /// The number, where the value is an integer from 0 to the largest
    /// `u64`.
    pub open spec fn unsigned(self) -> Option<u64> {
        match self {
            Json::UInt(u) => Some(u),
            _ => None,
        }
    }

    /// The number, where the value is an integer that fits `i64`.
    pub open spec fn signed(self) -> Option<i64> {
        match self {
            Json::UInt(u) => if u <= i64::MAX {
                Some(u as i64)
            } else {
                None
            },
            Json::NegInt(i) => Some(i),
            _ => None,
        }
    }

    /// The text, where the value is a string.
    pub open spec fn text(self) -> Option<Seq<char>> {
        match self {
            Json::Str(s) => Some(s@),
            _ => None,
        }
    }

    /// The JSON value that `bytes` holds, if they hold one.
    pub fn parse(bytes: &[u8]) -> (r: Option<Json>)
        ensures
            r == json_of(bytes@),
    {
        json_from_slice(bytes)
    }

    /// The member `key` of an object.
    pub fn get(&self, key: &str) -> (r: Option<&Json>)
        ensures
            match r {
                Some(v) => self.field(key@) == Some(*v),
                None => self.field(key@) is None,
            },
    {
        match self {
            Json::Object(entries) => {
                let mut i: usize = 0;
                assert(entries@.skip(0) =~= entries@);
                while i < entries.len()
                    invariant
                        i <= entries.len(),
                        self.field(key@) == member(entries@, key@),
                        member(entries@, key@) == member(entries@.skip(i as int), key@),
                    decreases entries.len() - i,
                {
                    assert(entries@.skip(i as int)[0] == entries@[i as int]);
                    assert(entries@.skip(i as int).skip(1) =~= entries@.skip(i + 1));
                    if same_text(entries[i].0.as_str(), key) {
                        assert(entries@.skip(i as int).len() > 0);
                        assert(member(entries@.skip(i as int), key@) == Some(entries@[i as int].1));
                        return Some(&entries[i].1);
                    }
                    i += 1;
                }
                None
            },
            _ => None,
        }
    }

    /// The number, where the value is an integer from 0 to the largest
    /// `u64`.
    pub fn as_u64(&self) -> (r: Option<u64>)
        ensures
            r == self.unsigned(),
    {
        match self {
            Json::UInt(u) => Some(*u),
            _ => None,
        }
    }

    /// The number, where the value is an integer that fits `i64`.
    pub fn as_i64(&self) -> (r: Option<i64>)
        ensures
            r == self.signed(),
    {
        match self {
            Json::UInt(u) => if *u <= i64::MAX as u64 {
                Some(*u as i64)
            } else {
                None
            },
            Json::NegInt(i) => Some(*i),
            _ => None,
        }
    }

    /// The text, where the value is a string.
    pub fn as_str(&self) -> (r: Option<&str>)
        ensures
            match r {
                Some(s) => self.text() == Some(s@),
                None => self.text() is None,
            },
    {
        match self {
            Json::Str(s) => Some(s.as_str()),
            _ => None,
        }
    }
}

} // verus!
