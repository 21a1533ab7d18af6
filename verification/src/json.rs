//! The shape of a request body.
//!
//! A body arrives as a tree of values: text, numbers, truth values, lists and
//! keyed members. The registry only ever asks two things of such a tree: which
//! value stands under a given key, and whether a value is text.

use vstd::prelude::*;
use crate::text::str_equal;

verus! {

/// One value of a structured request body.
#[derive(Debug)]
pub enum JsonValue {
    /// The absent value.
    Null,
    /// A truth value.
    Bool(bool),
    /// A number, kept as the decimal text it was written with.
    Number(String),
    /// A text.
    String(String),
    /// A list of values.
    Array(Vec<JsonValue>),
    /// Keyed members, in the order in which they were written.
    Object(Vec<(String, JsonValue)>),
}

/// The first member at or after position `from` whose key is `key`.
pub open spec fn first_member(
    members: Seq<(String, JsonValue)>,
    key: Seq<char>,
    from: int,
) -> Option<JsonValue>
    decreases members.len() - from,
{
    if from < 0 || from >= members.len() {
        None
    } else if members[from].0@ == key {
        Some(members[from].1)
    } else {
        first_member(members, key, from + 1)
    }
}

impl JsonValue {
    /// The text that this value holds, if it is a text.
    pub open spec fn text(self) -> Option<Seq<char>> {
        match self {
            JsonValue::String(s) => Some(s@),
            _ => None,
        }
    }

    /// The value under `key`, if this value has keyed members and one of them
    /// carries that key. Where several do, the first one counts.
    pub open spec fn member(self, key: Seq<char>) -> Option<JsonValue> {
        match self {
            JsonValue::Object(members) => first_member(members@, key, 0),
            _ => None,
        }
    }

    /// Returns the text of a text value, and nothing for any other value.
    pub fn as_str(&self) -> (text: Option<&str>)
        ensures
            text.is_some() == self.text().is_some(),
            text matches Some(t) ==> self.text() == Some(t@),
    {
        match self {
            JsonValue::String(s) => Some(s.as_str()),
            _ => None,
        }
    }

    /// Returns the value under `key`: the first member with that key where
    /// this value has keyed members, and nothing otherwise.
    pub fn get(&self, key: &str) -> (found: Option<&JsonValue>)
        ensures
            found.is_some() == self.member(key@).is_some(),
            found matches Some(v) ==> self.member(key@) == Some(*v),
    {
        match self {
            JsonValue::Object(members) => {
                let mut i: usize = 0;
                while i < members.len()
                    invariant
                        i <= members.len(),
                        self.member(key@) == first_member(members@, key@, i as int),
                    decreases members.len() - i,
                {
                    if str_equal(members[i].0.as_str(), key) {
                        return Some(&members[i].1);
                    }
                    i = i + 1;
                }
                None
            },
            _ => None,
        }
    }
}

} // verus!
