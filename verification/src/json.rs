//! A JSON document as the agent reads it.

use vstd::prelude::*;
use crate::text::same;

verus! {

/// A JSON value.
#[derive(Debug)]
pub enum Json {
    /// `null`.
    Null,
    /// `true` or `false`.
    Bool(bool),
    /// A whole number from zero up.
    Unsigned(u64),
    /// Any other number.
    Number,
    /// A string.
    Text(String),
    /// An array.
    Array(Vec<Json>),
    /// An object: its members, name by name.
    Object(Vec<(String, Json)>),
}

/// The value of the first member that is called `name`.
pub open spec fn member(members: Seq<(String, Json)>, name: Seq<char>) -> Option<Json>
    decreases members.len(),
{
    if members.len() == 0 {
        None
    } else if members[0].0@ == name {
        Some(members[0].1)
    } else {
        member(members.skip(1), name)
    }
}

/// The member called `name` of an object; nothing of any other value.
pub open spec fn at(doc: Json, name: Seq<char>) -> Option<Json> {
    match doc {
        Json::Object(members) => member(members@, name),
        _ => None,
    }
}

/// The string that the member called `name` holds.
pub open spec fn text_at(doc: Json, name: Seq<char>) -> Option<Seq<char>> {
    match at(doc, name) {
        Some(Json::Text(t)) => Some(t@),
        _ => None,
    }
}

/// The member called `name` is `true`.
pub open spec fn flag_at(doc: Json, name: Seq<char>) -> bool {
    at(doc, name) == Some(Json::Bool(true))
}

/// The whole number that the member called `name` holds.
pub open spec fn count_at(doc: Json, name: Seq<char>) -> Option<u64> {
    match at(doc, name) {
        Some(Json::Unsigned(n)) => Some(n),
        _ => None,
    }
}

/// The elements of the array that the member called `name` holds.
pub open spec fn list_at(doc: Json, name: Seq<char>) -> Option<Seq<Json>> {
    match at(doc, name) {
        Some(Json::Array(items)) => Some(items@),
        _ => None,
    }
}

impl Json {
    /// The member called `name` of an object; nothing of any other value.
    pub fn get(&self, name: &str) -> (r: Option<&Json>)
        ensures
            match r {
                Some(v) => at(*self, name@) == Some(*v),
                None => at(*self, name@) is None,
            },
    {
        match self {
            Json::Object(members) => {
                let mut i: usize = 0;
                assert(members@.skip(0) =~= members@);
                while i < members.len()
                    invariant
                        i <= members@.len(),
                        *self == Json::Object(*members),
                        member(members@, name@) == member(members@.skip(i as int), name@),
                    decreases members@.len() - i,
                {
                    if same(members[i].0.as_str(), name) {
                        return Some(&members[i].1);
                    }
                    assert(members@.skip(i as int).skip(1) =~= members@.skip(i + 1));
                    i = i + 1;
                }
                None
            },
            _ => None,
        }
    }

    /// The string that the member called `name` holds.
    pub fn get_str(&self, name: &str) -> (r: Option<&str>)
        ensures
            match r {
                Some(t) => text_at(*self, name@) == Some(t@),
                None => text_at(*self, name@) is None,
            },
    {
        match self.get(name) {
            Some(Json::Text(t)) => Some(t.as_str()),
            _ => None,
        }
    }

    /// Whether the member called `name` is `true`.
    pub fn get_flag(&self, name: &str) -> (r: bool)
        ensures
            r == flag_at(*self, name@),
    {
        match self.get(name) {
            Some(Json::Bool(b)) => *b,
            _ => false,
        }
    }

    /// The whole number that the member called `name` holds.
    pub fn get_u64(&self, name: &str) -> (r: Option<u64>)
        ensures
            r == count_at(*self, name@),
    {
        match self.get(name) {
            Some(Json::Unsigned(n)) => Some(*n),
            _ => None,
        }
    }

    /// The elements of the array that the member called `name` holds.
    pub fn get_array(&self, name: &str) -> (r: Option<&Vec<Json>>)
        ensures
            match r {
                Some(items) => list_at(*self, name@) == Some(items@),
                None => list_at(*self, name@) is None,
            },
    {
        match self.get(name) {
            Some(Json::Array(items)) => Some(items),
            _ => None,
        }
    }
}

} // verus!
