//! The opaque result row handed in by the driver edge: named columns with
//! typed values, and the decoding error carrying the column name and the
//! expected type.

use vstd::prelude::*;
use crate::text::str_eq;

verus! {

/// One element of a collected cast column: a key-value group holding the
/// person's name, the raw relationship type, and optional character roles.
/// A missing key is `None`.
#[derive(Debug)]
pub struct CastEntry {
    pub name: Option<String>,
    pub rel: Option<String>,
    pub roles: Option<Vec<String>>,
}

/// A typed column value. Nested aggregates appear as `Entity` (a key-value
/// group, e.g. a returned node) or `Cast` (a collected list of groups).
#[derive(Debug)]
pub enum Value {
    Null,
    Int(i64),
    Str(String),
    StrList(Vec<String>),
    Entity(Vec<(String, Value)>),
    Cast(Vec<CastEntry>),
}

/// One result row, addressable by column name.
#[derive(Debug)]
pub struct Row {
    pub cols: Vec<(String, Value)>,
}

/// The column type the decoder expected when it failed.
#[derive(Clone, Copy, Debug, PartialEq, Eq, Structural)]
pub enum Expected {
    Str,
    Int,
    StrList,
    Cast,
    Entity,
}

/// A row-shape mismatch: which column failed and what was expected there.
#[derive(Debug)]
pub struct DecodeError {
    pub column: String,
    pub expected: Expected,
}

/// Mathematical image of a decoding error.
pub struct DecodeErrorV {
    pub column: Seq<char>,
    pub expected: Expected,
}

impl View for DecodeError {
    type V = DecodeErrorV;

    open spec fn view(&self) -> DecodeErrorV {
        DecodeErrorV { column: self.column@, expected: self.expected }
    }
}

/// The value of the first column named `key`, if any.
pub open spec fn lookup(cols: Seq<(String, Value)>, key: Seq<char>) -> Option<Value>
    decreases cols.len(),
{
    if cols.len() == 0 {
        None
    } else if cols[0].0@ == key {
        Some(cols[0].1)
    } else {
        lookup(cols.drop_first(), key)
    }
}

/// First column carrying `key`, when present.
pub fn get_col<'a>(cols: &'a Vec<(String, Value)>, key: &str) -> (r: Option<&'a Value>)
    ensures
        match r {
            Some(v) => lookup(cols@, key@) == Some(*v),
            None => lookup(cols@, key@) is None,
        },
{
    proof {
        assert(cols@.skip(0) =~= cols@);
    }
    let mut k: usize = 0;
    while k < cols.len()
        invariant
            0 <= k <= cols@.len(),
            lookup(cols@.skip(k as int), key@) == lookup(cols@, key@),
        decreases cols@.len() - k,
    {
        proof {
            assert(cols@.skip(k as int)[0] == cols@[k as int]);
        }
        if str_eq(cols[k].0.as_str(), key) {
            return Some(&cols[k].1);
        }
        proof {
            assert(cols@.skip(k as int).drop_first() =~= cols@.skip(k as int + 1));
        }
        k += 1;
    }
    proof {
        assert(cols@.skip(cols@.len() as int) =~= Seq::<(String, Value)>::empty());
    }
    None
}

impl Row {
    /// The value of the first column named `key`, if any.
    pub open spec fn get_s(self, key: Seq<char>) -> Option<Value> {
        lookup(self.cols@, key)
    }

    pub fn get<'a>(&'a self, key: &str) -> (r: Option<&'a Value>)
        ensures
            match r {
                Some(v) => self.get_s(key@) == Some(*v),
                None => self.get_s(key@) is None,
            },
    {
        get_col(&self.cols, key)
    }
}

} // verus!
