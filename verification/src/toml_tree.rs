//! A TOML document as plain values, the `toml` parser behind a trusted
//! wrapper, and lookups into the document.

use vstd::prelude::*;
use crate::text::{chars_of, span_eq};

verus! {

/// `toml::Value`, carried only through the parser wrapper.
#[verifier::external_type_specification]
#[verifier::external_body]
pub struct ExTomlValue(toml::Value);

/// A TOML value. Floats and datetimes are kept only as their kind: nothing
/// in this library reads their contents.
#[derive(Debug)]
pub enum TomlValue {
    Str(String),
    Int(i64),
    Float,
    Bool(bool),
    Datetime,
    Array(Vec<TomlValue>),
    Table(Vec<(String, TomlValue)>),
}

/// The value under `key` among `entries[i..]`: the first entry with that key.
pub open spec fn table_get_from(entries: Seq<(String, TomlValue)>, key: Seq<char>, i: int) -> Option<
    TomlValue,
>
    decreases entries.len() - i,
{
    if i < 0 || i >= entries.len() {
        None
    } else if entries[i].0@ == key {
        Some(entries[i].1)
    } else {
        table_get_from(entries, key, i + 1)
    }
}

impl TomlValue {
    /// `self[key]` when `self` is a table holding `key` (what `toml::Value::get` gives).
    pub open spec fn lookup(self, key: Seq<char>) -> Option<TomlValue> {
        match self {
            TomlValue::Table(entries) => table_get_from(entries@, key, 0),
            _ => None,
        }
    }

    /// The string held by a string value.
    pub open spec fn str_of(self) -> Option<Seq<char>> {
        match self {
            TomlValue::Str(s) => Some(s@),
            _ => None,
        }
    }

    /// The boolean held by a boolean value.
    pub open spec fn bool_of(self) -> Option<bool> {
        match self {
            TomlValue::Bool(b) => Some(b),
            _ => None,
        }
    }

    /// The integer held by an integer value.
    pub open spec fn int_of(self) -> Option<i64> {
        match self {
            TomlValue::Int(i) => Some(i),
            _ => None,
        }
    }

    /// The items held by an array value.
    pub open spec fn array_of(self) -> Option<Seq<TomlValue>> {
        match self {
            TomlValue::Array(items) => Some(items@),
            _ => None,
        }
    }

    /// The value under `key`, if `self` is a table that holds it.
    pub fn get(&self, key: &str) -> (r: Option<&TomlValue>)
        ensures
            match r {
                Some(v) => self.lookup(key@) == Some(*v),
                None => self.lookup(key@) is None,
            },
    {
        match self {
            TomlValue::Table(entries) => {
                let kc = chars_of(key);
                let mut i: usize = 0;
                while i < entries.len()
                    invariant
                        i <= entries@.len(),
                        kc@ == key@,
                        self.lookup(key@) == table_get_from(entries@, key@, 0),
                        table_get_from(entries@, key@, 0) == table_get_from(
                            entries@,
                            key@,
                            i as int,
                        ),
                    decreases entries@.len() - i,
                {
                    let ec = chars_of(entries[i].0.as_str());
                    if span_eq(&ec, 0, ec.len(), &kc) {
                        assert(ec@.subrange(0, ec@.len() as int) =~= ec@);
                        assert(entries@[i as int].0@ == key@);
                        assert(table_get_from(entries@, key@, i as int) == Some(
                            entries@[i as int].1,
                        ));
                        return Some(&entries[i].1);
                    }
                    assert(ec@.subrange(0, ec@.len() as int) =~= ec@);
                    i = i + 1;
                }
                None
            },
            _ => None,
        }
    }

    /// The string held by a string value.
    pub fn as_str(&self) -> (r: Option<&String>)
        ensures
            match r {
                Some(s) => self.str_of() == Some(s@),
                None => self.str_of() is None,
            },
    {
        match self {
            TomlValue::Str(s) => Some(s),
            _ => None,
        }
    }

    /// The boolean held by a boolean value.
    pub fn as_bool(&self) -> (r: Option<bool>)
        ensures
            r == self.bool_of(),
    {
        match self {
            TomlValue::Bool(b) => Some(*b),
            _ => None,
        }
    }

    /// The integer held by an integer value.
    pub fn as_integer(&self) -> (r: Option<i64>)
        ensures
            r == self.int_of(),
    {
        match self {
            TomlValue::Int(i) => Some(*i),
            _ => None,
        }
    }

    /// The items held by an array value.
    pub fn as_array(&self) -> (r: Option<&Vec<TomlValue>>)
        ensures
            match r {
                Some(items) => self.array_of() == Some(items@),
                None => self.array_of() is None,
            },
    {
        match self {
            TomlValue::Array(items) => Some(items),
            _ => None,
        }
    }
}

/// What `toml::from_str::<toml::Value>` gives for a text: the document as a
/// tree, or the text of the parse error.
pub uninterp spec fn toml_document(text: Seq<char>) -> Result<TomlValue, Seq<char>>;

/// Converts a `toml::Value` one for one into a [`TomlValue`], variant by
/// variant, moving fields; float and datetime contents are dropped.
/// Nothing is claimed of it: it only serves [`parse_toml`].
#[verifier::external_body]
fn tree_from_toml(v: toml::Value) -> TomlValue {
    match v {
        toml::Value::String(s) => TomlValue::Str(s),
        toml::Value::Integer(i) => TomlValue::Int(i),
        toml::Value::Float(_) => TomlValue::Float,
        toml::Value::Boolean(b) => TomlValue::Bool(b),
        toml::Value::Datetime(_) => TomlValue::Datetime,
        toml::Value::Array(a) => TomlValue::Array(a.into_iter().map(tree_from_toml).collect()),
        toml::Value::Table(t) => TomlValue::Table(
            t.into_iter().map(|(k, x)| (k, tree_from_toml(x))).collect(),
        ),
    }
}

/// Parses a TOML document with `toml::from_str::<toml::Value>`. The contract
/// claims only that the outcome is a function of the text ([`toml_document`]);
/// it says nothing of which texts are valid TOML or what tree they give.
#[verifier::external_body]
pub(crate) fn parse_toml(text: &str) -> (r: Result<TomlValue, String>)
    ensures
        match r {
            Ok(v) => toml_document(text@) == Ok::<TomlValue, Seq<char>>(v),
            Err(m) => toml_document(text@) == Err::<TomlValue, Seq<char>>(m@),
        },
{
    match toml::from_str::<toml::Value>(text) {
        Ok(v) => Ok(tree_from_toml(v)),
        Err(e) => Err(e.to_string()),
    }
}

} // verus!
