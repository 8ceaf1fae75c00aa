//! The value a script ends with, as the host reads it.

use crate::text::same_text;
use vstd::prelude::*;

verus! {

/// The kinds of value a script can end with.
#[derive(Clone, Copy, Debug, PartialEq, Eq, Structural)]
pub enum ValueKind {
    Unit,
    Bool,
    Int,
    Str,
    Array,
    Object,
    Other,
}

/// A coercion asked for one kind of value and found another.
#[derive(Clone, Copy, Debug, PartialEq, Eq, Structural)]
pub struct TypeMismatch {
    pub expected: ValueKind,
    pub found: ValueKind,
}

/// A dynamically typed script value. A map keeps its entries in order of
/// key; a value of a kind the host does not read (a float, a host type) is
/// kept as its printed form.
pub enum Value {
    Unit,
    Bool(bool),
    Int(i64),
    Str(String),
    Array(Vec<Value>),
    Object(Vec<(String, Value)>),
    Other(String),
}

/// The index of the first entry of `entries` under `key`, if any.
pub open spec fn key_index(entries: Seq<(String, Value)>, key: Seq<char>) -> Option<int>
    decreases entries.len(),
{
    if entries.len() == 0 {
        None
    } else if entries[0].0@ == key {
        Some(0)
    } else {
        match key_index(entries.drop_first(), key) {
            None => None,
            Some(i) => Some(i + 1),
        }
    }
}

impl Value {
    pub open spec fn kind_of(&self) -> ValueKind {
        match self {
            Value::Unit => ValueKind::Unit,
            Value::Bool(_) => ValueKind::Bool,
            Value::Int(_) => ValueKind::Int,
            Value::Str(_) => ValueKind::Str,
            Value::Array(_) => ValueKind::Array,
            Value::Object(_) => ValueKind::Object,
            Value::Other(_) => ValueKind::Other,
        }
    }

    /// The kind of this value.
    pub fn kind(&self) -> (r: ValueKind)
        ensures
            r == self.kind_of(),
    {
        match self {
            Value::Unit => ValueKind::Unit,
            Value::Bool(_) => ValueKind::Bool,
            Value::Int(_) => ValueKind::Int,
            Value::Str(_) => ValueKind::Str,
            Value::Array(_) => ValueKind::Array,
            Value::Object(_) => ValueKind::Object,
            Value::Other(_) => ValueKind::Other,
        }
    }

    /// The boolean this value holds.
    pub fn as_bool(&self) -> (r: Result<bool, TypeMismatch>)
        ensures
            match self {
                Value::Bool(b) => r == Ok::<bool, TypeMismatch>(*b),
                _ => r == Err::<bool, TypeMismatch>(
                    TypeMismatch { expected: ValueKind::Bool, found: self.kind_of() },
                ),
            },
    {
        match self {
            Value::Bool(b) => Ok(*b),
            _ => Err(TypeMismatch { expected: ValueKind::Bool, found: self.kind() }),
        }
    }

    /// The integer this value holds.
    pub fn as_int(&self) -> (r: Result<i64, TypeMismatch>)
        ensures
            match self {
                Value::Int(n) => r == Ok::<i64, TypeMismatch>(*n),
                _ => r == Err::<i64, TypeMismatch>(
                    TypeMismatch { expected: ValueKind::Int, found: self.kind_of() },
                ),
            },
    {
        match self {
            Value::Int(n) => Ok(*n),
            _ => Err(TypeMismatch { expected: ValueKind::Int, found: self.kind() }),
        }
    }

    /// The string this value holds.
    pub fn as_str(&self) -> (r: Result<&str, TypeMismatch>)
        ensures
            match self {
                Value::Str(s) => r is Ok && r->Ok_0@ == s@,
                _ => r == Err::<&str, TypeMismatch>(
                    TypeMismatch { expected: ValueKind::Str, found: self.kind_of() },
                ),
            },
    {
        match self {
            Value::Str(s) => Ok(s.as_str()),
            _ => Err(TypeMismatch { expected: ValueKind::Str, found: self.kind() }),
        }
    }

    /// The items this value holds.
    pub fn as_array(&self) -> (r: Result<&Vec<Value>, TypeMismatch>)
        ensures
            match self {
                Value::Array(items) => r is Ok && r->Ok_0 == items,
                _ => r == Err::<&Vec<Value>, TypeMismatch>(
                    TypeMismatch { expected: ValueKind::Array, found: self.kind_of() },
                ),
            },
    {
        match self {
            Value::Array(items) => Ok(items),
            _ => Err(TypeMismatch { expected: ValueKind::Array, found: self.kind() }),
        }
    }

    /// The entries this value holds.
    pub fn as_object(&self) -> (r: Result<&Vec<(String, Value)>, TypeMismatch>)
        ensures
            match self {
                Value::Object(entries) => r is Ok && r->Ok_0 == entries,
                _ => r == Err::<&Vec<(String, Value)>, TypeMismatch>(
                    TypeMismatch { expected: ValueKind::Object, found: self.kind_of() },
                ),
            },
    {
        match self {
            Value::Object(entries) => Ok(entries),
            _ => Err(TypeMismatch { expected: ValueKind::Object, found: self.kind() }),
        }
    }

    /// The entry under `key` of this map: `Ok(None)` where it has none.
    pub fn get(&self, key: &str) -> (r: Result<Option<&Value>, TypeMismatch>)
        ensures
            match self {
                Value::Object(entries) => r is Ok && match key_index(entries@, key@) {
                    None => r->Ok_0 is None,
                    Some(i) => r->Ok_0 == Some(&entries@[i].1),
                },
                _ => r == Err::<Option<&Value>, TypeMismatch>(
                    TypeMismatch { expected: ValueKind::Object, found: self.kind_of() },
                ),
            },
    {
        match self {
            Value::Object(entries) => Ok(lookup(entries, key)),
            _ => Err(TypeMismatch { expected: ValueKind::Object, found: self.kind() }),
        }
    }
}

/// The value of the first entry under `key`.
pub fn lookup<'a>(entries: &'a Vec<(String, Value)>, key: &str) -> (r: Option<&'a Value>)
    ensures
        match key_index(entries@, key@) {
            None => r is None,
            Some(i) => r == Some(&entries@[i].1),
        },
{
    let mut i: usize = 0;
    assert(entries@.subrange(0, entries@.len() as int) =~= entries@);
    while i < entries.len()
        invariant
            i <= entries@.len(),
            key_index(entries@, key@) == match key_index(
                entries@.subrange(i as int, entries@.len() as int),
                key@,
            ) {
                None => None,
                Some(j) => Some(j + i),
            },
        decreases entries@.len() - i,
    {
        let ghost rest = entries@.subrange(i as int, entries@.len() as int);
        assert(rest[0] == entries@[i as int]);
        if same_text(entries[i].0.as_str(), key) {
            return Some(&entries[i].1);
        }
        assert(rest[0].0@ != key@);
        assert(rest.drop_first() =~= entries@.subrange(i + 1, entries@.len() as int));
        i = i + 1;
    }
    None
}

} // verus!
