//! The generic document model the decoder consumes: a root that is a sequence
//! of `(key, value)` pairs in the physical order the keys appeared in the
//! source text, where each value is a scalar or a flat table of scalars.
//!
//! The ordering guarantee comes from the document parser collaborator that
//! builds a [`Document`]; the decoder only relies on it.

use vstd::prelude::*;

verus! {

/// A primitive value node of the document.
#[derive(Debug, PartialEq)]
pub enum Scalar {
    /// A string value.
    Text(String),
    /// An integer value.
    Int(i64),
}

impl Clone for Scalar {
    fn clone(&self) -> (r: Self)
        ensures
            r == *self,
    {
        match self {
            Scalar::Text(s) => Scalar::Text(s.clone()),
            Scalar::Int(n) => Scalar::Int(*n),
        }
    }
}

/// A value node of the document root: a scalar, or a table of scalar fields
/// in source order.
#[derive(Debug, PartialEq)]
pub enum Value {
    Scalar(Scalar),
    Table(Vec<(String, Scalar)>),
}

/// The document root: top-level keys with their value nodes, in the physical
/// order the keys appeared in the source text.
pub type Document = Vec<(String, Value)>;

/// The scalar stored under `key` in a table, taking the last occurrence when
/// the key repeats; `None` when the key is absent.
pub open spec fn table_lookup(t: Seq<(String, Scalar)>, key: Seq<char>) -> Option<Scalar>
    decreases t.len(),
{
    if t.len() == 0 {
        None
    } else if t.last().0@ == key {
        Some(t.last().1)
    } else {
        table_lookup(t.drop_last(), key)
    }
}

/// Compares two strings for exact (case-sensitive) equality.
pub fn str_eq(a: &str, b: &str) -> (r: bool)
    ensures
        r == (a@ == b@),
{
    let sa = String::from_str(a);
    let sb = String::from_str(b);
    sa == sb
}

/// Finds the scalar stored under `key` in a table, last occurrence winning.
pub fn lookup_field(t: &Vec<(String, Scalar)>, key: &str) -> (r: Option<Scalar>)
    ensures
        r == table_lookup(t@, key@),
{
    let mut found: Option<Scalar> = None;
    let mut i: usize = 0;
    while i < t.len()
        invariant
            i <= t@.len(),
            found == table_lookup(t@.take(i as int), key@),
        decreases t@.len() - i,
    {
        proof {
            assert(t@.take(i + 1).drop_last() =~= t@.take(i as int));
            assert(t@.take(i + 1).last() == t@[i as int]);
        }
        if str_eq(t[i].0.as_str(), key) {
            found = Some(t[i].1.clone());
        }
        i += 1;
    }
    proof {
        assert(t@.take(t@.len() as int) =~= t@);
    }
    found
}

} // verus!
