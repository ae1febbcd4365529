//! Extension parameters: an ordered mapping of string keys to loosely typed
//! values (scalar, sequence, or nested mapping), as configuration loading
//! hands them to an extension. Later insertions shadow earlier ones with the
//! same key.

use vstd::prelude::*;

verus! {

use crate::text::str_eq;
use vstd::string::StringExecFns;

/// A loosely typed parameter value.
#[derive(Debug, PartialEq)]
pub enum Value {
    Null,
    Bool(bool),
    Text(String),
    Sequence(Vec<Value>),
    Mapping(Params),
}

/// An ordered mapping of string keys to values.
#[derive(Debug, PartialEq)]
pub struct Params {
    pub entries: Vec<(String, Value)>,
}

/// The value bound to `key`: the last entry whose key holds those characters.
pub open spec fn lookup<T>(entries: Seq<(String, T)>, key: Seq<char>) -> Option<T>
    decreases entries.len(),
{
    if entries.len() == 0 {
        Option::None
    } else if entries.last().0@ == key {
        Option::Some(entries.last().1)
    } else {
        lookup(entries.drop_last(), key)
    }
}

impl Value {
    /// The characters of a text value; any other kind contributes nothing.
    pub open spec fn text_of(self) -> Seq<char> {
        match self {
            Value::Text(t) => t@,
            _ => Seq::empty(),
        }
    }

    /// A text value holding the characters of `s`.
    pub fn text(s: &str) -> (v: Value)
        ensures
            v matches Value::Text(t) && t@ == s@,
    {
        Value::Text(String::from_str(s))
    }

    /// The text of this value, or nothing if it is not text.
    pub fn as_str(&self) -> (r: Option<&String>)
        ensures
            r matches Some(t) ==> *self matches Value::Text(u) && t@ == u@,
            r is None ==> !(*self matches Value::Text(_)),
    {
        match self {
            Value::Text(t) => Some(t),
            _ => None,
        }
    }

    /// The elements of this value, or nothing if it is not a sequence.
    pub fn as_sequence(&self) -> (r: Option<&Vec<Value>>)
        ensures
            r matches Some(vs) ==> *self matches Value::Sequence(ws) && vs@ == ws@,
            r is None ==> !(*self matches Value::Sequence(_)),
    {
        match self {
            Value::Sequence(vs) => Some(vs),
            _ => None,
        }
    }
}

impl Params {
    /// The value bound to `key`, if any entry holds it.
    pub open spec fn spec_get(self, key: Seq<char>) -> Option<Value> {
        lookup(self.entries@, key)
    }

    /// An empty mapping: no key is bound.
    pub fn new() -> (p: Params)
        ensures
            p.entries@.len() == 0,
            forall|k: Seq<char>| p.spec_get(k) is None,
    {
        Params { entries: Vec::new() }
    }

    /// Binds `key` to `value`, shadowing any earlier entry with the same key.
    pub fn insert(&mut self, key: String, value: Value)
        ensures
            final(self).entries@ == old(self).entries@.push((key, value)),
            final(self).spec_get(key@) == Some(value),
            forall|k: Seq<char>|
                k != key@ ==> final(self).spec_get(k) == old(self).spec_get(k),
    {
        let ghost es = self.entries@;
        self.entries.push((key, value));
        proof {
            assert(self.entries@.drop_last() =~= es);
        }
    }

    /// The value bound to `key`, if any.
    pub fn get(&self, key: &str) -> (r: Option<&Value>)
        ensures
            r matches Some(v) ==> self.spec_get(key@) == Some(*v),
            r is None ==> self.spec_get(key@) is None,
    {
        let n = self.entries.len();
        let mut i: usize = n;
        proof {
            assert(self.entries@.take(n as int) =~= self.entries@);
        }
        while i > 0
            invariant
                i <= n,
                n == self.entries@.len(),
                lookup(self.entries@, key@) == lookup(self.entries@.take(i as int), key@),
            decreases i,
        {
            i = i - 1;
            let ghost prefix = self.entries@.take(i + 1);
            if str_eq(self.entries[i].0.as_str(), key) {
                proof {
                    assert(prefix.last() == self.entries@[i as int]);
                }
                return Some(&self.entries[i].1);
            }
            proof {
                assert(prefix.last() == self.entries@[i as int]);
                assert(prefix.drop_last() =~= self.entries@.take(i as int));
            }
        }
        proof {
            assert(self.entries@.take(n as int) =~= self.entries@);
            assert(self.entries@.take(0) =~= Seq::<(String, Value)>::empty());
        }
        None
    }
}

} // verus!
