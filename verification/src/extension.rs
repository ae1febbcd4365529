//! The extension capability: a named, stateless-per-call computation that
//! produces dynamic content for one expansion, together with the render
//! context accumulated while a pipeline of extensions runs.

use vstd::prelude::*;

verus! {

use crate::params::Params;
use crate::params::lookup;
use crate::text::str_eq;

/// What one extension invocation produced.
#[derive(Debug, Clone, PartialEq)]
pub enum ExtensionResult {
    Single(String),
    Multiple(Vec<String>),
}

/// Why an extension could not complete at all. An extension that merely has
/// nothing to contribute returns `Ok(None)` instead, so that the pipeline
/// can go on without it.
#[derive(Debug, Clone, Copy, PartialEq, Eq, Structural)]
pub enum ExtensionError {
    Internal,
}

/// The outcome of one extension invocation: a result, nothing to contribute,
/// or a failure that aborts the render pass.
pub type ExtensionOut = Result<Option<ExtensionResult>, ExtensionError>;

/// The results computed so far in one render pass, keyed by extension name.
/// Entries grow monotonically within a pass and are never rewritten.
#[derive(Debug, Clone, PartialEq)]
pub struct RenderContext {
    pub entries: Vec<(String, ExtensionResult)>,
}

impl RenderContext {
    /// The result recorded under `name`, if any.
    pub open spec fn spec_get(self, name: Seq<char>) -> Option<ExtensionResult> {
        lookup(self.entries@, name)
    }

    /// An empty context: no extension has run yet.
    pub fn new() -> (c: RenderContext)
        ensures
            c.entries@.len() == 0,
            forall|k: Seq<char>| c.spec_get(k) is None,
    {
        RenderContext { entries: Vec::new() }
    }

    /// Records `result` under `name`; earlier entries are kept unchanged.
    pub fn insert(&mut self, name: String, result: ExtensionResult)
        ensures
            final(self).entries@ == old(self).entries@.push((name, result)),
            final(self).spec_get(name@) == Some(result),
            forall|k: Seq<char>|
                k != name@ ==> final(self).spec_get(k) == old(self).spec_get(k),
    {
        let ghost es = self.entries@;
        self.entries.push((name, result));
        proof {
            assert(self.entries@.drop_last() =~= es);
        }
    }

    /// The result recorded under `name`, if any.
    pub fn get(&self, name: &str) -> (r: Option<&ExtensionResult>)
        ensures
            r matches Some(v) ==> self.spec_get(name@) == Some(*v),
            r is None ==> self.spec_get(name@) is None,
    {
        let n = self.entries.len();
        let mut i: usize = n;
        proof {
            assert(self.entries@.take(n as int) =~= self.entries@);
        }
        while i > 0
            invariant
                i <= n,
                n == self.entries@.len(),
                lookup(self.entries@, name@) == lookup(self.entries@.take(i as int), name@),
            decreases i,
        {
            i = i - 1;
            let ghost prefix = self.entries@.take(i + 1);
            if str_eq(self.entries[i].0.as_str(), name) {
                proof {
                    assert(prefix.last() == self.entries@[i as int]);
                }
                return Some(&self.entries[i].1);
            }
            proof {
                assert(prefix.last() == self.entries@[i as int]);
                assert(prefix.drop_last() =~= self.entries@.take(i as int));
            }
        }
        proof {
            assert(self.entries@.take(0) =~= Seq::<(String, ExtensionResult)>::empty());
        }
        None
    }
}

/// A pluggable computation unit. Each implementor gives, as `calc_rel`, the
/// full description of what its `calculate` may return; `calculate` itself is
/// a pure function of its parameters, the positional arguments, and the
/// results already in the context.
pub trait Extension {
    /// The stable identifier under which this extension's results are
    /// recorded in the render context.
    spec fn spec_name(&self) -> Seq<char>;

    /// Which outcomes one `calculate` call admits for the given parameters
    /// and arguments.
    spec fn calc_rel(&self, params: Params, args: Seq<Seq<char>>, r: ExtensionOut) -> bool;

    /// The extension's stable identifier.
    fn name(&self) -> (r: String)
        ensures
            r@ == self.spec_name(),
    ;

    /// Computes this extension's contribution for one expansion.
    fn calculate(&self, params: &Params, args: &Vec<String>, context: &RenderContext) -> (r:
        ExtensionOut)
        ensures
            self.calc_rel(*params, args.deep_view(), r),
    ;
}

} // verus!
