//! A window definition's declared parameter schema: the ordered list of
//! expected argument names, each marked required or optional.

use vstd::prelude::*;

use crate::dynval::VarName;
use crate::strutil::str_eq;

verus! {

/// One declared parameter: its name and whether it may be left unbound.
#[derive(Debug)]
pub struct AttrSpec {
    pub name: VarName,
    pub optional: bool,
}

impl Clone for AttrSpec {
    fn clone(&self) -> (r: Self)
        ensures
            r.name@ == self.name@,
            r.optional == self.optional,
    {
        AttrSpec { name: self.name.clone(), optional: self.optional }
    }
}

/// The declarative schema a window is instantiated against. Geometry and
/// other structural metadata live with the rendering collaborator; this core
/// only needs the name and the expected-argument list.
#[derive(Debug)]
pub struct WindowDefinition {
    pub name: String,
    pub expected_args: Vec<AttrSpec>,
}

impl WindowDefinition {
    /// Whether a parameter named `k` is declared.
    pub open spec fn spec_expects(&self, k: Seq<char>) -> bool {
        exists|i: int| 0 <= i < self.expected_args@.len() && self.expected_args@[i].name@ == k
    }

    /// The set of declared parameter names.
    pub open spec fn expected_name_set(&self) -> Set<Seq<char>> {
        Set::new(|k: Seq<char>| self.spec_expects(k))
    }

    /// Whether a parameter named `name` is declared.
    pub fn expects_arg(&self, name: &str) -> (r: bool)
        ensures
            r == self.spec_expects(name@),
    {
        let mut i: usize = 0;
        while i < self.expected_args.len()
            invariant
                0 <= i <= self.expected_args@.len(),
                forall|k: int| 0 <= k < i ==> self.expected_args@[k].name@ != name@,
            decreases self.expected_args@.len() - i,
        {
            if str_eq(self.expected_args[i].name.0.as_str(), name) {
                return true;
            }
            i += 1;
        }
        false
    }
}

} // verus!
