//! The `defvar` configuration element: a variable's name, its initial value,
//! and whether each window gets its own copy.

use vstd::prelude::*;

use crate::ast::spec_kv_scan;
use crate::ast::Ast;
use crate::ast::AstIterator;
use crate::ast::DiagError;
use crate::dynval::spec_parse_bool;
use crate::dynval::DynVal;
use crate::dynval::Span;
use crate::dynval::VarName;

verus! {

/// A declared configuration variable.
#[derive(Debug)]
pub struct VarDefinition {
    pub name: VarName,
    pub initial_value: DynVal,
    pub per_window: bool,
    pub span: Span,
}

/// The grammar of a `defvar` element's children: a bare symbol naming the
/// variable, then attribute pairs (of which `per_window` must be a boolean
/// when present, defaulting to false), then the initial value as a literal,
/// then nothing.
pub open spec fn spec_var_definition(items: Seq<Ast>, idx: int) -> Option<(Seq<char>, bool, Seq<char>)> {
    if 0 <= idx < items.len() {
        match items[idx] {
            Ast::Symbol(_, name) => {
                match spec_kv_scan(items, idx + 1, Map::empty()) {
                    Some((attrs, j)) => {
                        let pw = if attrs.contains_key("per_window"@) {
                            spec_parse_bool(attrs["per_window"@])
                        } else {
                            Some(false)
                        };
                        match pw {
                            Some(b) => {
                                if 0 <= j < items.len() && j + 1 == items.len() {
                                    match items[j] {
                                        Ast::Literal(_, v) => Some((name@, b, v@)),
                                        _ => None,
                                    }
                                } else {
                                    None
                                }
                            },
                            None => None,
                        }
                    },
                    None => None,
                }
            },
            _ => None,
        }
    } else {
        None
    }
}

impl VarDefinition {
    /// The element keyword a variable definition is written under.
    pub fn element_name() -> (r: &'static str)
        ensures
            r@ == "defvar"@,
    {
        "defvar"
    }

    /// Parse a variable definition from the children following the element's
    /// keyword. Fail-fast and total: the first structural mismatch aborts the
    /// element with a located diagnostic carrying a usage example, and no
    /// partial definition is ever produced.
    pub fn from_tail(span: Span, iter: AstIterator) -> (r: Result<VarDefinition, DiagError>)
        requires
            iter.wf(),
        ensures
            match r {
                Ok(d) => {
                    &&& spec_var_definition(iter.items@, iter.idx as int) == Some(
                        (d.name@, d.per_window, d.initial_value@),
                    )
                    &&& d.span == span
                },
                Err(e) => {
                    &&& spec_var_definition(iter.items@, iter.idx as int) is None
                    &&& e.note is Some
                },
            },
    {
        let usage = "Expected format: `(defvar name \"initial-value\")`";
        let mut it = iter;
        let sym = match it.expect_symbol() {
            Ok(s) => s,
            Err(e) => {
                return Err(e.with_note(usage));
            },
        };
        let attrs = match it.expect_key_values() {
            Ok(a) => a,
            Err(e) => {
                return Err(e.with_note(usage));
            },
        };
        let per_window = match attrs.bool_with_default("per_window", false) {
            Ok(b) => b,
            Err(e) => {
                return Err(e.with_note(usage));
            },
        };
        let lit = match it.expect_literal() {
            Ok(l) => l,
            Err(e) => {
                return Err(e.with_note(usage));
            },
        };
        match it.expect_done() {
            Ok(_) => {},
            Err(e) => {
                return Err(e.with_note(usage));
            },
        }
        Ok(
            VarDefinition {
                name: VarName::new(sym.1),
                initial_value: lit.1,
                per_window,
                span,
            },
        )
    }
}

} // verus!
