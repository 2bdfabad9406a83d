//! The generic declarative-element protocol: a parsed s-expression's children
//! are consumed through an iterator whose typed "expect" operations either
//! advance and return the requested shape or fail fast with a located
//! diagnostic. Parsing an element is total: the first structural mismatch
//! aborts it, and no partial entity is ever produced.

use vstd::prelude::*;
use vstd::string::StringExecFns;

use crate::dynval::opt_view;
use crate::dynval::spec_extract;
use crate::dynval::ConversionError;
use crate::dynval::DynVal;
use crate::dynval::FromDynVal;
use crate::dynval::Span;
use crate::dynval::VarName;
use crate::varmap::VarMap;

verus! {

/// One child form of a configuration element.
#[derive(Debug)]
pub enum Ast {
    /// A parenthesised form with its own children.
    List(Span, Vec<Ast>),
    /// An attribute keyword, written `:name`; the name is stored bare.
    Keyword(Span, String),
    /// A bare symbol.
    Symbol(Span, String),
    /// A literal value.
    Literal(Span, DynVal),
}

impl Ast {
    /// The source region this child covers.
    pub open spec fn spec_span(&self) -> Span {
        match self {
            Ast::List(sp, _) => *sp,
            Ast::Keyword(sp, _) => *sp,
            Ast::Symbol(sp, _) => *sp,
            Ast::Literal(sp, _) => *sp,
        }
    }

    /// The source region this child covers.
    pub fn span(&self) -> (r: Span)
        ensures
            r == self.spec_span(),
    {
        match self {
            Ast::List(sp, _) => *sp,
            Ast::Keyword(sp, _) => *sp,
            Ast::Symbol(sp, _) => *sp,
            Ast::Literal(sp, _) => *sp,
        }
    }
}

/// The shape of child an "expect" operation was after.
#[derive(Clone, Copy, Debug, PartialEq, Eq, Structural)]
pub enum AstKind {
    List,
    Keyword,
    Symbol,
    Literal,
}

/// Why parsing a declarative element failed.
#[derive(Debug)]
pub enum DiagKind {
    /// The next child does not have the expected shape.
    WrongChild { expected: AstKind },
    /// The element ended although another child was expected.
    MissingChild { expected: AstKind },
    /// An attribute keyword is not followed by a literal value.
    KeywordWithoutValue,
    /// The element has children left after its grammar was satisfied.
    TooManyChildren,
    /// A required attribute is not present.
    MissingAttr { name: String },
    /// An attribute value could not be converted to its declared type.
    AttrConversion(ConversionError),
}

/// A located structural diagnostic, optionally carrying a corrective usage
/// hint.
#[derive(Debug)]
pub struct DiagError {
    pub span: Span,
    pub kind: DiagKind,
    pub note: Option<String>,
}

impl DiagError {
    /// Attach a human-readable usage example as corrective context.
    pub fn with_note(self, note: &str) -> (r: DiagError)
        ensures
            r.span == self.span,
            r.kind == self.kind,
            r.note matches Some(n) && n@ == note@,
    {
        DiagError { span: self.span, kind: self.kind, note: Some(String::from_str(note)) }
    }
}

/// The key/value attributes of one element, with the span of the element
/// they were written in.
#[derive(Debug)]
pub struct Attributes {
    pub span: Span,
    pub attrs: VarMap,
}

impl Attributes {
    pub open spec fn wf(&self) -> bool {
        self.attrs.wf()
    }

    /// Read an optional typed attribute: absence is `None`, not an error; a
    /// present value that fails conversion is a diagnostic.
    pub fn primitive_optional<T: FromDynVal>(&self, key: &str) -> (r: Result<Option<T>, DiagError>)
        requires
            self.wf(),
        ensures
            match r {
                Ok(o) => spec_extract::<T>(self.attrs@, key@) == Ok::<Option<T::V>, ()>(opt_view(o)),
                Err(e) => {
                    &&& spec_extract::<T>(self.attrs@, key@) is Err
                    &&& e.span == self.span
                    &&& (e.kind matches DiagKind::AttrConversion(c) && c.value@ == self.attrs@[key@]
                        && c.target == T::spec_target())
                },
            },
    {
        match self.attrs.get(key) {
            Some(v) => {
                match T::from_dynval(v) {
                    Ok(t) => Ok(Some(t)),
                    Err(c) => Err(
                        DiagError { span: self.span, kind: DiagKind::AttrConversion(c), note: None },
                    ),
                }
            },
            None => Ok(None),
        }
    }

    /// Read a required typed attribute: absence is itself a diagnostic.
    pub fn primitive_required<T: FromDynVal>(&self, key: &str) -> (r: Result<T, DiagError>)
        requires
            self.wf(),
        ensures
            match r {
                Ok(t) => spec_extract::<T>(self.attrs@, key@) == Ok::<Option<T::V>, ()>(
                    Some(t@),
                ),
                Err(e) => {
                    &&& e.span == self.span
                    &&& !(spec_extract::<T>(self.attrs@, key@) matches Ok(o) && o is Some)
                    &&& (if self.attrs@.contains_key(key@) {
                        e.kind matches DiagKind::AttrConversion(c) && c.value@ == self.attrs@[key@]
                            && c.target == T::spec_target()
                    } else {
                        e.kind matches DiagKind::MissingAttr { name } && name@ == key@
                    })
                },
            },
    {
        match self.attrs.get(key) {
            Some(v) => {
                match T::from_dynval(v) {
                    Ok(t) => Ok(t),
                    Err(c) => Err(
                        DiagError { span: self.span, kind: DiagKind::AttrConversion(c), note: None },
                    ),
                }
            },
            None => Err(
                DiagError {
                    span: self.span,
                    kind: DiagKind::MissingAttr { name: String::from_str(key) },
                    note: None,
                },
            ),
        }
    }

    /// Read a boolean flag, defaulting when the attribute is absent.
    pub fn bool_with_default(&self, key: &str, default: bool) -> (r: Result<bool, DiagError>)
        requires
            self.wf(),
        ensures
            match r {
                Ok(b) => {
                    if self.attrs@.contains_key(key@) {
                        crate::dynval::spec_parse_bool(self.attrs@[key@]) == Some(b)
                    } else {
                        b == default
                    }
                },
                Err(_) => self.attrs@.contains_key(key@) && crate::dynval::spec_parse_bool(
                    self.attrs@[key@],
                ) is None,
            },
    {
        match self.primitive_optional::<bool>(key) {
            Ok(Some(b)) => Ok(b),
            Ok(None) => Ok(default),
            Err(e) => Err(e),
        }
    }
}

/// Greedily read `:key value` pairs from `items` starting at `idx`,
/// accumulating into `acc`: stops before the first child that is not a
/// keyword, fails when a keyword has no literal value after it. Later
/// occurrences of a key overwrite earlier ones.
pub open spec fn spec_kv_scan(
    items: Seq<Ast>,
    idx: int,
    acc: Map<Seq<char>, Seq<char>>,
) -> Option<(Map<Seq<char>, Seq<char>>, int)>
    decreases items.len() - idx,
{
    if idx < 0 || idx >= items.len() {
        Some((acc, idx))
    } else {
        match items[idx] {
            Ast::Keyword(_, name) => {
                if idx + 1 < items.len() {
                    match items[idx + 1] {
                        Ast::Literal(_, v) => spec_kv_scan(items, idx + 2, acc.insert(name@, v@)),
                        _ => None,
                    }
                } else {
                    None
                }
            },
            _ => Some((acc, idx)),
        }
    }
}

/// An iterator over the children of one element, tracking the element's span
/// for diagnostics.
#[derive(Debug)]
pub struct AstIterator {
    pub span: Span,
    pub items: Vec<Ast>,
    pub idx: usize,
}

impl AstIterator {
    pub open spec fn wf(&self) -> bool {
        self.idx <= self.items@.len()
    }

    /// Begin consuming an element's children.
    pub fn new(span: Span, items: Vec<Ast>) -> (r: AstIterator)
        ensures
            r.wf(),
            r.span == span,
            r.items == items,
            r.idx == 0,
    {
        AstIterator { span, items, idx: 0 }
    }

    /// The next child must be a bare symbol.
    pub fn expect_symbol(&mut self) -> (r: Result<(Span, String), DiagError>)
        requires
            old(self).wf(),
        ensures
            final(self).wf(),
            final(self).items == old(self).items,
            final(self).span == old(self).span,
            match r {
                Ok(res) => {
                    &&& old(self).idx < old(self).items@.len()
                    &&& (old(self).items@[old(self).idx as int] matches Ast::Symbol(sp, name)
                        && res.0 == sp && res.1@ == name@)
                    &&& final(self).idx == old(self).idx + 1
                },
                Err(e) => {
                    &&& final(self).idx == old(self).idx
                    &&& !(old(self).idx < old(self).items@.len() && old(self).items@[old(
                        self,
                    ).idx as int] is Symbol)
                },
            },
    {
        if self.idx < self.items.len() {
            match &self.items[self.idx] {
                Ast::Symbol(sp, name) => {
                    let out = (*sp, name.clone());
                    self.idx = self.idx + 1;
                    Ok(out)
                },
                other => Err(
                    DiagError {
                        span: other.span(),
                        kind: DiagKind::WrongChild { expected: AstKind::Symbol },
                        note: None,
                    },
                ),
            }
        } else {
            Err(
                DiagError {
                    span: self.span,
                    kind: DiagKind::MissingChild { expected: AstKind::Symbol },
                    note: None,
                },
            )
        }
    }

    /// The next child must be a literal value.
    pub fn expect_literal(&mut self) -> (r: Result<(Span, DynVal), DiagError>)
        requires
            old(self).wf(),
        ensures
            final(self).wf(),
            final(self).items == old(self).items,
            final(self).span == old(self).span,
            match r {
                Ok(res) => {
                    &&& old(self).idx < old(self).items@.len()
                    &&& (old(self).items@[old(self).idx as int] matches Ast::Literal(sp, v)
                        && res.0 == sp && res.1@ == v@)
                    &&& final(self).idx == old(self).idx + 1
                },
                Err(e) => {
                    &&& final(self).idx == old(self).idx
                    &&& !(old(self).idx < old(self).items@.len() && old(self).items@[old(
                        self,
                    ).idx as int] is Literal)
                },
            },
    {
        if self.idx < self.items.len() {
            match &self.items[self.idx] {
                Ast::Literal(sp, v) => {
                    let out = (*sp, v.clone());
                    self.idx = self.idx + 1;
                    Ok(out)
                },
                other => Err(
                    DiagError {
                        span: other.span(),
                        kind: DiagKind::WrongChild { expected: AstKind::Literal },
                        note: None,
                    },
                ),
            }
        } else {
            Err(
                DiagError {
                    span: self.span,
                    kind: DiagKind::MissingChild { expected: AstKind::Literal },
                    note: None,
                },
            )
        }
    }

    /// Consume the run of `:key value` attribute pairs starting here.
    pub fn expect_key_values(&mut self) -> (r: Result<Attributes, DiagError>)
        requires
            old(self).wf(),
        ensures
            final(self).wf(),
            final(self).items == old(self).items,
            final(self).span == old(self).span,
            match r {
                Ok(attrs) => {
                    &&& attrs.wf()
                    &&& attrs.span == old(self).span
                    &&& spec_kv_scan(old(self).items@, old(self).idx as int, Map::empty()) == Some(
                        (attrs.attrs@, final(self).idx as int),
                    )
                },
                Err(_) => spec_kv_scan(
                    old(self).items@,
                    old(self).idx as int,
                    Map::empty(),
                ) is None,
            },
    {
        let mut map = VarMap::new();
        loop
            invariant
                self.wf(),
                self.items == old(self).items,
                self.span == old(self).span,
                map.wf(),
                spec_kv_scan(old(self).items@, old(self).idx as int, Map::empty()) == spec_kv_scan(
                    self.items@,
                    self.idx as int,
                    map@,
                ),
            decreases self.items@.len() - self.idx,
        {
            if self.idx >= self.items.len() {
                return Ok(Attributes { span: self.span, attrs: map });
            }
            match &self.items[self.idx] {
                Ast::Keyword(_, name) => {
                    if self.idx + 1 < self.items.len() {
                        match &self.items[self.idx + 1] {
                            Ast::Literal(_, v) => {
                                let key = name.clone();
                                let value = v.clone();
                                map.insert(VarName::new(key), value);
                                self.idx = self.idx + 2;
                            },
                            other => {
                                return Err(
                                    DiagError {
                                        span: other.span(),
                                        kind: DiagKind::KeywordWithoutValue,
                                        note: None,
                                    },
                                );
                            },
                        }
                    } else {
                        return Err(
                            DiagError {
                                span: self.span,
                                kind: DiagKind::KeywordWithoutValue,
                                note: None,
                            },
                        );
                    }
                },
                _ => {
                    return Ok(Attributes { span: self.span, attrs: map });
                },
            }
        }
    }

    /// The element must have no children left.
    pub fn expect_done(&self) -> (r: Result<(), DiagError>)
        requires
            self.wf(),
        ensures
            match r {
                Ok(_) => self.idx == self.items@.len(),
                Err(_) => self.idx < self.items@.len(),
            },
    {
        if self.idx == self.items.len() {
            Ok(())
        } else {
            Err(DiagError { span: self.span, kind: DiagKind::TooManyChildren, note: None })
        }
    }
}

} // verus!
