//! Monitor identifiers: a numeric output index or a symbolic output name.
//! Parsing tries the integer reading first, so an identifier that is a valid
//! integer is always numeric, never a name.

use vstd::prelude::*;
use vstd::string::StringExecFns;

use crate::dynval::ConversionError;
use crate::dynval::DynVal;
use crate::dynval::FromDynVal;
use crate::dynval::TargetType;
use crate::numeric::i32_string;
use crate::numeric::i32_to_string;
use crate::numeric::int_string_val;
use crate::numeric::is_i32_string;
use crate::numeric::lemma_i32_string_roundtrip;
use crate::numeric::parse_i32;

verus! {

/// The identifier used to select a monitor.
#[derive(Debug)]
pub enum MonitorIdentifier {
    Numeric(i32),
    Name(String),
}

/// The mathematical reading of a monitor identifier.
pub enum MonitorIdentifierView {
    Numeric(int),
    Name(Seq<char>),
}

impl View for MonitorIdentifier {
    type V = MonitorIdentifierView;

    open spec fn view(&self) -> MonitorIdentifierView {
        match self {
            MonitorIdentifier::Numeric(n) => MonitorIdentifierView::Numeric(*n as int),
            MonitorIdentifier::Name(s) => MonitorIdentifierView::Name(s@),
        }
    }
}

impl Clone for MonitorIdentifier {
    fn clone(&self) -> (r: Self)
        ensures
            r@ == self@,
    {
        match self {
            MonitorIdentifier::Numeric(n) => MonitorIdentifier::Numeric(*n),
            MonitorIdentifier::Name(s) => MonitorIdentifier::Name(s.clone()),
        }
    }
}

impl PartialEq for MonitorIdentifier {
    fn eq(&self, other: &MonitorIdentifier) -> (r: bool) {
        match (self, other) {
            (MonitorIdentifier::Numeric(a), MonitorIdentifier::Numeric(b)) => {
                let r = *a == *b;
                assert(r == (self@ == other@));
                r
            },
            (MonitorIdentifier::Name(a), MonitorIdentifier::Name(b)) => {
                let r = crate::strutil::str_eq(a.as_str(), b.as_str());
                assert(r == (self@ == other@));
                r
            },
            _ => {
                assert(self@ != other@);
                false
            },
        }
    }
}

impl vstd::std_specs::cmp::PartialEqSpecImpl for MonitorIdentifier {
    open spec fn obeys_eq_spec() -> bool {
        true
    }

    open spec fn eq_spec(&self, other: &MonitorIdentifier) -> bool {
        self@ == other@
    }
}

/// Parsing a monitor identifier: the integer reading wins whenever the whole
/// string is integer-formatted; anything else is taken as a name.
pub open spec fn spec_parse_monitor(s: Seq<char>) -> MonitorIdentifierView {
    if is_i32_string(s) {
        MonitorIdentifierView::Numeric(int_string_val(s))
    } else {
        MonitorIdentifierView::Name(s)
    }
}

/// The textual form of a monitor identifier: the canonical decimal rendering
/// of a numeric index, or the name itself.
pub open spec fn spec_display_monitor(m: MonitorIdentifierView) -> Seq<char> {
    match m {
        MonitorIdentifierView::Numeric(n) => i32_string(n),
        MonitorIdentifierView::Name(s) => s,
    }
}

impl MonitorIdentifier {
    /// A parsed identifier never stores an integer-formatted string as a name,
    /// and its numeric index always fits in an `i32`.
    pub open spec fn wf(&self) -> bool {
        match self@ {
            MonitorIdentifierView::Numeric(n) => i32::MIN <= n <= i32::MAX,
            MonitorIdentifierView::Name(s) => !is_i32_string(s),
        }
    }

    /// Parse from a string: the integer reading first, then the name fallback.
    /// This parse cannot fail.
    pub fn from_str(s: &str) -> (r: MonitorIdentifier)
        ensures
            r@ == spec_parse_monitor(s@),
            r.wf(),
    {
        match parse_i32(s) {
            Some(n) => MonitorIdentifier::Numeric(n),
            None => MonitorIdentifier::Name(String::from_str(s)),
        }
    }

    /// Whether this identifier selects a monitor by its index.
    pub fn is_numeric(&self) -> (r: bool)
        ensures
            r == (self@ is Numeric),
    {
        matches!(self, MonitorIdentifier::Numeric(_))
    }

    /// The textual form handed back to dynamic values and diagnostics.
    pub fn to_display_string(&self) -> (r: String)
        ensures
            r@ == spec_display_monitor(self@),
    {
        match self {
            MonitorIdentifier::Numeric(n) => i32_to_string(*n),
            MonitorIdentifier::Name(s) => s.clone(),
        }
    }

    /// The identifier as a dynamic value.
    pub fn to_dynval(&self) -> (r: DynVal)
        ensures
            r@ == spec_display_monitor(self@),
    {
        DynVal::from_string(self.to_display_string())
    }
}

impl FromDynVal for MonitorIdentifier {
    open spec fn spec_target() -> TargetType {
        TargetType::Monitor
    }

    open spec fn spec_from_dynval(s: Seq<char>) -> Option<MonitorIdentifierView> {
        Some(spec_parse_monitor(s))
    }

    fn from_dynval(v: &DynVal) -> (r: Result<MonitorIdentifier, ConversionError>) {
        Ok(MonitorIdentifier::from_str(v.text.as_str()))
    }
}

/// An integer-formatted string always parses to the numeric variant carrying
/// its integer value, never to a name.
pub proof fn lemma_parse_monitor_numeric(s: Seq<char>)
    requires
        is_i32_string(s),
    ensures
        spec_parse_monitor(s) == MonitorIdentifierView::Numeric(int_string_val(s)),
{
}

/// A string that is not integer-formatted parses to a name, and displaying
/// that name gives the string back unchanged.
pub proof fn lemma_parse_monitor_name_roundtrip(s: Seq<char>)
    requires
        !is_i32_string(s),
    ensures
        spec_parse_monitor(s) == MonitorIdentifierView::Name(s),
        spec_display_monitor(spec_parse_monitor(s)) == s,
{
}

/// An integer-formatted string in canonical form (no redundant sign or
/// leading zeros) is returned unchanged by parse followed by display.
pub proof fn lemma_parse_monitor_numeric_roundtrip(s: Seq<char>)
    requires
        is_i32_string(s),
        s == i32_string(int_string_val(s)),
    ensures
        spec_display_monitor(spec_parse_monitor(s)) == s,
{
}

/// Displaying any well-formed monitor identifier and parsing the result
/// restores the identifier.
pub proof fn lemma_monitor_display_parse(m: MonitorIdentifierView)
    requires
        m matches MonitorIdentifierView::Name(s) ==> !is_i32_string(s),
        m matches MonitorIdentifierView::Numeric(n) ==> i32::MIN <= n <= i32::MAX,
    ensures
        spec_parse_monitor(spec_display_monitor(m)) == m,
{
    match m {
        MonitorIdentifierView::Numeric(n) => {
            lemma_i32_string_roundtrip(n);
        },
        MonitorIdentifierView::Name(_) => {
        },
    }
}

} // verus!
