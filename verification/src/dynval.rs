//! The dynamic value representation: every configuration value is carried as
//! its textual form, and typed views of it are obtained by attempted
//! conversion that never mutates the text.

use vstd::prelude::*;
use vstd::string::StrSliceExecFns;
use vstd::string::StringExecFns;

use crate::numeric::all_digits;
use crate::numeric::digits_val;
use crate::numeric::int_string_val;
use crate::numeric::is_i32_string;
use crate::numeric::parse_i32;
use crate::numeric::parse_u64_digits;
use crate::strutil::str_eq;

verus! {

/// A region of the configuration source text, kept for diagnostics.
#[derive(Clone, Copy, Debug, PartialEq, Eq, Structural)]
pub struct Span {
    pub start: usize,
    pub end: usize,
    pub file_id: usize,
}

/// The name of a configuration variable; identity is the wrapped string.
#[derive(Debug, Hash)]
pub struct VarName(pub String);

impl PartialEq for VarName {
    fn eq(&self, other: &VarName) -> bool {
        self.0 == other.0
    }
}

impl vstd::std_specs::cmp::PartialEqSpecImpl for VarName {
    open spec fn obeys_eq_spec() -> bool {
        true
    }

    open spec fn eq_spec(&self, other: &VarName) -> bool {
        self@ == other@
    }
}

impl View for VarName {
    type V = Seq<char>;

    open spec fn view(&self) -> Seq<char> {
        self.0@
    }
}

impl Clone for VarName {
    fn clone(&self) -> (r: Self)
        ensures
            r@ == self@,
    {
        VarName(self.0.clone())
    }
}

impl VarName {
    pub fn new(name: String) -> (r: VarName)
        ensures
            r@ == name@,
    {
        VarName(name)
    }
}

/// A string-backed dynamic value: the text is the canonical source of truth,
/// typed readings are derived on demand.
#[derive(Debug)]
pub struct DynVal {
    pub text: String,
    pub span: Option<Span>,
}

impl View for DynVal {
    type V = Seq<char>;

    open spec fn view(&self) -> Seq<char> {
        self.text@
    }
}

impl Clone for DynVal {
    fn clone(&self) -> (r: Self)
        ensures
            r@ == self@,
            r.span == self.span,
    {
        DynVal { text: self.text.clone(), span: self.span }
    }
}

impl PartialEq for DynVal {
    fn eq(&self, other: &DynVal) -> bool {
        self.text == other.text
    }
}

impl vstd::std_specs::cmp::PartialEqSpecImpl for DynVal {
    open spec fn obeys_eq_spec() -> bool {
        true
    }

    open spec fn eq_spec(&self, other: &DynVal) -> bool {
        self@ == other@
    }
}

/// The typed targets a dynamic value can be converted into.
#[derive(Clone, Copy, Debug, PartialEq, Eq, Structural)]
pub enum TargetType {
    Integer,
    Boolean,
    Text,
    Duration,
    Coords,
    Anchor,
    Monitor,
}

/// A textual value could not be read as the requested type; carries the
/// offending value and the attempted target.
#[derive(Debug)]
pub struct ConversionError {
    pub value: DynVal,
    pub target: TargetType,
}

impl Clone for ConversionError {
    fn clone(&self) -> (r: Self)
        ensures
            r.value@ == self.value@,
            r.target == self.target,
    {
        ConversionError { value: self.value.clone(), target: self.target }
    }
}

/// The uniform typed parse protocol: any type that can be meaningfully read
/// from a dynamic value's text implements one conversion operation, specified
/// exactly by an associated parse function on the text.
pub trait FromDynVal: View + Sized {
    /// The target tag this type reports in conversion errors.
    spec fn spec_target() -> TargetType;

    /// What the conversion yields on a given text, `None` meaning failure.
    spec fn spec_from_dynval(s: Seq<char>) -> Option<Self::V>;

    /// Attempt the conversion; the text is only read, never changed.
    fn from_dynval(v: &DynVal) -> (r: Result<Self, ConversionError>)
        ensures
            match r {
                Ok(t) => Self::spec_from_dynval(v@) == Some(t@),
                Err(e) => Self::spec_from_dynval(v@) is None && e.value@ == v@ && e.target
                    == Self::spec_target(),
            },
    ;
}

/// The typed view of an optional value.
pub open spec fn opt_view<T: View>(o: Option<T>) -> Option<T::V> {
    match o {
        Some(t) => Some(t@),
        None => None,
    }
}

/// What looking up `key` in a name-to-text map and converting the text
/// yields: `Ok(None)` when the key is absent, `Ok(Some(..))` on a successful
/// conversion, `Err(())` when the key is present but malformed.
pub open spec fn spec_extract<T: FromDynVal>(m: Map<Seq<char>, Seq<char>>, key: Seq<char>) -> Result<
    Option<T::V>,
    (),
> {
    if m.contains_key(key) {
        match T::spec_from_dynval(m[key]) {
            Some(t) => Ok(Some(t)),
            None => Err(()),
        }
    } else {
        Ok(None)
    }
}

/// A span of time, stored as whole milliseconds.
#[derive(Clone, Copy, Debug, PartialEq, Eq, Structural)]
pub struct Duration {
    pub millis: u64,
}

impl View for Duration {
    type V = Duration;

    open spec fn view(&self) -> Duration {
        *self
    }
}

/// Split a duration string into its number part and the unit's value in
/// milliseconds: `ms`, `s`, `m` (minutes) or `h` (hours).
pub open spec fn duration_split(s: Seq<char>) -> Option<(Seq<char>, int)> {
    if s.len() >= 2 && s[s.len() - 2] == 'm' && s[s.len() - 1] == 's' {
        Some((s.take(s.len() - 2), 1int))
    } else if s.len() >= 1 && s.last() == 's' {
        Some((s.take(s.len() - 1), 1000int))
    } else if s.len() >= 1 && s.last() == 'm' {
        Some((s.take(s.len() - 1), 60000int))
    } else if s.len() >= 1 && s.last() == 'h' {
        Some((s.take(s.len() - 1), 3600000int))
    } else {
        None
    }
}

/// A duration reads as a non-negative decimal number followed by a unit
/// suffix; the result in milliseconds must fit in a `u64`.
pub open spec fn spec_parse_duration(s: Seq<char>) -> Option<int> {
    match duration_split(s) {
        Some((num, unit)) => {
            if all_digits(num) && num.len() > 0 && digits_val(num) * unit <= u64::MAX {
                Some(digits_val(num) * unit)
            } else {
                None
            }
        },
        None => None,
    }
}

/// `true` or `false`, exactly.
pub open spec fn spec_parse_bool(s: Seq<char>) -> Option<bool> {
    if s == "true"@ {
        Some(true)
    } else if s == "false"@ {
        Some(false)
    } else {
        None
    }
}

impl FromDynVal for bool {
    open spec fn spec_target() -> TargetType {
        TargetType::Boolean
    }

    open spec fn spec_from_dynval(s: Seq<char>) -> Option<bool> {
        spec_parse_bool(s)
    }

    fn from_dynval(v: &DynVal) -> (r: Result<bool, ConversionError>) {
        if str_eq(v.text.as_str(), "true") {
            Ok(true)
        } else if str_eq(v.text.as_str(), "false") {
            Ok(false)
        } else {
            Err(ConversionError { value: v.clone(), target: TargetType::Boolean })
        }
    }
}

impl DynVal {
    /// Wrap a plain string as a dynamic value with no source location.
    pub fn from_string(text: String) -> (r: DynVal)
        ensures
            r@ == text@,
            r.span is None,
    {
        DynVal { text, span: None }
    }

    /// Wrap a plain string together with its source location.
    pub fn new(text: String, span: Span) -> (r: DynVal)
        ensures
            r@ == text@,
            r.span == Some(span),
    {
        DynVal { text, span: Some(span) }
    }

    /// Read the value as text; this conversion cannot fail.
    pub fn as_string(&self) -> (r: Result<String, ConversionError>)
        ensures
            match r {
                Ok(s) => s@ == self@,
                Err(_) => false,
            },
    {
        Ok(self.text.clone())
    }

    /// Read the value as an `i32`, accepting exactly the integer-formatted
    /// strings whose value fits.
    pub fn as_i32(&self) -> (r: Result<i32, ConversionError>)
        ensures
            match r {
                Ok(n) => is_i32_string(self@) && n as int == int_string_val(self@),
                Err(e) => !is_i32_string(self@) && e.value@ == self@ && e.target
                    == TargetType::Integer,
            },
    {
        match parse_i32(self.text.as_str()) {
            Some(n) => Ok(n),
            None => Err(ConversionError { value: self.clone(), target: TargetType::Integer }),
        }
    }

    /// Read the value as a boolean flag.
    pub fn as_bool(&self) -> (r: Result<bool, ConversionError>)
        ensures
            match r {
                Ok(b) => spec_parse_bool(self@) == Some(b),
                Err(e) => spec_parse_bool(self@) is None && e.value@ == self@ && e.target
                    == TargetType::Boolean,
            },
    {
        <bool as FromDynVal>::from_dynval(self)
    }

    /// Read the value as a duration with a unit suffix.
    pub fn as_duration(&self) -> (r: Result<Duration, ConversionError>)
        ensures
            match r {
                Ok(d) => spec_parse_duration(self@) == Some(d.millis as int),
                Err(e) => spec_parse_duration(self@) is None && e.value@ == self@ && e.target
                    == TargetType::Duration,
            },
    {
        let s = self.text.as_str();
        let n = s.unicode_len();
        let unit: u64;
        let num_len: usize;
        if n >= 2 && s.get_char(n - 2) == 'm' && s.get_char(n - 1) == 's' {
            unit = 1;
            num_len = n - 2;
        } else if n >= 1 && s.get_char(n - 1) == 's' {
            unit = 1000;
            num_len = n - 1;
        } else if n >= 1 && s.get_char(n - 1) == 'm' {
            unit = 60000;
            num_len = n - 1;
        } else if n >= 1 && s.get_char(n - 1) == 'h' {
            unit = 3600000;
            num_len = n - 1;
        } else {
            assert(duration_split(self@) is None);
            return Err(ConversionError { value: self.clone(), target: TargetType::Duration });
        }
        let num = s.substring_char(0, num_len);
        assert(num@ =~= duration_split(self@)->Some_0.0);
        assert(unit as int == duration_split(self@)->Some_0.1);
        match parse_u64_digits(num) {
            Some(v) => {
                match v.checked_mul(unit) {
                    Some(ms) => Ok(Duration { millis: ms }),
                    None => {
                        proof {
                            crate::numeric::lemma_digits_val_nonneg(num@);
                        }
                        Err(ConversionError { value: self.clone(), target: TargetType::Duration })
                    },
                }
            },
            None => {
                proof {
                    if all_digits(num@) && num@.len() > 0 {
                        crate::numeric::lemma_digits_val_nonneg(num@);
                        if digits_val(num@) * unit as int <= u64::MAX {
                            assert(digits_val(num@) <= u64::MAX) by (nonlinear_arith)
                                requires
                                    digits_val(num@) >= 0,
                                    unit as int >= 1,
                                    digits_val(num@) * unit as int <= u64::MAX,
                            ;
                        }
                    }
                }
                Err(ConversionError { value: self.clone(), target: TargetType::Duration })
            },
        }
    }
}

impl FromDynVal for Duration {
    open spec fn spec_target() -> TargetType {
        TargetType::Duration
    }

    open spec fn spec_from_dynval(s: Seq<char>) -> Option<Duration> {
        match spec_parse_duration(s) {
            Some(ms) => Some(Duration { millis: ms as u64 }),
            None => None,
        }
    }

    fn from_dynval(v: &DynVal) -> (r: Result<Duration, ConversionError>) {
        let out = v.as_duration();
        proof {
            if let Ok(d) = out {
                assert(spec_parse_duration(v@) == Some(d.millis as int));
                assert(0 <= d.millis as int <= u64::MAX);
            }
        }
        out
    }
}

} // verus!
