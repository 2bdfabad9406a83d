//! Window coordinates: a pair of lengths, each either absolute pixels or a
//! percentage of the screen, written `WIDTHxHEIGHT` (or with `*` as the
//! separator), e.g. `800x600` or `50%x70%`.

use vstd::prelude::*;
use vstd::string::StrSliceExecFns;

use crate::dynval::ConversionError;
use crate::dynval::DynVal;
use crate::dynval::FromDynVal;
use crate::dynval::TargetType;
use crate::numeric::int_string_val;
use crate::numeric::is_i32_string;
use crate::numeric::parse_i32;

verus! {

/// A length: absolute pixels or a percentage of the screen dimension.
#[derive(Clone, Copy, Debug, PartialEq, Eq, Structural)]
pub enum NumWithUnit {
    Px(i32),
    Percent(i32),
}

impl View for NumWithUnit {
    type V = NumWithUnit;

    open spec fn view(&self) -> NumWithUnit {
        *self
    }
}

/// A coordinate pair.
#[derive(Clone, Copy, Debug, PartialEq, Eq, Structural)]
pub struct Coords {
    pub x: NumWithUnit,
    pub y: NumWithUnit,
}

impl View for Coords {
    type V = Coords;

    open spec fn view(&self) -> Coords {
        *self
    }
}

/// A length reads as an integer, with a `%` suffix marking a percentage.
pub open spec fn spec_parse_num_with_unit(s: Seq<char>) -> Option<NumWithUnit> {
    if s.len() >= 1 && s.last() == '%' {
        let num = s.take(s.len() - 1);
        if is_i32_string(num) {
            Some(NumWithUnit::Percent(int_string_val(num) as i32))
        } else {
            None
        }
    } else if is_i32_string(s) {
        Some(NumWithUnit::Px(int_string_val(s) as i32))
    } else {
        None
    }
}

/// The position of the coordinate separator: the first `x` or `*`.
pub open spec fn spec_sep_index(s: Seq<char>, i: int) -> Option<int>
    decreases s.len() - i,
{
    if i < 0 || i >= s.len() {
        None
    } else if s[i] == 'x' || s[i] == '*' {
        Some(i)
    } else {
        spec_sep_index(s, i + 1)
    }
}

/// A coordinate pair reads as two lengths around the first separator.
pub open spec fn spec_parse_coords(s: Seq<char>) -> Option<Coords> {
    match spec_sep_index(s, 0) {
        Some(i) => {
            let xs = spec_parse_num_with_unit(s.take(i));
            let ys = spec_parse_num_with_unit(s.skip(i + 1));
            if xs is Some && ys is Some {
                Some(Coords { x: xs->Some_0, y: ys->Some_0 })
            } else {
                None
            }
        },
        None => None,
    }
}

/// Parse one length.
pub fn parse_num_with_unit(s: &str) -> (r: Option<NumWithUnit>)
    ensures
        r == spec_parse_num_with_unit(s@),
{
    let n = s.unicode_len();
    if n >= 1 && s.get_char(n - 1) == '%' {
        let num = s.substring_char(0, n - 1);
        assert(num@ =~= s@.take(n - 1));
        match parse_i32(num) {
            Some(v) => Some(NumWithUnit::Percent(v)),
            None => None,
        }
    } else {
        match parse_i32(s) {
            Some(v) => Some(NumWithUnit::Px(v)),
            None => None,
        }
    }
}

/// Parse a coordinate pair.
pub fn parse_coords(s: &str) -> (r: Option<Coords>)
    ensures
        r == spec_parse_coords(s@),
{
    let n = s.unicode_len();
    let mut i: usize = 0;
    while i < n
        invariant
            0 <= i <= n,
            n == s@.len(),
            spec_sep_index(s@, 0) == spec_sep_index(s@, i as int),
        decreases n - i,
    {
        let c = s.get_char(i);
        if c == 'x' || c == '*' {
            let xs = s.substring_char(0, i);
            let ys = s.substring_char(i + 1, n);
            assert(xs@ =~= s@.take(i as int));
            assert(ys@ =~= s@.skip(i + 1));
            let x = parse_num_with_unit(xs);
            let y = parse_num_with_unit(ys);
            return match (x, y) {
                (Some(x), Some(y)) => Some(Coords { x, y }),
                _ => None,
            };
        }
        i += 1;
    }
    None
}

impl FromDynVal for Coords {
    open spec fn spec_target() -> TargetType {
        TargetType::Coords
    }

    open spec fn spec_from_dynval(s: Seq<char>) -> Option<Coords> {
        spec_parse_coords(s)
    }

    fn from_dynval(v: &DynVal) -> (r: Result<Coords, ConversionError>) {
        match parse_coords(v.text.as_str()) {
            Some(c) => Ok(c),
            None => Err(ConversionError { value: v.clone(), target: TargetType::Coords }),
        }
    }
}

} // verus!
