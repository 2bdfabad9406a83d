//! Anchor points: where a window attaches to the screen, written `center` or
//! as two words such as `top left` (either word order is accepted).

use vstd::prelude::*;
use vstd::string::StrSliceExecFns;

use crate::dynval::ConversionError;
use crate::dynval::DynVal;
use crate::dynval::FromDynVal;
use crate::dynval::TargetType;
use crate::strutil::find_char;
use crate::strutil::first_index_from;
use crate::strutil::str_eq;

verus! {

/// Alignment along one axis.
#[derive(Clone, Copy, Debug, PartialEq, Eq, Structural)]
pub enum AnchorAlignment {
    Start,
    Center,
    End,
}

/// A two-dimensional anchor.
#[derive(Clone, Copy, Debug, PartialEq, Eq, Structural)]
pub struct AnchorPoint {
    pub x: AnchorAlignment,
    pub y: AnchorAlignment,
}

impl View for AnchorPoint {
    type V = AnchorPoint;

    open spec fn view(&self) -> AnchorPoint {
        *self
    }
}

/// The horizontal alignment a word names.
pub open spec fn spec_alignment_x(w: Seq<char>) -> Option<AnchorAlignment> {
    if w == "left"@ {
        Some(AnchorAlignment::Start)
    } else if w == "center"@ {
        Some(AnchorAlignment::Center)
    } else if w == "right"@ {
        Some(AnchorAlignment::End)
    } else {
        None
    }
}

/// The vertical alignment a word names.
pub open spec fn spec_alignment_y(w: Seq<char>) -> Option<AnchorAlignment> {
    if w == "top"@ {
        Some(AnchorAlignment::Start)
    } else if w == "center"@ {
        Some(AnchorAlignment::Center)
    } else if w == "bottom"@ {
        Some(AnchorAlignment::End)
    } else {
        None
    }
}

/// `center` alone centres both axes; otherwise two words separated by one
/// space, the vertical-first order tried before the horizontal-first one.
pub open spec fn spec_parse_anchor(s: Seq<char>) -> Option<AnchorPoint> {
    if s == "center"@ {
        Some(AnchorPoint { x: AnchorAlignment::Center, y: AnchorAlignment::Center })
    } else {
        match first_index_from(s, ' ', 0) {
            Some(i) => {
                let w1 = s.take(i);
                let w2 = s.skip(i + 1);
                if spec_alignment_y(w1) is Some && spec_alignment_x(w2) is Some {
                    Some(
                        AnchorPoint {
                            x: spec_alignment_x(w2)->Some_0,
                            y: spec_alignment_y(w1)->Some_0,
                        },
                    )
                } else if spec_alignment_x(w1) is Some && spec_alignment_y(w2) is Some {
                    Some(
                        AnchorPoint {
                            x: spec_alignment_x(w1)->Some_0,
                            y: spec_alignment_y(w2)->Some_0,
                        },
                    )
                } else {
                    None
                }
            },
            None => None,
        }
    }
}

/// Parse one word as a horizontal alignment.
fn parse_alignment_x(w: &str) -> (r: Option<AnchorAlignment>)
    ensures
        r == spec_alignment_x(w@),
{
    if str_eq(w, "left") {
        Some(AnchorAlignment::Start)
    } else if str_eq(w, "center") {
        Some(AnchorAlignment::Center)
    } else if str_eq(w, "right") {
        Some(AnchorAlignment::End)
    } else {
        None
    }
}

/// Parse one word as a vertical alignment.
fn parse_alignment_y(w: &str) -> (r: Option<AnchorAlignment>)
    ensures
        r == spec_alignment_y(w@),
{
    if str_eq(w, "top") {
        Some(AnchorAlignment::Start)
    } else if str_eq(w, "center") {
        Some(AnchorAlignment::Center)
    } else if str_eq(w, "bottom") {
        Some(AnchorAlignment::End)
    } else {
        None
    }
}

/// Parse an anchor point.
pub fn parse_anchor(s: &str) -> (r: Option<AnchorPoint>)
    ensures
        r == spec_parse_anchor(s@),
{
    if str_eq(s, "center") {
        return Some(AnchorPoint { x: AnchorAlignment::Center, y: AnchorAlignment::Center });
    }
    match find_char(s, ' ') {
        Some(i) => {
            let n = s.unicode_len();
            proof {
                lemma_first_index_bound(s@, ' ', 0);
            }
            let w1 = s.substring_char(0, i);
            let w2 = s.substring_char(i + 1, n);
            assert(w1@ =~= s@.take(i as int));
            assert(w2@ =~= s@.skip(i + 1));
            let y1 = parse_alignment_y(w1);
            let x2 = parse_alignment_x(w2);
            match (y1, x2) {
                (Some(y), Some(x)) => Some(AnchorPoint { x, y }),
                _ => {
                    let x1 = parse_alignment_x(w1);
                    let y2 = parse_alignment_y(w2);
                    match (x1, y2) {
                        (Some(x), Some(y)) => Some(AnchorPoint { x, y }),
                        _ => None,
                    }
                },
            }
        },
        None => None,
    }
}

/// A found index is always inside the string.
proof fn lemma_first_index_bound(s: Seq<char>, c: char, i: int)
    requires
        first_index_from(s, c, i) is Some,
    ensures
        i <= first_index_from(s, c, i)->Some_0 < s.len(),
    decreases s.len() - i,
{
    if !(i < 0 || i >= s.len()) && s[i] != c {
        lemma_first_index_bound(s, c, i + 1);
    }
}

impl FromDynVal for AnchorPoint {
    open spec fn spec_target() -> TargetType {
        TargetType::Anchor
    }

    open spec fn spec_from_dynval(s: Seq<char>) -> Option<AnchorPoint> {
        spec_parse_anchor(s)
    }

    fn from_dynval(v: &DynVal) -> (r: Result<AnchorPoint, ConversionError>) {
        match parse_anchor(v.text.as_str()) {
            Some(a) => Ok(a),
            None => Err(ConversionError { value: v.clone(), target: TargetType::Anchor }),
        }
    }
}

} // verus!
