//! Decimal integer strings: the mathematical meaning of a digit string, an
//! exact parser for `i32` values (sign handling and overflow rejection
//! included), and the canonical decimal rendering of an `i32`.

use vstd::prelude::*;
use vstd::string::StrSliceExecFns;
use vstd::string::StringExecFns;

verus! {

/// A decimal digit character.
pub open spec fn is_digit_char(c: char) -> bool {
    '0' <= c && c <= '9'
}

/// Numeric value of a digit character.
pub open spec fn digit_val(c: char) -> int {
    c as int - '0' as int
}

/// Every character of `s` is a decimal digit.
pub open spec fn all_digits(s: Seq<char>) -> bool {
    forall|i: int| 0 <= i < s.len() ==> is_digit_char(s[i])
}

/// Value of a big-endian digit string (most significant digit first).
pub open spec fn digits_val(s: Seq<char>) -> int
    decreases s.len(),
{
    if s.len() == 0 {
        0
    } else {
        digits_val(s.drop_last()) * 10 + digit_val(s.last())
    }
}

/// `s` without its leading sign character, if it has one.
pub open spec fn unsigned_part(s: Seq<char>) -> Seq<char> {
    if s.len() > 0 && (s[0] == '+' || s[0] == '-') {
        s.subrange(1, s.len() as int)
    } else {
        s
    }
}

/// An optional sign followed by at least one digit and nothing else.
pub open spec fn is_int_string(s: Seq<char>) -> bool {
    unsigned_part(s).len() > 0 && all_digits(unsigned_part(s))
}

/// The signed value of an integer-formatted string.
pub open spec fn int_string_val(s: Seq<char>) -> int {
    if s.len() > 0 && s[0] == '-' {
        -digits_val(unsigned_part(s))
    } else {
        digits_val(unsigned_part(s))
    }
}

/// An integer-formatted string whose value fits in an `i32`.
pub open spec fn is_i32_string(s: Seq<char>) -> bool {
    is_int_string(s) && i32::MIN <= int_string_val(s) <= i32::MAX
}

pub proof fn lemma_digits_val_nonneg(s: Seq<char>)
    requires
        all_digits(s),
    ensures
        digits_val(s) >= 0,
    decreases s.len(),
{
    if s.len() > 0 {
        assert(is_digit_char(s.last()));
        lemma_digits_val_nonneg(s.drop_last());
    }
}

/// A digit string is worth at least as much as any of its prefixes.
pub proof fn lemma_digits_val_prefix_le(s: Seq<char>, i: int)
    requires
        all_digits(s),
        0 <= i <= s.len(),
    ensures
        digits_val(s.subrange(0, i)) <= digits_val(s),
    decreases s.len() - i,
{
    if i == s.len() {
        assert(s.subrange(0, i) =~= s);
    } else {
        let p = s.subrange(0, i);
        let q = s.subrange(0, i + 1);
        assert(q.drop_last() =~= p);
        assert(q.last() == s[i]);
        lemma_digits_val_nonneg(p);
        assert(is_digit_char(s[i]));
        assert(digits_val(q) == digits_val(p) * 10 + digit_val(s[i]));
        lemma_digits_val_prefix_le(s, i + 1);
    }
}

/// Parse a decimal string of digits (no sign) as its numeric value, capped
/// detection: `None` exactly when the string is empty, holds a non-digit, or
/// its value exceeds `u64::MAX`.
pub fn parse_u64_digits(s: &str) -> (r: Option<u64>)
    ensures
        match r {
            Some(v) => all_digits(s@) && s@.len() > 0 && v as int == digits_val(s@),
            None => !(all_digits(s@) && s@.len() > 0 && digits_val(s@) <= u64::MAX),
        },
{
    let n = s.unicode_len();
    if n == 0 {
        return None;
    }
    let mut acc: u64 = 0;
    let mut i: usize = 0;
    while i < n
        invariant
            0 <= i <= n,
            n == s@.len(),
            forall|k: int| 0 <= k < i ==> is_digit_char(s@[k]),
            acc as int == digits_val(s@.subrange(0, i as int)),
        decreases n - i,
    {
        let c = s.get_char(i);
        let code = c as u32;
        if code < 48 || code > 57 {
            assert(!is_digit_char(s@[i as int]));
            return None;
        }
        assert(is_digit_char(s@[i as int]));
        let d: u64 = (code - 48) as u64;
        proof {
            assert(d as int == digit_val(s@[i as int]));
            assert(s@.subrange(0, i + 1).drop_last() =~= s@.subrange(0, i as int));
            assert(s@.subrange(0, i + 1).last() == s@[i as int]);
        }
        let wide: u128 = acc as u128 * 10 + d as u128;
        if wide > u64::MAX as u128 {
            proof {
                let j = i as int;
                assert(digits_val(s@.subrange(0, j + 1)) == wide as int);
                if all_digits(s@) {
                    lemma_digits_val_prefix_le(s@, j + 1);
                }
            }
            return None;
        }
        acc = wide as u64;
        i += 1;
    }
    proof {
        assert(s@.subrange(0, n as int) =~= s@);
    }
    Some(acc)
}

/// Parse a string as an `i32`, the way a decimal integer literal with an
/// optional leading `+` or `-` reads: `Some` exactly on integer-formatted
/// strings whose value fits in an `i32`.
pub fn parse_i32(s: &str) -> (r: Option<i32>)
    ensures
        r is Some <==> is_i32_string(s@),
        match r {
            Some(v) => v as int == int_string_val(s@),
            None => true,
        },
{
    let n = s.unicode_len();
    if n == 0 {
        return None;
    }
    let first = s.get_char(0);
    let neg = first == '-';
    let has_sign = first == '-' || first == '+';
    let start: usize = if has_sign {
        1
    } else {
        0
    };
    if start == n {
        assert(unsigned_part(s@).len() == 0);
        return None;
    }
    let ghost u = unsigned_part(s@);
    proof {
        if has_sign {
            assert(u =~= s@.subrange(1, n as int));
        } else {
            assert(u =~= s@);
        }
    }
    let mut acc: u64 = 0;
    let mut i: usize = start;
    while i < n
        invariant
            start <= i <= n,
            n == s@.len(),
            start <= 1,
            u == unsigned_part(s@),
            u.len() == n - start,
            forall|k: int| 0 <= k < u.len() ==> u[k] == s@[k + start],
            forall|k: int| 0 <= k < i - start ==> is_digit_char(u[k]),
            acc as int == digits_val(u.subrange(0, i - start)),
            acc <= 0x8000_0000,
        decreases n - i,
    {
        let c = s.get_char(i);
        let code = c as u32;
        let ghost j = i - start;
        if code < 48 || code > 57 {
            assert(!is_digit_char(u[j]));
            return None;
        }
        assert(is_digit_char(u[j]));
        let d: u64 = (code - 48) as u64;
        proof {
            assert(d as int == digit_val(u[j]));
            assert(u.subrange(0, j + 1).drop_last() =~= u.subrange(0, j));
            assert(u.subrange(0, j + 1).last() == u[j]);
        }
        let next: u64 = acc * 10 + d;
        if next > 0x8000_0000 {
            proof {
                assert(digits_val(u.subrange(0, j + 1)) == next as int);
                if all_digits(u) {
                    lemma_digits_val_prefix_le(u, j + 1);
                    assert(digits_val(u) >= next as int);
                }
                assert(!is_i32_string(s@));
            }
            return None;
        }
        acc = next;
        i += 1;
    }
    proof {
        assert(u.subrange(0, n - start) =~= u);
        assert(all_digits(u));
        assert(is_int_string(s@));
    }
    if neg {
        proof {
            assert(s@[0] == '-');
            assert(int_string_val(s@) == -(acc as int));
        }
        if acc == 0x8000_0000 {
            Some(i32::MIN)
        } else {
            Some(-(acc as i32))
        }
    } else {
        proof {
            assert(int_string_val(s@) == acc as int);
        }
        if acc > i32::MAX as u64 {
            assert(!is_i32_string(s@));
            None
        } else {
            Some(acc as i32)
        }
    }
}

/// The decimal digit character for a value between 0 and 9.
pub open spec fn digit_char(d: int) -> char {
    if d == 0 {
        '0'
    } else if d == 1 {
        '1'
    } else if d == 2 {
        '2'
    } else if d == 3 {
        '3'
    } else if d == 4 {
        '4'
    } else if d == 5 {
        '5'
    } else if d == 6 {
        '6'
    } else if d == 7 {
        '7'
    } else if d == 8 {
        '8'
    } else {
        '9'
    }
}

/// Canonical decimal rendering of a non-negative value: no leading zeros
/// except for the single digit `0` itself.
pub open spec fn nat_digits(n: int) -> Seq<char>
    decreases n,
{
    if n < 10 {
        seq![digit_char(n)]
    } else {
        nat_digits(n / 10).push(digit_char(n % 10))
    }
}

/// Canonical decimal rendering of a signed value.
pub open spec fn i32_string(v: int) -> Seq<char> {
    if v < 0 {
        seq!['-'] + nat_digits(-v)
    } else {
        nat_digits(v)
    }
}

pub proof fn lemma_nat_digits_correct(n: int)
    requires
        n >= 0,
    ensures
        all_digits(nat_digits(n)),
        nat_digits(n).len() >= 1,
        digits_val(nat_digits(n)) == n,
        n >= 1 ==> nat_digits(n)[0] != '0',
    decreases n,
{
    if n < 10 {
        let s = nat_digits(n);
        assert(s.len() == 1);
        assert(s.last() == digit_char(n));
        let e = s.drop_last();
        assert(e =~= Seq::<char>::empty());
        assert(digits_val(e) == 0);
        assert(digits_val(s) == digits_val(e) * 10 + digit_val(s.last()));
        assert(digit_val(digit_char(n)) == n);
        assert(is_digit_char(digit_char(n)));
    } else {
        lemma_nat_digits_correct(n / 10);
        let p = nat_digits(n / 10);
        let s = nat_digits(n);
        assert(s == p.push(digit_char(n % 10)));
        assert(s.drop_last() =~= p);
        assert(s.last() == digit_char(n % 10));
        assert(is_digit_char(digit_char(n % 10)));
        assert(digit_val(digit_char(n % 10)) == n % 10);
        assert(digits_val(s) == digits_val(p) * 10 + n % 10);
        assert(forall|i: int| 0 <= i < s.len() ==> is_digit_char(#[trigger] s[i]));
        assert(s[0] == p[0]);
    }
}

/// The canonical rendering of an `i32` parses back to the same value.
pub proof fn lemma_i32_string_roundtrip(v: int)
    requires
        i32::MIN <= v <= i32::MAX,
    ensures
        is_i32_string(i32_string(v)),
        int_string_val(i32_string(v)) == v,
{
    if v < 0 {
        lemma_nat_digits_correct(-v);
        let s = i32_string(v);
        let p = nat_digits(-v);
        assert(s[0] == '-');
        assert(unsigned_part(s) =~= p);
    } else {
        lemma_nat_digits_correct(v);
        let s = i32_string(v);
        assert(is_digit_char(s[0]));
        assert(s[0] != '+' && s[0] != '-');
        assert(unsigned_part(s) =~= s);
    }
}

/// The string slice holding one decimal digit character.
fn digit_str(d: u64) -> (r: &'static str)
    requires
        d <= 9,
    ensures
        r@ =~= seq![digit_char(d as int)],
{
    if d == 0 {
        proof {
            reveal_strlit("0");
        }
        "0"
    } else if d == 1 {
        proof {
            reveal_strlit("1");
        }
        "1"
    } else if d == 2 {
        proof {
            reveal_strlit("2");
        }
        "2"
    } else if d == 3 {
        proof {
            reveal_strlit("3");
        }
        "3"
    } else if d == 4 {
        proof {
            reveal_strlit("4");
        }
        "4"
    } else if d == 5 {
        proof {
            reveal_strlit("5");
        }
        "5"
    } else if d == 6 {
        proof {
            reveal_strlit("6");
        }
        "6"
    } else if d == 7 {
        proof {
            reveal_strlit("7");
        }
        "7"
    } else if d == 8 {
        proof {
            reveal_strlit("8");
        }
        "8"
    } else {
        proof {
            reveal_strlit("9");
        }
        "9"
    }
}

/// Append the canonical decimal digits of `n` to `out`.
fn push_digits(n: u64, out: &mut String)
    ensures
        final(out)@ == old(out)@ + nat_digits(n as int),
    decreases n,
{
    if n < 10 {
        out.append(digit_str(n));
    } else {
        push_digits(n / 10, out);
        out.append(digit_str(n % 10));
        proof {
            assert(old(out)@ + nat_digits(n as int / 10) + seq![digit_char(n as int % 10)] =~= old(
                out,
            )@ + nat_digits(n as int));
        }
    }
}

/// Render an `i32` as its canonical decimal string.
pub fn i32_to_string(v: i32) -> (r: String)
    ensures
        r@ == i32_string(v as int),
{
    let mut out = String::new();
    if v < 0 {
        proof {
            reveal_strlit("-");
        }
        out.append("-");
        let mag: u64 = (-(v as i64)) as u64;
        push_digits(mag, &mut out);
        proof {
            assert(out@ =~= i32_string(v as int));
        }
    } else {
        push_digits(v as u64, &mut out);
        proof {
            assert(out@ =~= i32_string(v as int));
        }
    }
    out
}

} // verus!
