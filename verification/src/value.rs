//! Coercion of free-form string property values into typed values: the exact
//! strings `"true"` and `"false"` become booleans, strings in the
//! floating-point literal grammar become numeric values, and everything else
//! stays a plain string.

use vstd::prelude::*;
use vstd::string::StrSliceExecFns;
use vstd::string::StringExecFns;
use crate::strings::str_eq;

verus! {

/// A typed value coerced from a string property. A numeric value keeps the
/// literal it was recognized from.
#[derive(Debug, Clone, PartialEq, Eq)]
pub enum CoercedValue {
    Bool(bool),
    Number(String),
    Text(String),
}

/// A decimal digit.
pub open spec fn is_digit(c: char) -> bool {
    48 <= c as u32 && c as u32 <= 57
}

/// Every character of the sequence is a decimal digit.
pub open spec fn all_digits(s: Seq<char>) -> bool {
    forall|i: int| 0 <= i < s.len() ==> is_digit(s[i])
}

/// A nonempty run of decimal digits.
pub open spec fn is_count(s: Seq<char>) -> bool {
    s.len() > 0 && all_digits(s)
}

/// The sequence with one leading sign character removed, if there is one.
pub open spec fn strip_sign(s: Seq<char>) -> Seq<char> {
    if s.len() > 0 && (s[0] == '+' || s[0] == '-') {
        s.skip(1)
    } else {
        s
    }
}

/// The word `inf`, in any letter case.
pub open spec fn is_inf(s: Seq<char>) -> bool {
    &&& s.len() == 3
    &&& (s[0] == 'i' || s[0] == 'I')
    &&& (s[1] == 'n' || s[1] == 'N')
    &&& (s[2] == 'f' || s[2] == 'F')
}

/// The word `infinity`, in any letter case.
pub open spec fn is_infinity(s: Seq<char>) -> bool {
    &&& s.len() == 8
    &&& (s[0] == 'i' || s[0] == 'I')
    &&& (s[1] == 'n' || s[1] == 'N')
    &&& (s[2] == 'f' || s[2] == 'F')
    &&& (s[3] == 'i' || s[3] == 'I')
    &&& (s[4] == 'n' || s[4] == 'N')
    &&& (s[5] == 'i' || s[5] == 'I')
    &&& (s[6] == 't' || s[6] == 'T')
    &&& (s[7] == 'y' || s[7] == 'Y')
}

/// The word `nan`, in any letter case.
pub open spec fn is_nan(s: Seq<char>) -> bool {
    &&& s.len() == 3
    &&& (s[0] == 'n' || s[0] == 'N')
    &&& (s[1] == 'a' || s[1] == 'A')
    &&& (s[2] == 'n' || s[2] == 'N')
}

/// One of the named non-finite values of the floating-point grammar.
pub open spec fn is_special(s: Seq<char>) -> bool {
    is_inf(s) || is_infinity(s) || is_nan(s)
}

/// A mantissa: digits with at most one decimal point among them, and at least
/// one digit. This covers exactly the forms digits, digits `.` digits,
/// digits `.`, and `.` digits.
pub open spec fn is_mantissa(s: Seq<char>) -> bool {
    &&& forall|i: int| 0 <= i < s.len() ==> is_digit(s[i]) || s[i] == '.'
    &&& exists|i: int| 0 <= i < s.len() && is_digit(s[i])
    &&& forall|i: int, j: int|
        0 <= i < s.len() && 0 <= j < s.len() && s[i] == '.' && s[j] == '.' ==> i == j
}

/// An exponent part: `e` or `E`, an optional sign, and a nonempty digit run.
pub open spec fn is_exponent(s: Seq<char>) -> bool {
    &&& s.len() >= 1
    &&& (s[0] == 'e' || s[0] == 'E')
    &&& is_count(strip_sign(s.skip(1)))
}

/// A finite number of the floating-point grammar: a mantissa followed by an
/// optional exponent part.
pub open spec fn is_number(s: Seq<char>) -> bool {
    exists|i: int|
        0 <= i <= s.len() && is_mantissa(s.take(i)) && (i == s.len() || is_exponent(s.skip(i)))
}

/// A string accepted by the 64-bit floating-point literal grammar: an optional
/// sign followed by `inf`, `infinity` or `nan` in any letter case, or by a
/// finite number.
pub open spec fn is_f64_literal(s: Seq<char>) -> bool {
    is_special(strip_sign(s)) || is_number(strip_sign(s))
}

fn is_digit_exec(c: char) -> (r: bool)
    ensures
        r == is_digit(c),
{
    let u = c as u32;
    48 <= u && u <= 57
}

fn check_special(s: &str, lo: usize, hi: usize) -> (r: bool)
    requires
        lo <= hi <= s@.len(),
    ensures
        r == is_special(s@.subrange(lo as int, hi as int)),
{
    let ghost sub = s@.subrange(lo as int, hi as int);
    let len = hi - lo;
    if len == 3 {
        let c0 = s.get_char(lo);
        let c1 = s.get_char(lo + 1);
        let c2 = s.get_char(lo + 2);
        ((c0 == 'i' || c0 == 'I') && (c1 == 'n' || c1 == 'N') && (c2 == 'f' || c2 == 'F')) || ((c0
            == 'n' || c0 == 'N') && (c1 == 'a' || c1 == 'A') && (c2 == 'n' || c2 == 'N'))
    } else if len == 8 {
        let c0 = s.get_char(lo);
        let c1 = s.get_char(lo + 1);
        let c2 = s.get_char(lo + 2);
        let c3 = s.get_char(lo + 3);
        let c4 = s.get_char(lo + 4);
        let c5 = s.get_char(lo + 5);
        let c6 = s.get_char(lo + 6);
        let c7 = s.get_char(lo + 7);
        (c0 == 'i' || c0 == 'I') && (c1 == 'n' || c1 == 'N') && (c2 == 'f' || c2 == 'F') && (c3
            == 'i' || c3 == 'I') && (c4 == 'n' || c4 == 'N') && (c5 == 'i' || c5 == 'I') && (c6
            == 't' || c6 == 'T') && (c7 == 'y' || c7 == 'Y')
    } else {
        false
    }
}

fn check_mantissa(s: &str, lo: usize, hi: usize) -> (r: bool)
    requires
        lo <= hi <= s@.len(),
    ensures
        r == is_mantissa(s@.subrange(lo as int, hi as int)),
{
    let ghost sub = s@.subrange(lo as int, hi as int);
    let mut i = lo;
    let mut seen_digit = false;
    let mut seen_dot = false;
    let ghost mut dot_at: int = 0;
    while i < hi
        invariant
            lo <= i <= hi <= s@.len(),
            sub == s@.subrange(lo as int, hi as int),
            forall|j: int| lo <= j < i ==> is_digit(s@[j]) || s@[j] == '.',
            seen_digit == exists|j: int| lo <= j < i && is_digit(s@[j]),
            seen_dot == exists|j: int| lo <= j < i && s@[j] == '.',
            seen_dot ==> lo <= dot_at < i && s@[dot_at] == '.',
            forall|j: int| lo <= j < i && s@[j] == '.' ==> j == dot_at,
        decreases hi - i,
    {
        let c = s.get_char(i);
        if is_digit_exec(c) {
            seen_digit = true;
        } else if c == '.' {
            if seen_dot {
                proof {
                    assert(sub[dot_at - lo] == '.');
                    assert(sub[i - lo] == '.');
                    assert(!is_mantissa(sub));
                }
                return false;
            }
            seen_dot = true;
            proof {
                dot_at = i as int;
            }
        } else {
            proof {
                assert(!(is_digit(sub[i - lo]) || sub[i - lo] == '.'));
                assert(!is_mantissa(sub));
            }
            return false;
        }
        i += 1;
    }
    proof {
        if seen_digit {
            let j = choose|j: int| lo <= j < hi && is_digit(s@[j]);
            assert(is_digit(sub[j - lo]));
            assert forall|a: int, b: int|
                0 <= a < sub.len() && 0 <= b < sub.len() && sub[a] == '.' && sub[b]
                    == '.' implies a == b by {
                assert(s@[a + lo] == '.');
                assert(s@[b + lo] == '.');
            }
            assert(is_mantissa(sub));
        } else {
            assert forall|j: int| 0 <= j < sub.len() implies !is_digit(sub[j]) by {
                assert(sub[j] == s@[j + lo]);
            }
            assert(!is_mantissa(sub));
        }
    }
    seen_digit
}

fn check_exponent(s: &str, lo: usize, hi: usize) -> (r: bool)
    requires
        lo < hi <= s@.len(),
    ensures
        r == is_exponent(s@.subrange(lo as int, hi as int)),
{
    let ghost sub = s@.subrange(lo as int, hi as int);
    let c = s.get_char(lo);
    if !(c == 'e' || c == 'E') {
        return false;
    }
    let mut j = lo + 1;
    if j < hi {
        let cs = s.get_char(j);
        if cs == '+' || cs == '-' {
            j += 1;
        }
    }
    proof {
        assert(sub.skip(1) =~= s@.subrange(lo + 1int, hi as int));
        assert(strip_sign(sub.skip(1)) =~= s@.subrange(j as int, hi as int));
    }
    if j == hi {
        proof {
            assert(!is_count(strip_sign(sub.skip(1))));
        }
        return false;
    }
    let ghost count = s@.subrange(j as int, hi as int);
    let mut k = j;
    while k < hi
        invariant
            j <= k <= hi <= s@.len(),
            j < hi,
            lo < j,
            sub == s@.subrange(lo as int, hi as int),
            count == s@.subrange(j as int, hi as int),
            strip_sign(sub.skip(1)) == count,
            forall|m: int| j <= m < k ==> is_digit(s@[m]),
        decreases hi - k,
    {
        let ck = s.get_char(k);
        if !is_digit_exec(ck) {
            proof {
                assert(!is_digit(count[k - j]));
                assert(!all_digits(count));
            }
            return false;
        }
        k += 1;
    }
    proof {
        assert forall|m: int| 0 <= m < count.len() implies is_digit(count[m]) by {
            assert(count[m] == s@[m + j]);
        }
        assert(is_count(count));
        assert(is_exponent(sub));
    }
    true
}

fn check_number(s: &str, lo: usize, hi: usize) -> (r: bool)
    requires
        lo <= hi <= s@.len(),
    ensures
        r == is_number(s@.subrange(lo as int, hi as int)),
{
    let ghost sub = s@.subrange(lo as int, hi as int);
    // Find the first exponent marker; a valid split can only be there.
    let mut epos = lo;
    let mut found = false;
    while !found && epos < hi
        invariant
            lo <= epos <= hi <= s@.len(),
            forall|j: int| lo <= j < epos ==> !(s@[j] == 'e' || s@[j] == 'E'),
            found ==> epos < hi && (s@[epos as int] == 'e' || s@[epos as int] == 'E'),
        decreases hi - epos, (if found { 0int } else { 1int }),
    {
        let c = s.get_char(epos);
        if c == 'e' || c == 'E' {
            found = true;
        } else {
            epos += 1;
        }
    }
    if !found {
        let m = check_mantissa(s, lo, hi);
        proof {
            assert(sub.take(sub.len() as int) =~= sub);
            if m {
                assert(is_mantissa(sub.take(sub.len() as int)));
                assert(is_number(sub));
            } else if is_number(sub) {
                let i = choose|i: int|
                    0 <= i <= sub.len() && is_mantissa(sub.take(i)) && (i == sub.len()
                        || is_exponent(sub.skip(i)));
                if i < sub.len() {
                    assert(sub.skip(i)[0] == s@[lo + i]);
                    assert(false);
                } else {
                    assert(false);
                }
            }
        }
        m
    } else {
        let m = check_mantissa(s, lo, epos);
        let e = check_exponent(s, epos, hi);
        proof {
            let split = epos - lo;
            assert(sub.take(split) =~= s@.subrange(lo as int, epos as int));
            assert(sub.skip(split) =~= s@.subrange(epos as int, hi as int));
            if m && e {
                assert(is_mantissa(sub.take(split)) && is_exponent(sub.skip(split)));
                assert(is_number(sub));
            } else if is_number(sub) {
                let i = choose|i: int|
                    0 <= i <= sub.len() && is_mantissa(sub.take(i)) && (i == sub.len()
                        || is_exponent(sub.skip(i)));
                if i < split {
                    assert(i < sub.len());
                    assert(is_exponent(sub.skip(i)));
                    assert(sub.skip(i)[0] == s@[lo + i]);
                    assert(false);
                } else if i > split {
                    assert(is_mantissa(sub.take(i)));
                    assert(sub.take(i)[split] == s@[epos as int]);
                    assert(is_digit(sub.take(i)[split]) || sub.take(i)[split] == '.');
                    assert(false);
                } else {
                    assert(false);
                }
            }
        }
        m && e
    }
}

/// Whether a string is accepted by the 64-bit floating-point literal grammar.
pub fn parses_as_f64(s: &str) -> (r: bool)
    ensures
        r == is_f64_literal(s@),
{
    let n = s.unicode_len();
    let start: usize = if n > 0 {
        let c0 = s.get_char(0);
        if c0 == '+' || c0 == '-' {
            1
        } else {
            0
        }
    } else {
        0
    };
    proof {
        assert(strip_sign(s@) =~= s@.subrange(start as int, n as int));
    }
    let special = check_special(s, start, n);
    if special {
        true
    } else {
        check_number(s, start, n)
    }
}

/// What coercion must return: `"true"` and `"false"` become booleans, a
/// floating-point literal becomes a numeric value keeping its text, and any
/// other string stays text, unmodified.
pub open spec fn coerce_ok(s: Seq<char>, r: CoercedValue) -> bool {
    if s == "true"@ {
        r == CoercedValue::Bool(true)
    } else if s == "false"@ {
        r == CoercedValue::Bool(false)
    } else if is_f64_literal(s) {
        &&& r matches CoercedValue::Number(n)
        &&& n@ == s
    } else {
        &&& r matches CoercedValue::Text(t)
        &&& t@ == s
    }
}

/// Coerces a string property value into a typed value. Every input maps to
/// some value; there is no error path.
pub fn parse_value(value: &str) -> (r: CoercedValue)
    ensures
        coerce_ok(value@, r),
{
    if str_eq(value, "true") {
        CoercedValue::Bool(true)
    } else if str_eq(value, "false") {
        CoercedValue::Bool(false)
    } else if parses_as_f64(value) {
        CoercedValue::Number(String::from_str(value))
    } else {
        CoercedValue::Text(String::from_str(value))
    }
}

} // verus!
