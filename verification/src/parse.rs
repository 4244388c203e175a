//! Parsing of resolved string leaves into primitive values: the standard
//! boolean literal grammar (`true`/`false`) and the standard integer literal
//! grammar (an optional sign followed by decimal digits), checked against
//! each target type's exact range.

use vstd::prelude::*;
use crate::text::str_eq;

verus! {

/// Why a string failed to become a typed value.
#[derive(Clone, Copy, Debug, PartialEq, Eq, Structural)]
pub enum ParseCause {
    /// Not a boolean literal.
    NotBool,
    /// Not an integer literal.
    NotNumeric,
    /// A valid integer literal whose value lies outside the target range.
    OutOfRange,
    /// No value was supplied for a non-optional field.
    MissingValue,
    /// The value's shape does not fit the target (a document where a string
    /// was expected, or the reverse).
    ShapeMismatch,
}

pub open spec fn is_ascii_digit(c: char) -> bool {
    '0' <= c && c <= '9'
}

pub open spec fn digit_value(c: char) -> int {
    c as int - '0' as int
}

pub open spec fn all_digits(s: Seq<char>) -> bool {
    forall|i: int| 0 <= i < s.len() ==> is_ascii_digit(#[trigger] s[i])
}

/// The number denoted by a digit string, most significant digit first.
pub open spec fn digits_value(s: Seq<char>) -> int
    decreases s.len(),
{
    if s.len() == 0 {
        0
    } else {
        digits_value(s.drop_last()) * 10 + digit_value(s.last())
    }
}

/// The value of an unsigned integer literal: an optional `+` followed by at
/// least one decimal digit.
pub open spec fn uint_literal(s: Seq<char>) -> Option<int> {
    let body = if s.len() > 0 && s[0] == '+' {
        s.subrange(1, s.len() as int)
    } else {
        s
    };
    if body.len() > 0 && all_digits(body) {
        Some(digits_value(body))
    } else {
        None
    }
}

/// The value of a signed integer literal: an optional `+` or `-` followed by
/// at least one decimal digit.
pub open spec fn int_literal(s: Seq<char>) -> Option<int> {
    if s.len() > 0 && s[0] == '-' {
        let body = s.subrange(1, s.len() as int);
        if body.len() > 0 && all_digits(body) {
            Some(-digits_value(body))
        } else {
            None
        }
    } else {
        uint_literal(s)
    }
}

/// The value of a boolean literal, exactly `true` or `false`.
pub open spec fn bool_literal(s: Seq<char>) -> Option<bool> {
    if s == "true"@ {
        Some(true)
    } else if s == "false"@ {
        Some(false)
    } else {
        None
    }
}

proof fn lemma_digits_value_nonneg(s: Seq<char>)
    requires
        all_digits(s),
    ensures
        digits_value(s) >= 0,
    decreases s.len(),
{
    if s.len() > 0 {
        assert(all_digits(s.drop_last()));
        lemma_digits_value_nonneg(s.drop_last());
    }
}

/// Extending a digit prefix by one digit multiplies its value by ten.
proof fn lemma_digits_value_step(s: Seq<char>, start: int, i: int)
    requires
        0 <= start <= i < s.len(),
    ensures
        digits_value(s.subrange(start, i + 1)) == digits_value(s.subrange(start, i)) * 10
            + digit_value(s[i]),
{
    assert(s.subrange(start, i + 1).drop_last() =~= s.subrange(start, i));
    assert(s.subrange(start, i + 1).last() == s[i]);
}

/// A digit string is worth at least any of its prefixes.
proof fn lemma_digits_value_mono(s: Seq<char>, start: int, i: int, j: int)
    requires
        0 <= start <= i <= j <= s.len(),
        forall|k: int| start <= k < j ==> is_ascii_digit(#[trigger] s[k]),
    ensures
        digits_value(s.subrange(start, i)) <= digits_value(s.subrange(start, j)),
    decreases j - i,
{
    if i < j {
        lemma_digits_value_step(s, start, j - 1);
        assert(forall|k: int| 0 <= k < s.subrange(start, j - 1).len() ==> is_ascii_digit(
            #[trigger] s.subrange(start, j - 1)[k],
        ));
        lemma_digits_value_nonneg(s.subrange(start, j - 1));
        lemma_digits_value_mono(s, start, i, j - 1);
        assert(digits_value(s.subrange(start, j)) >= digits_value(s.subrange(start, j - 1)));
    }
}

/// Parses the digit run `s[start..]` as a number, refusing values above
/// `bound`.
fn parse_digits(s: &str, start: usize, bound: u128) -> (r: Result<u128, ParseCause>)
    requires
        start as int <= s@.len(),
    ensures
        ({
            let body = s@.subrange(start as int, s@.len() as int);
            match r {
                Ok(v) => body.len() > 0 && all_digits(body) && v as int == digits_value(body) && v
                    <= bound,
                Err(ParseCause::NotNumeric) => !(body.len() > 0 && all_digits(body)),
                Err(ParseCause::OutOfRange) => body.len() > 0 && all_digits(body) && digits_value(
                    body,
                ) > bound,
                Err(_) => false,
            }
        }),
{
    let ghost body = s@.subrange(start as int, s@.len() as int);
    let n = s.unicode_len();
    if start >= n {
        return Err(ParseCause::NotNumeric);
    }
    let mut i: usize = start;
    while i < n
        invariant
            start <= i <= n,
            n == s@.len(),
            body == s@.subrange(start as int, s@.len() as int),
            forall|k: int| start <= k < i ==> is_ascii_digit(#[trigger] s@[k]),
        decreases n - i,
    {
        let c = s.get_char(i);
        let cu = c as u32;
        if cu < 48 || cu > 57 {
            proof {
                assert(!is_ascii_digit(s@[i as int]));
                assert(s@.subrange(start as int, s@.len() as int)[i as int - start as int]
                    == s@[i as int]);
                assert(body[i as int - start as int] == s@[i as int]);
                assert(!all_digits(body));
            }
            return Err(ParseCause::NotNumeric);
        }
        i = i + 1;
    }
    proof {
        assert(all_digits(body));
    }
    let mut acc: u128 = 0;
    i = start;
    while i < n
        invariant
            start <= i <= n,
            n == s@.len(),
            start < n,
            all_digits(body),
            body == s@.subrange(start as int, s@.len() as int),
            forall|k: int| start <= k < n ==> is_ascii_digit(#[trigger] s@[k]),
            acc as int == digits_value(s@.subrange(start as int, i as int)),
            acc <= bound,
        decreases n - i,
    {
        let c = s.get_char(i);
        let d = (c as u32 - 48) as u128;
        proof {
            assert(is_ascii_digit(s@[i as int]));
            assert(d as int == digit_value(s@[i as int]));
            lemma_digits_value_step(s@, start as int, i as int);
        }
        if d > bound || acc > (bound - d) / 10 {
            proof {
                let prefix = digits_value(s@.subrange(start as int, i as int));
                assert(prefix * 10 + d as int > bound as int) by (nonlinear_arith)
                    requires
                        prefix == acc as int,
                        (d > bound || acc > (bound - d) / 10),
                        d < 10,
                        acc >= 0,
                        d >= 0,
                        bound >= 0,
                ;
                lemma_digits_value_mono(s@, start as int, i as int + 1, n as int);
                assert(digits_value(body) == digits_value(
                    s@.subrange(start as int, n as int),
                ));
            }
            return Err(ParseCause::OutOfRange);
        }
        proof {
            let prefix = digits_value(s@.subrange(start as int, i as int));
            assert(prefix * 10 + d as int <= bound as int) by (nonlinear_arith)
                requires
                    prefix == acc as int,
                    d <= bound,
                    acc <= (bound - d) / 10,
                    d < 10,
                    acc >= 0,
                    d >= 0,
            ;
        }
        acc = acc * 10 + d;
        i = i + 1;
    }
    proof {
        assert(s@.subrange(start as int, n as int) == body);
    }
    Ok(acc)
}

/// Parses `s` as an unsigned integer literal with maximum value `max`.
pub fn parse_unsigned(s: &str, max: u128) -> (r: Result<u128, ParseCause>)
    ensures
        match r {
            Ok(v) => uint_literal(s@) == Some(v as int) && v <= max,
            Err(ParseCause::NotNumeric) => uint_literal(s@) is None,
            Err(ParseCause::OutOfRange) => uint_literal(s@) matches Some(v) && v > max,
            Err(_) => false,
        },
{
    let n = s.unicode_len();
    let start: usize = if n > 0 && s.get_char(0) == '+' {
        1
    } else {
        0
    };
    proof {
        if start == 0 {
            assert(s@.subrange(0, s@.len() as int) =~= s@);
        }
    }
    parse_digits(s, start, max)
}

/// Parses `s` as a signed integer literal with range `min ..= max`.
pub fn parse_signed(s: &str, min: i128, max: i128) -> (r: Result<i128, ParseCause>)
    requires
        min <= 0,
        max >= 0,
    ensures
        match r {
            Ok(v) => int_literal(s@) == Some(v as int) && min <= v <= max,
            Err(ParseCause::NotNumeric) => int_literal(s@) is None,
            Err(ParseCause::OutOfRange) => int_literal(s@) matches Some(v) && (v < min as int || v
                > max as int),
            Err(_) => false,
        },
{
    let n = s.unicode_len();
    if n > 0 && s.get_char(0) == '-' {
        let neg_bound: u128 = if min == i128::MIN {
            170141183460469231731687303715884105728u128
        } else {
            (-min) as u128
        };
        proof {
            assert(neg_bound as int == -(min as int));
        }
        match parse_digits(s, 1, neg_bound) {
            Ok(mag) => {
                let v: i128 = if mag == 0 {
                    0
                } else {
                    -((mag - 1) as i128) - 1
                };
                proof {
                    assert(v as int == -(mag as int));
                }
                Ok(v)
            },
            Err(ParseCause::NotNumeric) => Err(ParseCause::NotNumeric),
            Err(_) => Err(ParseCause::OutOfRange),
        }
    } else {
        match parse_unsigned(s, max as u128) {
            Ok(v) => Ok(v as i128),
            Err(ParseCause::NotNumeric) => Err(ParseCause::NotNumeric),
            Err(_) => Err(ParseCause::OutOfRange),
        }
    }
}

/// Parses `s` as a boolean literal.
pub fn parse_bool(s: &str) -> (r: Result<bool, ParseCause>)
    ensures
        match r {
            Ok(b) => bool_literal(s@) == Some(b),
            Err(ParseCause::NotBool) => bool_literal(s@) is None,
            Err(_) => false,
        },
{
    if str_eq(s, "true") {
        Ok(true)
    } else if str_eq(s, "false") {
        Ok(false)
    } else {
        Err(ParseCause::NotBool)
    }
}

} // verus!
