//! Verified decimal conversions: string to `u64`/`i64` with the usual
//! error messages, and integer to string for rendering.

use vstd::prelude::*;
use vstd::string::StrSliceExecFns;
use vstd::string::StringExecFns;
use crate::strtools::push_char;

verus! {

/// Whether `c` is a decimal digit.
pub open spec fn is_dec_digit(c: char) -> bool {
    48 <= c as int <= 57
}

/// The numeric value of a digit character.
pub open spec fn digit_val(c: char) -> int {
    c as int - 48
}

/// The digit character for a value in `0..=9`.
pub open spec fn digit_char(d: int) -> char {
    ((48 + d) as u8) as char
}

/// One scanning step at a time: consume decimal digits from the left into an
/// accumulator, reporting the first non-digit or the first step past `bound`.
pub open spec fn spec_scan_digits(s: Seq<char>, acc: int, bound: int, big: Seq<char>) -> Result<
    int,
    Seq<char>,
>
    decreases s.len(),
{
    if s.len() == 0 {
        Ok(acc)
    } else if !is_dec_digit(s[0]) {
        Err("invalid digit found in string"@)
    } else if acc * 10 + digit_val(s[0]) > bound {
        Err(big)
    } else {
        spec_scan_digits(s.subrange(1, s.len() as int), acc * 10 + digit_val(s[0]), bound, big)
    }
}

/// What parsing a `u64` from decimal text yields: the value, or the message
/// for an empty string, a stray character, or a numeral past `u64::MAX`.
pub open spec fn spec_parse_u64(s: Seq<char>) -> Result<u64, Seq<char>> {
    if s.len() == 0 {
        Err("cannot parse integer from empty string"@)
    } else {
        let body = if s[0] == '+' {
            s.subrange(1, s.len() as int)
        } else {
            s
        };
        if body.len() == 0 {
            Err("invalid digit found in string"@)
        } else {
            match spec_scan_digits(
                body,
                0,
                u64::MAX as int,
                "number too large to fit in target type"@,
            ) {
                Ok(v) => Ok(v as u64),
                Err(m) => Err(m),
            }
        }
    }
}

/// What parsing an `i64` from decimal text yields.
pub open spec fn spec_parse_i64(s: Seq<char>) -> Result<i64, Seq<char>> {
    if s.len() == 0 {
        Err("cannot parse integer from empty string"@)
    } else {
        let negative = s[0] == '-';
        let body = if s[0] == '+' || s[0] == '-' {
            s.subrange(1, s.len() as int)
        } else {
            s
        };
        if body.len() == 0 {
            Err("invalid digit found in string"@)
        } else if negative {
            match spec_scan_digits(
                body,
                0,
                0x8000_0000_0000_0000,
                "number too small to fit in target type"@,
            ) {
                Ok(v) => Ok((-v) as i64),
                Err(m) => Err(m),
            }
        } else {
            match spec_scan_digits(
                body,
                0,
                i64::MAX as int,
                "number too large to fit in target type"@,
            ) {
                Ok(v) => Ok(v as i64),
                Err(m) => Err(m),
            }
        }
    }
}

/// The decimal numeral of a nonnegative value.
pub open spec fn spec_u64_string(n: int) -> Seq<char>
    decreases n,
{
    if n < 10 {
        seq![digit_char(n)]
    } else {
        spec_u64_string(n / 10).push(digit_char(n % 10))
    }
}

/// The decimal numeral of a value, with a leading `-` when negative.
pub open spec fn spec_i64_string(n: int) -> Seq<char> {
    if n >= 0 {
        spec_u64_string(n)
    } else {
        seq!['-'] + spec_u64_string(-n)
    }
}

/// Scan the digits of `s` from position `start`, capped by `bound`.
fn scan_digits(s: &str, start: usize, bound: u64, big: &str) -> (r: Result<u64, String>)
    requires
        start <= s@.len(),
    ensures
        ({
            let spec = spec_scan_digits(
                s@.subrange(start as int, s@.len() as int),
                0,
                bound as int,
                big@,
            );
            match (r, spec) {
                (Ok(a), Ok(b)) => a as int == b && a <= bound,
                (Err(a), Err(b)) => a@ == b,
                _ => false,
            }
        }),
{
    let n: usize = s.unicode_len();
    let ghost whole = s@.subrange(start as int, s@.len() as int);
    let mut acc: u64 = 0;
    let mut i: usize = start;
    while i < n
        invariant
            start <= i <= n,
            n == s@.len(),
            whole == s@.subrange(start as int, n as int),
            spec_scan_digits(whole, 0, bound as int, big@) == spec_scan_digits(
                s@.subrange(i as int, n as int),
                acc as int,
                bound as int,
                big@,
            ),
            acc <= bound,
        decreases n - i,
    {
        let ghost rest = s@.subrange(i as int, n as int);
        proof {
            assert(rest.subrange(1, rest.len() as int) =~= s@.subrange(i + 1, n as int));
        }
        let c = s.get_char(i);
        let cv: u32 = c as u32;
        if cv < 48 || cv > 57 {
            return Err("invalid digit found in string".to_owned());
        }
        let d: u64 = (cv - 48) as u64;
        if acc > bound / 10 || (acc == bound / 10 && d > bound % 10) {
            proof {
                assert(acc * 10 + d > bound) by (nonlinear_arith)
                    requires
                        acc > bound / 10 && d <= 9 || (acc == bound / 10 && d > bound % 10),
                        d < 10,
                        bound == (bound / 10) * 10 + bound % 10,
                        0 <= bound % 10 < 10,
                        acc >= 0,
                        bound >= 0,
                ;
            }
            return Err(String::from_str(big));
        }
        proof {
            assert(acc * 10 + d <= bound) by (nonlinear_arith)
                requires
                    acc <= bound / 10,
                    !(acc > bound / 10 || (acc == bound / 10 && d > bound % 10)),
                    d < 10,
                    bound == (bound / 10) * 10 + bound % 10,
                    0 <= bound % 10 < 10,
                    acc >= 0,
            ;
        }
        acc = acc * 10 + d;
        i = i + 1;
    }
    proof {
        assert(s@.subrange(i as int, n as int) =~= Seq::<char>::empty());
    }
    Ok(acc)
}

/// Parse a decimal `u64`, as [`spec_parse_u64`] describes.
pub fn parse_u64(s: &str) -> (r: Result<u64, String>)
    ensures
        ({
            match (r, spec_parse_u64(s@)) {
                (Ok(a), Ok(b)) => a == b,
                (Err(a), Err(b)) => a@ == b,
                _ => false,
            }
        }),
{
    let n: usize = s.unicode_len();
    if n == 0 {
        return Err("cannot parse integer from empty string".to_owned());
    }
    let start: usize = if s.get_char(0) == '+' {
        1
    } else {
        0
    };
    if n == start {
        return Err("invalid digit found in string".to_owned());
    }
    proof {
        if start == 0 {
            assert(s@.subrange(0, n as int) =~= s@);
        }
    }
    match scan_digits(s, start, u64::MAX, "number too large to fit in target type") {
        Ok(v) => Ok(v),
        Err(m) => Err(m),
    }
}

/// Parse a decimal `i64`, as [`spec_parse_i64`] describes.
pub fn parse_i64(s: &str) -> (r: Result<i64, String>)
    ensures
        ({
            match (r, spec_parse_i64(s@)) {
                (Ok(a), Ok(b)) => a == b,
                (Err(a), Err(b)) => a@ == b,
                _ => false,
            }
        }),
{
    let n: usize = s.unicode_len();
    if n == 0 {
        return Err("cannot parse integer from empty string".to_owned());
    }
    let c0 = s.get_char(0);
    let negative = c0 == '-';
    let start: usize = if c0 == '+' || c0 == '-' {
        1
    } else {
        0
    };
    if n == start {
        return Err("invalid digit found in string".to_owned());
    }
    proof {
        if start == 0 {
            assert(s@.subrange(0, n as int) =~= s@);
        }
    }
    if negative {
        match scan_digits(s, start, 0x8000_0000_0000_0000, "number too small to fit in target type") {
            Ok(v) => {
                if v == 0x8000_0000_0000_0000 {
                    Ok(i64::MIN)
                } else {
                    Ok(-(v as i64))
                }
            },
            Err(m) => Err(m),
        }
    } else {
        match scan_digits(s, start, i64::MAX as u64, "number too large to fit in target type") {
            Ok(v) => Ok(v as i64),
            Err(m) => Err(m),
        }
    }
}

/// Render a `u64` in decimal, as [`spec_u64_string`] describes.
pub fn fmt_u64(n: u64) -> (r: String)
    ensures
        r@ == spec_u64_string(n as int),
    decreases n,
{
    if n < 10 {
        let mut out = String::new();
        push_char(&mut out, (48 + n as u8) as char);
        proof {
            assert(out@ =~= seq![digit_char(n as int)]);
        }
        out
    } else {
        let mut out = fmt_u64(n / 10);
        push_char(&mut out, (48 + (n % 10) as u8) as char);
        out
    }
}

/// Render an `i64` in decimal, as [`spec_i64_string`] describes.
pub fn fmt_i64(n: i64) -> (r: String)
    ensures
        r@ == spec_i64_string(n as int),
{
    if n >= 0 {
        fmt_u64(n as u64)
    } else {
        let m: u64 = if n == i64::MIN {
            9223372036854775808u64
        } else {
            (-n) as u64
        };
        let mut out = String::new();
        push_char(&mut out, '-');
        let digits = fmt_u64(m);
        out.append(digits.as_str());
        proof {
            assert(out@ =~= seq!['-'] + spec_u64_string(m as int));
        }
        out
    }
}

} // verus!
