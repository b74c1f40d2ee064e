//! Decimal text of integers: formatting, and parsing as `str::parse` does.
use vstd::prelude::*;
use crate::text::{str_chars, string_from_chars};

verus! {

/// The character of a decimal digit.
pub open spec fn digit_char(d: int) -> char {
    if d == 0 { '0' }
    else if d == 1 { '1' }
    else if d == 2 { '2' }
    else if d == 3 { '3' }
    else if d == 4 { '4' }
    else if d == 5 { '5' }
    else if d == 6 { '6' }
    else if d == 7 { '7' }
    else if d == 8 { '8' }
    else { '9' }
}

/// Decimal digits of `n`, most significant first, without leading zeros.
pub open spec fn dec(n: nat) -> Seq<char>
    decreases n,
{
    if n < 10 {
        seq![digit_char(n as int)]
    } else {
        dec(n / 10).push(digit_char((n % 10) as int))
    }
}

fn digit_to_char(d: u64) -> (c: char)
    requires
        d < 10,
    ensures
        c == digit_char(d as int),
{
    match d {
        0 => '0',
        1 => '1',
        2 => '2',
        3 => '3',
        4 => '4',
        5 => '5',
        6 => '6',
        7 => '7',
        8 => '8',
        _ => '9',
    }
}

fn dec_chars(n: u64) -> (v: Vec<char>)
    ensures
        v@ == dec(n as nat),
    decreases n,
{
    if n < 10 {
        let mut v = Vec::new();
        v.push(digit_to_char(n));
        assert(v@ =~= dec(n as nat));
        v
    } else {
        let mut v = dec_chars(n / 10);
        v.push(digit_to_char(n % 10));
        v
    }
}

/// Decimal text of `n`, as `format!("{n}")` writes it.
pub fn u64_to_string(n: u64) -> (s: String)
    ensures
        s@ == dec(n as nat),
{
    let v = dec_chars(n);
    string_from_chars(v.as_slice())
}

/// Decimal text of `n`, as `format!("{n}")` writes it.
pub fn usize_to_string(n: usize) -> (s: String)
    ensures
        s@ == dec(n as nat),
{
    u64_to_string(n as u64)
}

/// Whether `c` is an ASCII decimal digit.
pub open spec fn is_digit(c: char) -> bool {
    '0' <= c && c <= '9'
}

/// Value of a decimal digit character.
pub open spec fn digit_value(c: char) -> int {
    (c as int) - ('0' as int)
}

/// Why a numeral does not parse, as `std::num::IntErrorKind` tells.
#[derive(Debug, Clone, Copy, PartialEq, Eq, Structural)]
pub enum IntParseError {
    Empty,
    InvalidDigit,
    PosOverflow,
    NegOverflow,
}

impl IntParseError {
    pub open spec fn spec_message(self) -> Seq<char> {
        match self {
            IntParseError::Empty => "cannot parse integer from empty string"@,
            IntParseError::InvalidDigit => "invalid digit found in string"@,
            IntParseError::PosOverflow => "number too large to fit in target type"@,
            IntParseError::NegOverflow => "number too small to fit in target type"@,
        }
    }

    /// The text of the error, as `ParseIntError` displays it.
    pub fn message(self) -> (r: &'static str)
        ensures
            r@ == self.spec_message(),
    {
        match self {
            IntParseError::Empty => "cannot parse integer from empty string",
            IntParseError::InvalidDigit => "invalid digit found in string",
            IntParseError::PosOverflow => "number too large to fit in target type",
            IntParseError::NegOverflow => "number too small to fit in target type",
        }
    }
}

/// Value after reading the first `k` digits of `d` left to right, with the
/// sign applied to each step, failing at the first character that is not a
/// digit or the first step that leaves `[min, max]`.
pub open spec fn scan_digits(d: Seq<char>, k: int, neg: bool, min: int, max: int) -> Result<int, IntParseError>
    decreases k,
{
    if k <= 0 {
        Ok(0)
    } else {
        match scan_digits(d, k - 1, neg, min, max) {
            Err(e) => Err(e),
            Ok(v) => if !is_digit(d[k - 1]) {
                Err(IntParseError::InvalidDigit)
            } else {
                let nv = if neg { v * 10 - digit_value(d[k - 1]) } else { v * 10 + digit_value(d[k - 1]) };
                if nv > max {
                    Err(IntParseError::PosOverflow)
                } else if nv < min {
                    Err(IntParseError::NegOverflow)
                } else {
                    Ok(nv)
                }
            },
        }
    }
}

/// `str::parse` for an integer type with range `[min, max]`: an optional
/// `+` (or `-` where `signed`), then decimal digits.
pub open spec fn parse_int(s: Seq<char>, signed: bool, min: int, max: int) -> Result<int, IntParseError> {
    if s.len() == 0 {
        Err(IntParseError::Empty)
    } else {
        let neg = signed && s[0] == '-';
        let d = if (signed && s[0] == '-') || s[0] == '+' { s.drop_first() } else { s };
        if d.len() == 0 {
            Err(IntParseError::InvalidDigit)
        } else {
            scan_digits(d, d.len() as int, neg, min, max)
        }
    }
}

/// `s.parse::<i64>()`, successful.
pub open spec fn parse_i64(s: Seq<char>) -> Option<int> {
    match parse_int(s, true, i64::MIN as int, i64::MAX as int) {
        Ok(v) => Some(v),
        Err(_) => None,
    }
}

proof fn lemma_scan_bounds(d: Seq<char>, k: int, neg: bool, min: int, max: int)
    requires
        min <= 0 <= max,
    ensures
        scan_digits(d, k, neg, min, max) matches Ok(v) ==> min <= v <= max,
    decreases k,
{
    if k > 0 {
        lemma_scan_bounds(d, k - 1, neg, min, max);
    }
}

/// Parses `c[start..]` as digits with the sign `neg`, in `[min, max]`.
fn scan_digits_exec(c: &[char], start: usize, neg: bool, min: i128, max: i128) -> (r: Result<i128, IntParseError>)
    requires
        start <= c.len(),
        min <= 0 <= max,
        max <= u64::MAX,
        min >= i64::MIN,
    ensures
        match r {
            Ok(v) => scan_digits(c@.skip(start as int), c@.len() - start, neg, min as int, max as int) == Ok::<int, IntParseError>(v as int),
            Err(e) => scan_digits(c@.skip(start as int), c@.len() - start, neg, min as int, max as int) == Err::<int, IntParseError>(e),
        },
{
    let ghost d = c@.skip(start as int);
    let mut v: i128 = 0;
    let mut i: usize = start;
    while i < c.len()
        invariant
            start <= i <= c.len(),
            d == c@.skip(start as int),
            min <= 0 <= max,
            max <= u64::MAX,
            min >= i64::MIN,
            scan_digits(d, i - start, neg, min as int, max as int) == Ok::<int, IntParseError>(v as int),
            min <= v <= max,
        decreases c.len() - i,
    {
        assert(d[i - start] == c@[i as int]);
        let ch = c[i];
        if !('0' <= ch && ch <= '9') {
            assert(scan_digits(d, i - start + 1, neg, min as int, max as int) == Err::<int, IntParseError>(IntParseError::InvalidDigit));
            proof {
                lemma_scan_error_stays(d, i - start + 1, c@.len() - start, neg, min as int, max as int);
            }
            return Err(IntParseError::InvalidDigit);
        }
        let dv = (ch as u32 - '0' as u32) as i128;
        let nv = if neg {
            v * 10 - dv
        } else {
            v * 10 + dv
        };
        if nv > max {
            proof {
                lemma_scan_error_stays(d, i - start + 1, c@.len() - start, neg, min as int, max as int);
            }
            return Err(IntParseError::PosOverflow);
        }
        if nv < min {
            proof {
                lemma_scan_error_stays(d, i - start + 1, c@.len() - start, neg, min as int, max as int);
            }
            return Err(IntParseError::NegOverflow);
        }
        v = nv;
        i = i + 1;
    }
    Ok(v)
}

proof fn lemma_scan_error_stays(d: Seq<char>, k: int, n: int, neg: bool, min: int, max: int)
    requires
        0 < k <= n,
        scan_digits(d, k, neg, min, max) is Err,
    ensures
        scan_digits(d, n, neg, min, max) == scan_digits(d, k, neg, min, max),
    decreases n - k,
{
    if k < n {
        lemma_scan_error_stays(d, k, n - 1, neg, min, max);
    }
}

/// `str::parse` for an integer type with range `[min, max]`.
pub fn parse_int_str(s: &str, signed: bool, min: i128, max: i128) -> (r: Result<i128, IntParseError>)
    requires
        min <= 0 <= max,
        max <= u64::MAX,
        min >= i64::MIN,
    ensures
        match r {
            Ok(v) => parse_int(s@, signed, min as int, max as int) == Ok::<int, IntParseError>(v as int),
            Err(e) => parse_int(s@, signed, min as int, max as int) == Err::<int, IntParseError>(e),
        },
{
    let c = str_chars(s);
    if c.len() == 0 {
        return Err(IntParseError::Empty);
    }
    let neg = signed && c[0] == '-';
    let start: usize = if (signed && c[0] == '-') || c[0] == '+' {
        1
    } else {
        0
    };
    if start == c.len() {
        return Err(IntParseError::InvalidDigit);
    }
    assert(c@.skip(start as int) =~= if start == 1 { s@.drop_first() } else { s@ });
    scan_digits_exec(c.as_slice(), start, neg, min, max)
}

/// `s.parse::<i64>()`.
pub fn parse_i64_str(s: &str) -> (r: Option<i64>)
    ensures
        match r {
            Some(v) => parse_i64(s@) == Some(v as int),
            None => parse_i64(s@) is None,
        },
{
    match parse_int_str(s, true, -9223372036854775808, 9223372036854775807) {
        Ok(v) => Some(v as i64),
        Err(_) => None,
    }
}

/// `s.parse::<u64>()`.
pub fn parse_u64_str(s: &str) -> (r: Result<u64, IntParseError>)
    ensures
        match r {
            Ok(v) => parse_int(s@, false, 0, u64::MAX as int) == Ok::<int, IntParseError>(v as int),
            Err(e) => parse_int(s@, false, 0, u64::MAX as int) == Err::<int, IntParseError>(e),
        },
{
    match parse_int_str(s, false, 0, 18446744073709551615) {
        Ok(v) => Ok(v as u64),
        Err(e) => Err(e),
    }
}

/// `s.parse::<usize>()`.
pub fn parse_usize_str(s: &str) -> (r: Result<usize, IntParseError>)
    ensures
        match r {
            Ok(v) => parse_int(s@, false, 0, usize::MAX as int) == Ok::<int, IntParseError>(v as int),
            Err(e) => parse_int(s@, false, 0, usize::MAX as int) == Err::<int, IntParseError>(e),
        },
{
    match parse_int_str(s, false, 0, usize::MAX as i128) {
        Ok(v) => Ok(v as usize),
        Err(e) => Err(e),
    }
}

/// The digits of a number are decimal digits, each with its value.
pub proof fn lemma_digit_char(d: int)
    requires
        0 <= d < 10,
    ensures
        is_digit(digit_char(d)),
        digit_value(digit_char(d)) == d,
{
}

/// Every character of `dec(n)` is a decimal digit.
pub proof fn lemma_dec_digits(n: nat)
    ensures
        dec(n).len() >= 1,
        forall|i: int| 0 <= i < dec(n).len() ==> is_digit(#[trigger] dec(n)[i]),
    decreases n,
{
    if n < 10 {
        lemma_digit_char(n as int);
    } else {
        lemma_dec_digits(n / 10);
        lemma_digit_char((n % 10) as int);
        assert forall|i: int| 0 <= i < dec(n).len() implies is_digit(#[trigger] dec(n)[i]) by {
            if i < dec(n).len() - 1 {
                assert(dec(n)[i] == dec(n / 10)[i]);
            }
        }
    }
}

/// Scanning depends only on the characters scanned.
proof fn lemma_scan_same_prefix(d1: Seq<char>, d2: Seq<char>, k: int, neg: bool, min: int, max: int)
    requires
        0 <= k <= d1.len(),
        k <= d2.len(),
        forall|i: int| 0 <= i < k ==> d1[i] == d2[i],
    ensures
        scan_digits(d1, k, neg, min, max) == scan_digits(d2, k, neg, min, max),
    decreases k,
{
    if k > 0 {
        lemma_scan_same_prefix(d1, d2, k - 1, neg, min, max);
    }
}

/// Scanning the digits of `n` gives `n` back.
proof fn lemma_scan_dec(n: nat, max: int)
    requires
        n <= max,
    ensures
        scan_digits(dec(n), dec(n).len() as int, false, 0, max) == Ok::<int, IntParseError>(n as int),
    decreases n,
{
    let d = dec(n);
    if n < 10 {
        lemma_digit_char(n as int);
        assert(scan_digits(d, 0, false, 0, max) == Ok::<int, IntParseError>(0));
    } else {
        let m = n / 10;
        lemma_scan_dec(m, max);
        lemma_digit_char((n % 10) as int);
        let l = dec(m).len() as int;
        assert forall|i: int| 0 <= i < l implies d[i] == dec(m)[i] by {}
        lemma_scan_same_prefix(d, dec(m), l, false, 0, max);
        assert(d[l] == digit_char((n % 10) as int));
        assert(m * 10 + (n % 10) == n);
    }
}

/// Parsing the decimal text of a number gives the number.
pub proof fn lemma_parse_dec(n: nat)
    requires
        n <= u64::MAX,
    ensures
        parse_int(dec(n), false, 0, u64::MAX as int) == Ok::<int, IntParseError>(n as int),
{
    lemma_dec_digits(n);
    lemma_scan_dec(n, u64::MAX as int);
    assert(is_digit(dec(n)[0]));
}

} // verus!
