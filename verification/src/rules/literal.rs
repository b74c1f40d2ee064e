//! Literals of the rule language: JSON-style string escapes and integers.
use vstd::prelude::*;
use crate::number::{parse_int, parse_int_str, IntParseError};
use crate::rules::ast::Span;
use crate::rules::error::{ParseError, ParseErrorKind};
use crate::text::{concat, str_chars, string_from_chars};

verus! {

/// Whether `x` is a Unicode scalar value.
pub open spec fn is_scalar(x: int) -> bool {
    0 <= x <= 0x10FFFF && !(0xD800 <= x <= 0xDFFF)
}

/// `char::from_u32`: the character of a scalar value, `None` for a surrogate
/// or a value above `0x10FFFF`.
#[verifier::external_body]
fn char_from_u32(x: u32) -> (r: Option<char>)
    ensures
        r is Some <==> is_scalar(x as int),
        r matches Some(c) ==> c == x as char,
{
    char::from_u32(x)
}

/// `char::to_digit(16)`.
pub open spec fn hex_value(c: char) -> Option<int> {
    if '0' <= c && c <= '9' {
        Some(c as int - '0' as int)
    } else if 'a' <= c && c <= 'f' {
        Some(c as int - 'a' as int + 10)
    } else if 'A' <= c && c <= 'F' {
        Some(c as int - 'A' as int + 10)
    } else {
        None
    }
}

fn hex_digit(c: char) -> (r: Option<u32>)
    ensures
        match r {
            Some(v) => hex_value(c) == Some(v as int),
            None => hex_value(c) is None,
        },
{
    if '0' <= c && c <= '9' {
        Some(c as u32 - '0' as u32)
    } else if 'a' <= c && c <= 'f' {
        Some(c as u32 - 'a' as u32 + 10)
    } else if 'A' <= c && c <= 'F' {
        Some(c as u32 - 'A' as u32 + 10)
    } else {
        None
    }
}

/// The character of a hexadecimal digit, lower case.
pub open spec fn hex_char(d: int) -> char {
    if d < 10 {
        (d + '0' as int) as char
    } else {
        (d - 10 + 'a' as int) as char
    }
}

/// Lower-case hexadecimal digits of `n`, as `{:x}` writes them.
pub open spec fn hex(n: nat) -> Seq<char>
    decreases n,
{
    if n < 16 {
        seq![hex_char(n as int)]
    } else {
        hex(n / 16).push(hex_char((n % 16) as int))
    }
}

fn hex_digit_char(d: u32) -> (c: char)
    requires
        d < 16,
    ensures
        c == hex_char(d as int),
{
    let chars: [char; 16] = ['0', '1', '2', '3', '4', '5', '6', '7', '8', '9', 'a', 'b', 'c', 'd', 'e', 'f'];
    let c = chars[d as usize];
    assert(c == hex_char(d as int)) by {
        assert(chars@[d as int] == c);
        if d < 10 {
            assert(chars@[d as int] == (d + '0' as int) as char);
        } else {
            assert(chars@[d as int] == (d - 10 + 'a' as int) as char);
        }
    }
    c
}

fn hex_chars(n: u32) -> (v: Vec<char>)
    ensures
        v@ == hex(n as nat),
    decreases n,
{
    if n < 16 {
        let mut v = Vec::new();
        v.push(hex_digit_char(n));
        assert(v@ =~= hex(n as nat));
        v
    } else {
        let mut v = hex_chars(n / 16);
        v.push(hex_digit_char(n % 16));
        v
    }
}

/// `format!("{n:x}")`.
pub fn u32_to_hex(n: u32) -> (s: String)
    ensures
        s@ == hex(n as nat),
{
    let v = hex_chars(n);
    string_from_chars(v.as_slice())
}

/// Value of the four hexadecimal digits at `p..p + 4`, read in order; the
/// first missing or invalid one is the error.
pub open spec fn read_hex4(s: Seq<char>, p: int) -> Result<int, Seq<char>> {
    read_hex_from(s, p, 0, 0)
}

pub open spec fn read_hex_from(s: Seq<char>, p: int, k: int, acc: int) -> Result<int, Seq<char>>
    decreases 4 - k,
{
    if k >= 4 {
        Ok(acc)
    } else if p + k < 0 || p + k >= s.len() {
        Err("incomplete unicode escape"@)
    } else {
        match hex_value(s[p + k]) {
            None => Err("invalid unicode escape digit: "@ + seq![s[p + k]]),
            Some(v) => read_hex_from(s, p, k + 1, acc * 16 + v),
        }
    }
}

/// Four hexadecimal digits that were read all lie inside `s`.
pub proof fn lemma_read_hex_in_bounds(s: Seq<char>, p: int, k: int, acc: int)
    requires
        0 <= k <= 3,
        read_hex_from(s, p, k, acc) is Ok,
    ensures
        0 <= p + 3 < s.len(),
    decreases 4 - k,
{
    if p + k >= 0 && p + k < s.len() {
        if let Some(v) = hex_value(s[p + k]) {
            if k < 3 {
                lemma_read_hex_in_bounds(s, p, k + 1, acc * 16 + v);
            }
        }
    }
}

/// Unescaping of the body of a string literal from position `i` on, with
/// `out` unescaped so far.
pub open spec fn unescape_from(s: Seq<char>, i: int, out: Seq<char>) -> Result<Seq<char>, Seq<char>>
    decreases s.len() - i,
{
    if i < 0 || i >= s.len() {
        Ok(out)
    } else if s[i] != '\\' {
        unescape_from(s, i + 1, out.push(s[i]))
    } else if i + 1 >= s.len() {
        Err("unterminated string escape"@)
    } else {
        let e = s[i + 1];
        if e == '"' {
            unescape_from(s, i + 2, out.push('"'))
        } else if e == '\\' {
            unescape_from(s, i + 2, out.push('\\'))
        } else if e == '/' {
            unescape_from(s, i + 2, out.push('/'))
        } else if e == 'b' {
            unescape_from(s, i + 2, out.push('\u{8}'))
        } else if e == 'f' {
            unescape_from(s, i + 2, out.push('\u{c}'))
        } else if e == 'n' {
            unescape_from(s, i + 2, out.push('\n'))
        } else if e == 'r' {
            unescape_from(s, i + 2, out.push('\r'))
        } else if e == 't' {
            unescape_from(s, i + 2, out.push('\t'))
        } else if e == 'u' {
            match read_hex4(s, i + 2) {
                Err(x) => Err(x),
                Ok(code) => if 0xD800 <= code <= 0xDBFF {
                    let q = i + 6;
                    if q >= s.len() || s[q] != '\\' {
                        Err("high surrogate must be followed by a low surrogate"@)
                    } else if q + 1 >= s.len() || s[q + 1] != 'u' {
                        Err("high surrogate must be followed by a unicode escape"@)
                    } else {
                        match read_hex4(s, q + 2) {
                            Err(x) => Err(x),
                            Ok(low) => if !(0xDC00 <= low <= 0xDFFF) {
                                Err("invalid low surrogate: "@ + hex(low as nat))
                            } else {
                                let scalar = 0x10000 + (code - 0xD800) * 1024 + (low - 0xDC00);
                                proof {
                                    lemma_read_hex_in_bounds(s, q + 2, 0, 0);
                                }
                                unescape_from(s, q + 6, out.push(scalar as char))
                            },
                        }
                    }
                } else if 0xDC00 <= code <= 0xDFFF {
                    Err("low surrogate without high surrogate: "@ + hex(code as nat))
                } else {
                    proof {
                        lemma_read_hex_in_bounds(s, i + 2, 0, 0);
                    }
                    unescape_from(s, i + 6, out.push(code as char))
                },
            }
        } else {
            Err("unsupported string escape: \\"@ + seq![e])
        }
    }
}

/// Unescaping of a double-quoted JSON-style string literal.
pub open spec fn unescape(raw: Seq<char>) -> Result<Seq<char>, Seq<char>> {
    if raw.len() < 2 || raw[0] != '"' || raw.last() != '"' {
        Err("string literal must be quoted"@)
    } else {
        unescape_from(raw.subrange(1, raw.len() - 1), 0, seq![])
    }
}

fn read_unicode_escape(s: &[char], p: usize) -> (r: Result<u32, String>)
    ensures
        match r {
            Ok(v) => read_hex4(s@, p as int) == Ok::<int, Seq<char>>(v as int) && v < 0x10000,
            Err(e) => read_hex4(s@, p as int) == Err::<int, Seq<char>>(e@),
        },
{
    proof {
        reveal_with_fuel(pow16, 5);
    }
    let mut code: u32 = 0;
    let mut k: usize = 0;
    while k < 4
        invariant
            k <= 4,
            code < pow16(k as nat),
            read_hex4(s@, p as int) == read_hex_from(s@, p as int, k as int, code as int),
        decreases 4 - k,
    {
        if p >= s.len() || k >= s.len() - p {
            return Err("incomplete unicode escape".to_string());
        }
        let ch = s[p + k];
        match hex_digit(ch) {
            None => {
                let one = string_from_chars(&s[p + k..p + k + 1]);
                assert(one@ =~= seq![s@[p + k]]);
                proof {
                    broadcast use vstd::string::group_string_axioms;
                }
                return Err(concat("invalid unicode escape digit: ", one.as_str()));
            },
            Some(v) => {
                assert(pow16(k as nat) <= 4096) by {
                    reveal_with_fuel(pow16, 5);
                }
                assert(code * 16 + v < pow16((k + 1) as nat)) by (nonlinear_arith)
                    requires
                        code < pow16(k as nat),
                        v < 16,
                        pow16((k + 1) as nat) == pow16(k as nat) * 16,
                ;
                assert(code * 16 + v < 65536) by (nonlinear_arith)
                    requires
                        code < 4096,
                        v < 16,
                        code < pow16(k as nat),
                        pow16(k as nat) <= 4096,
                ;
                code = code * 16 + v;
            },
        }
        k = k + 1;
    }
    assert(pow16(4) == 65536) by {
        reveal_with_fuel(pow16, 5);
    }
    Ok(code)
}

pub open spec fn pow16(k: nat) -> nat
    decreases k,
{
    if k == 0 {
        1
    } else {
        pow16((k - 1) as nat) * 16
    }
}

/// Unescapes the body `s[i..]` of a string literal onto `out`.
fn unescape_body(s: &[char], i: usize, out: &mut Vec<char>) -> (r: Result<(), String>)
    ensures
        match r {
            Ok(_) => unescape_from(s@, i as int, old(out)@) == Ok::<Seq<char>, Seq<char>>(final(out)@),
            Err(e) => unescape_from(s@, i as int, old(out)@) == Err::<Seq<char>, Seq<char>>(e@),
        },
    decreases s.len() - i, 1int,
{
    if i >= s.len() {
        return Ok(());
    }
    let c = s[i];
    if c != '\\' {
        out.push(c);
        return unescape_body(s, i + 1, out);
    }
    if i + 1 >= s.len() {
        return Err("unterminated string escape".to_string());
    }
    let e = s[i + 1];
    if e == '"' {
        out.push('"');
    } else if e == '\\' {
        out.push('\\');
    } else if e == '/' {
        out.push('/');
    } else if e == 'b' {
        out.push('\u{8}');
    } else if e == 'f' {
        out.push('\u{c}');
    } else if e == 'n' {
        out.push('\n');
    } else if e == 'r' {
        out.push('\r');
    } else if e == 't' {
        out.push('\t');
    } else if e == 'u' {
        let code = read_unicode_escape(s, i + 2)?;
        return push_unicode_escape(s, i, code, out);
    } else {
        let one = string_from_chars(&s[i + 1..i + 2]);
        assert(one@ =~= seq![e]);
        proof {
            broadcast use vstd::string::group_string_axioms;
        }
        return Err(concat("unsupported string escape: \\", one.as_str()));
    }
    unescape_body(s, i + 2, out)
}

/// Pushes the character of unicode escape `code` at `s[i..]`, reading the
/// low surrogate after a high one, and unescapes the rest.
fn push_unicode_escape(s: &[char], i: usize, code: u32, out: &mut Vec<char>) -> (r: Result<(), String>)
    requires
        i + 1 < s.len(),
        s@[i as int] == '\\',
        s@[i + 1] == 'u',
        read_hex4(s@, i + 2) == Ok::<int, Seq<char>>(code as int),
        code < 0x10000,
    ensures
        match r {
            Ok(_) => unescape_from(s@, i as int, old(out)@) == Ok::<Seq<char>, Seq<char>>(final(out)@),
            Err(e) => unescape_from(s@, i as int, old(out)@) == Err::<Seq<char>, Seq<char>>(e@),
        },
    decreases s.len() - i, 0int,
{
    proof {
        broadcast use vstd::string::group_string_axioms;
        lemma_read_hex_in_bounds(s@, i + 2, 0, 0);
    }
    if 0xD800 <= code && code <= 0xDBFF {
        let q = i + 6;
        if q >= s.len() || s[q] != '\\' {
            return Err("high surrogate must be followed by a low surrogate".to_string());
        }
        if q + 1 >= s.len() || s[q + 1] != 'u' {
            return Err("high surrogate must be followed by a unicode escape".to_string());
        }
        let low = read_unicode_escape(s, q + 2)?;
        proof {
            lemma_read_hex_in_bounds(s@, q + 2, 0, 0);
        }
        if !(0xDC00 <= low && low <= 0xDFFF) {
            let h = u32_to_hex(low);
            return Err(concat("invalid low surrogate: ", h.as_str()));
        }
        let scalar = 0x10000 + (code - 0xD800) * 1024 + (low - 0xDC00);
        match char_from_u32(scalar) {
            Some(ch) => {
                out.push(ch);
            },
            None => {
                let h = u32_to_hex(scalar);
                return Err(concat("invalid unicode escape: ", h.as_str()));
            },
        }
        return unescape_body(s, q + 6, out);
    }
    if 0xDC00 <= code && code <= 0xDFFF {
        let h = u32_to_hex(code);
        return Err(concat("low surrogate without high surrogate: ", h.as_str()));
    }
    match char_from_u32(code) {
        Some(ch) => {
            out.push(ch);
        },
        None => {
            let h = u32_to_hex(code);
            return Err(concat("invalid unicode escape: ", h.as_str()));
        },
    }
    unescape_body(s, i + 6, out)
}

/// The text of a double-quoted JSON-style string literal, escapes resolved.
pub fn unescape_string(raw: &str) -> (r: Result<String, String>)
    ensures
        match r {
            Ok(v) => unescape(raw@) == Ok::<Seq<char>, Seq<char>>(v@),
            Err(e) => unescape(raw@) == Err::<Seq<char>, Seq<char>>(e@),
        },
{
    let c = str_chars(raw);
    if c.len() < 2 || c[0] != '"' || c[c.len() - 1] != '"' {
        return Err("string literal must be quoted".to_string());
    }
    let inner = &c.as_slice()[1..c.len() - 1];
    assert(inner@ =~= raw@.subrange(1, raw@.len() - 1));
    let mut out: Vec<char> = Vec::new();
    unescape_body(inner, 0, &mut out)?;
    Ok(string_from_chars(out.as_slice()))
}

/// The message of a rejected integer literal.
pub open spec fn int_literal_message(what: Seq<char>, raw: Seq<char>, e: IntParseError) -> Seq<char> {
    "invalid "@ + what + " literal "@ + raw + ": "@ + e.spec_message()
}

fn int_literal_error(what: &str, raw: &str, e: IntParseError) -> (r: String)
    ensures
        r@ == int_literal_message(what@, raw@, e),
{
    let a = concat("invalid ", what);
    let b = concat(a.as_str(), " literal ");
    let c = concat(b.as_str(), raw);
    let d = concat(c.as_str(), ": ");
    concat(d.as_str(), e.message())
}

/// An `i64` integer literal.
pub fn parse_int_literal(raw: &str) -> (r: Result<i64, String>)
    ensures
        match r {
            Ok(v) => parse_int(raw@, true, i64::MIN as int, i64::MAX as int) == Ok::<int, IntParseError>(v as int),
            Err(m) => parse_int(raw@, true, i64::MIN as int, i64::MAX as int) matches Err(e)
                && m@ == int_literal_message("integer"@, raw@, e),
        },
{
    match parse_int_str(raw, true, -9223372036854775808, 9223372036854775807) {
        Ok(v) => Ok(v as i64),
        Err(e) => Err(int_literal_error("integer", raw, e)),
    }
}

/// A `usize` index literal.
pub fn parse_index_literal(raw: &str) -> (r: Result<usize, String>)
    ensures
        match r {
            Ok(v) => parse_int(raw@, false, 0, usize::MAX as int) == Ok::<int, IntParseError>(v as int),
            Err(m) => parse_int(raw@, false, 0, usize::MAX as int) matches Err(e)
                && m@ == int_literal_message("index"@, raw@, e),
        },
{
    match parse_int_str(raw, false, 0, usize::MAX as i128) {
        Ok(v) => Ok(v as usize),
        Err(e) => Err(int_literal_error("index", raw, e)),
    }
}

/// A literal that the rule language rejects, at `span`.
fn invalid_literal(span: Span, message: String) -> (e: ParseError)
    ensures
        e.kind == ParseErrorKind::InvalidLiteral,
        e.span == Some(span),
        e.message@ == message@,
{
    ParseError::new(ParseErrorKind::InvalidLiteral, Some(span), message)
}

/// `unescape_string`, with a failure reported as an invalid literal at `span`.
pub fn unescape_string_spanned(raw: &str, span: Span) -> (r: Result<String, ParseError>)
    ensures
        match r {
            Ok(v) => unescape(raw@) == Ok::<Seq<char>, Seq<char>>(v@),
            Err(e) => e.kind == ParseErrorKind::InvalidLiteral && e.span == Some(span)
                && unescape(raw@) == Err::<Seq<char>, Seq<char>>(e.message@),
        },
{
    match unescape_string(raw) {
        Ok(v) => Ok(v),
        Err(m) => Err(invalid_literal(span, m)),
    }
}

/// `parse_int_literal`, with a failure reported as an invalid literal at `span`.
pub fn parse_int_literal_spanned(raw: &str, span: Span) -> (r: Result<i64, ParseError>)
    ensures
        match r {
            Ok(v) => parse_int(raw@, true, i64::MIN as int, i64::MAX as int) == Ok::<int, IntParseError>(v as int),
            Err(m) => parse_int(raw@, true, i64::MIN as int, i64::MAX as int) matches Err(e)
                && m.kind == ParseErrorKind::InvalidLiteral && m.span == Some(span)
                && m.message@ == int_literal_message("integer"@, raw@, e),
        },
{
    match parse_int_literal(raw) {
        Ok(v) => Ok(v),
        Err(m) => Err(invalid_literal(span, m)),
    }
}

/// `parse_index_literal`, with a failure reported as an invalid literal at `span`.
pub fn parse_index_literal_spanned(raw: &str, span: Span) -> (r: Result<usize, ParseError>)
    ensures
        match r {
            Ok(v) => parse_int(raw@, false, 0, usize::MAX as int) == Ok::<int, IntParseError>(v as int),
            Err(m) => parse_int(raw@, false, 0, usize::MAX as int) matches Err(e)
                && m.kind == ParseErrorKind::InvalidLiteral && m.span == Some(span)
                && m.message@ == int_literal_message("index"@, raw@, e),
        },
{
    match parse_index_literal(raw) {
        Ok(v) => Ok(v),
        Err(m) => Err(invalid_literal(span, m)),
    }
}

} // verus!
