use tenon::rules::ast::Span;
use tenon::rules::error::ParseErrorKind;
use tenon::rules::literal::{
    parse_index_literal, parse_int_literal, parse_int_literal_spanned, unescape_string,
    unescape_string_spanned,
};
use tenon::rules::token::{is_reserved_keyword, reject_reserved_keyword, validate_ident};

fn literal_span() -> Span {
    Span::new(0, 1)
}

fn token_span() -> Span {
    Span::new(0, 5)
}

#[test]
fn literal_unescapes_json_style_string() {
    assert_eq!(
        unescape_string_spanned(r#""a\n\"b\"""#, literal_span()).expect("string"),
        "a\n\"b\""
    );
    assert_eq!(unescape_string(r#""a\n\"b\"""#).expect("string"), "a\n\"b\"");
}

#[test]
fn literal_rejects_unknown_escape() {
    let err = unescape_string_spanned(r#""a\q""#, literal_span()).expect_err("invalid escape");
    assert_eq!(err.kind, ParseErrorKind::InvalidLiteral);
    assert!(unescape_string(r#""a\q""#).is_err());
}

#[test]
fn literal_unescapes_surrogate_pair() {
    assert_eq!(
        unescape_string_spanned(r#""\uD83D\uDE00""#, literal_span()).expect("string"),
        "😀"
    );
    assert_eq!(unescape_string(r#""\uD83D\uDE00""#).expect("string"), "😀");
}

#[test]
fn literal_rejects_integer_overflow() {
    let err = parse_int_literal_spanned("999999999999999999999999999999", literal_span())
        .expect_err("integer overflow");
    assert_eq!(err.kind, ParseErrorKind::InvalidLiteral);
    assert!(parse_int_literal("999999999999999999999999999999").is_err());
}

#[test]
fn token_rejects_reserved_keyword() {
    let err = reject_reserved_keyword("topic", token_span()).expect_err("reserved keyword");
    assert_eq!(err.kind, ParseErrorKind::ReservedKeyword);
    assert_eq!(err.span, Some(token_span()));
    assert!(validate_ident("topic").is_err());
}

#[test]
fn accepts_regular_identifier() {
    assert_eq!(validate_ident("p").expect("identifier"), "p");
}

#[test]
fn reserved_keyword_message_names_the_word() {
    assert_eq!(
        validate_ident("emit").unwrap_err(),
        "reserved keyword cannot be used as identifier: emit"
    );
    assert!(is_reserved_keyword("raw_payload"));
    assert!(!is_reserved_keyword("temperature"));
}

#[test]
fn parses_plain_and_signed_integers() {
    assert_eq!(parse_int_literal("42").unwrap(), 42);
    assert_eq!(parse_int_literal("-7").unwrap(), -7);
    assert_eq!(parse_int_literal("9223372036854775807").unwrap(), i64::MAX);
    assert!(parse_int_literal("12a").is_err());
    assert!(parse_int_literal("").is_err());
}

#[test]
fn parses_index_literals() {
    assert_eq!(parse_index_literal("3").unwrap(), 3);
    assert!(parse_index_literal("-1").is_err());
}

#[test]
fn unescapes_every_simple_escape() {
    assert_eq!(
        unescape_string(r#""\\\/\b\f\n\r\t""#).unwrap(),
        "\\/\u{8}\u{c}\n\r\t"
    );
    assert_eq!(unescape_string(r#""\u00e9""#).unwrap(), "é");
    assert!(unescape_string(r#""\uD83D""#).is_err());
    assert!(unescape_string("plain").is_err());
}
