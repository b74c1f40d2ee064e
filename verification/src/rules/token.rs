//! Identifiers of the rule language.
use vstd::prelude::*;
use crate::rules::ast::Span;
use crate::rules::error::{ParseError, ParseErrorKind};
use crate::text::{concat, str_eq};

verus! {

/// The words of the rule language, which no identifier may be.
pub open spec fn reserved_keywords() -> Seq<Seq<char>> {
    seq![
        "on"@, "topic"@, "decode"@, "payload"@, "as"@, "json"@, "into"@, "guard"@,
        "emit"@, "to"@, "true"@, "false"@, "null"@, "properties"@, "metadata"@,
        "raw_payload"@,
    ]
}

/// Whether `s` is a reserved keyword.
pub open spec fn is_reserved(s: Seq<char>) -> bool {
    reserved_keywords().contains(s)
}

fn keyword_at(i: usize) -> (k: &'static str)
    requires
        i < 16,
    ensures
        k@ == reserved_keywords()[i as int],
{
    proof {
        reveal_strlit("on");
        reveal_strlit("topic");
        reveal_strlit("decode");
        reveal_strlit("payload");
        reveal_strlit("as");
        reveal_strlit("json");
        reveal_strlit("into");
        reveal_strlit("guard");
        reveal_strlit("emit");
        reveal_strlit("to");
        reveal_strlit("true");
        reveal_strlit("false");
        reveal_strlit("null");
        reveal_strlit("properties");
        reveal_strlit("metadata");
        reveal_strlit("raw_payload");
    }
    let words: [&'static str; 16] = [
        "on", "topic", "decode", "payload", "as", "json", "into", "guard", "emit", "to", "true",
        "false", "null", "properties", "metadata", "raw_payload",
    ];
    let k = words[i];
    assert(k@ == reserved_keywords()[i as int]);
    k
}

/// Whether `raw` is a reserved keyword.
pub fn is_reserved_keyword(raw: &str) -> (r: bool)
    ensures
        r == is_reserved(raw@),
{
    let mut i: usize = 0;
    while i < 16
        invariant
            i <= 16,
            reserved_keywords().len() == 16,
            forall|j: int| 0 <= j < i ==> reserved_keywords()[j] != raw@,
        decreases 16 - i,
    {
        if str_eq(keyword_at(i), raw) {
            assert(reserved_keywords()[i as int] == raw@);
            return true;
        }
        i = i + 1;
    }
    assert(!reserved_keywords().contains(raw@));
    false
}

/// The message of an identifier that is a reserved keyword.
pub open spec fn reserved_message(raw: Seq<char>) -> Seq<char> {
    "reserved keyword cannot be used as identifier: "@ + raw
}

/// `raw` as an identifier, unless it is a reserved keyword.
pub fn validate_ident(raw: &str) -> (r: Result<String, String>)
    ensures
        match r {
            Ok(s) => !is_reserved(raw@) && s@ == raw@,
            Err(m) => is_reserved(raw@) && m@ == reserved_message(raw@),
        },
{
    if is_reserved_keyword(raw) {
        return Err(concat("reserved keyword cannot be used as identifier: ", raw));
    }
    Ok(raw.to_string())
}

/// The error for a reserved keyword written where an identifier belongs.
pub fn reject_reserved_keyword(raw: &str, span: Span) -> (r: Result<String, ParseError>)
    ensures
        r matches Err(e) && e.kind == ParseErrorKind::ReservedKeyword && e.span == Some(span)
            && e.message@ == reserved_message(raw@),
{
    Err(
        ParseError::new(
            ParseErrorKind::ReservedKeyword,
            Some(span),
            concat("reserved keyword cannot be used as identifier: ", raw),
        ),
    )
}

} // verus!
