//! `{{NAME}}` placeholders in a manifest, replaced by the values of
//! environment variables.
use vstd::prelude::*;
use crate::loader::error::{LoaderError, LoaderErrorKind};
use crate::text::{find_from, first_occurrence_from, occurs_at, str_chars, string_from_chars};

verus! {

/// The parts of a manifest: the text before each placeholder, the names of
/// the placeholders, and what follows the last one, or the first malformed
/// placeholder's message.
pub struct Template {
    pub lits: Seq<Seq<char>>,
    pub names: Seq<Seq<char>>,
    pub end: Result<Seq<char>, Seq<char>>,
}

pub open spec fn unterminated_message() -> Seq<char> {
    "unterminated environment placeholder; expected `}}`"@
}

pub open spec fn empty_name_message() -> Seq<char> {
    "environment placeholder must contain a variable name"@
}

/// The parts of `m` from position `cursor` on.
pub open spec fn template_from(m: Seq<char>, cursor: int) -> Template
    decreases m.len() - cursor,
{
    if cursor < 0 || cursor > m.len() {
        Template { lits: seq![], names: seq![], end: Ok(seq![]) }
    } else {
        match first_occurrence_from(m, "{{"@, cursor) {
            None => Template { lits: seq![], names: seq![], end: Ok(m.subrange(cursor, m.len() as int)) },
            Some(start) => match first_occurrence_from(m, "}}"@, start + 2) {
                None => Template { lits: seq![], names: seq![], end: Err(unterminated_message()) },
                Some(end) => if end <= start + 2 || start < cursor || end + 2 > m.len() {
                    Template { lits: seq![], names: seq![], end: Err(empty_name_message()) }
                } else {
                    let rest = template_from(m, end + 2);
                    Template {
                        lits: seq![m.subrange(cursor, start)] + rest.lits,
                        names: seq![m.subrange(start + 2, end)] + rest.names,
                        end: rest.end,
                    }
                },
            },
        }
    }
}

/// The parts of manifest `m`.
pub open spec fn template(m: Seq<char>) -> Template {
    template_from(m, 0)
}

/// Each text before a placeholder followed by the placeholder's value.
pub open spec fn pieces(lits: Seq<Seq<char>>, vals: Seq<Seq<char>>) -> Seq<char>
    decreases lits.len(),
{
    if lits.len() == 0 || vals.len() == 0 {
        seq![]
    } else {
        pieces(lits.drop_last(), vals.drop_last()) + lits.last() + vals.last()
    }
}

/// `resolve` can give value `val` for variable `name`.
pub open spec fn resolves_to<F: Fn(String) -> Result<String, String>>(resolve: F, name: Seq<char>, val: Seq<char>) -> bool {
    exists|s: String, v: String| s@ == name && v@ == val && call_ensures(resolve, (s,), Ok::<String, String>(v))
}

/// `resolve` can refuse variable `name` with message `msg`.
pub open spec fn fails_to<F: Fn(String) -> Result<String, String>>(resolve: F, name: Seq<char>, msg: Seq<char>) -> bool {
    exists|s: String, e: String| s@ == name && e@ == msg && call_ensures(resolve, (s,), Err::<String, String>(e))
}

fn env_error(message: String) -> (e: LoaderError)
    ensures
        e.kind == LoaderErrorKind::EnvironmentVariable,
        e.message@ == message@,
{
    LoaderError::new(LoaderErrorKind::EnvironmentVariable, message)
}

fn push_chars(out: &mut Vec<char>, s: &[char], from: usize, to: usize)
    requires
        from <= to <= s@.len(),
    ensures
        final(out)@ == old(out)@ + s@.subrange(from as int, to as int),
{
    let mut i = from;
    while i < to
        invariant
            from <= i <= to,
            to <= s@.len(),
            out@ == old(out)@ + s@.subrange(from as int, i as int),
        decreases to - i,
    {
        out.push(s[i]);
        i = i + 1;
        assert(out@ =~= old(out)@ + s@.subrange(from as int, i as int));
    }
}

/// `r` is what expanding the placeholders of `manifest` with `resolve`
/// gives: on success the literal pieces with the resolved values between
/// them; on failure the template's own error or a variable's failure.
pub open spec fn expansion_result<F: Fn(String) -> Result<String, String>>(manifest: Seq<char>, resolve: F, r: Result<String, LoaderError>) -> bool {
    match r {
        Ok(out) => template(manifest).end matches Ok(tail) && exists|vals: Seq<Seq<char>>| {
            &&& vals.len() == template(manifest).names.len()
            &&& out@ == pieces(template(manifest).lits, vals) + tail
            &&& forall|i: int| 0 <= i < vals.len() ==> #[trigger] resolves_to(resolve, template(manifest).names[i], vals[i])
        },
        Err(e) => e.kind == LoaderErrorKind::EnvironmentVariable && (template(manifest).end == Err::<Seq<char>, Seq<char>>(e.message@)
            || exists|i: int| 0 <= i < template(manifest).names.len() && #[trigger] fails_to(resolve, template(manifest).names[i], e.message@)),
    }
}

/// Replaces each `{{NAME}}` of `manifest` by what `resolve` gives for `NAME`.
/// A placeholder without `}}` or without a name, or a variable that `resolve`
/// refuses, fails the whole expansion.
#[verifier::rlimit(40)]
pub fn expand_environment_variables_with<F: Fn(String) -> Result<String, String>>(manifest: &str, resolve: F) -> (r: Result<String, LoaderError>)
    requires
        forall|s: String| call_requires(resolve, (s,)),
    ensures
        expansion_result(manifest@, resolve, r),
{
    let m = str_chars(manifest);
    let open = str_chars("{{");
    let close = str_chars("}}");
    proof {
        reveal_strlit("{{");
        reveal_strlit("}}");
        assert(template(m@).lits =~= seq![] + template_from(m@, 0).lits);
        assert(template(m@).names =~= seq![] + template_from(m@, 0).names);
    }
    let mut out: Vec<char> = Vec::new();
    let mut cursor: usize = 0;
    let ghost mut lits: Seq<Seq<char>> = seq![];
    let ghost mut names: Seq<Seq<char>> = seq![];
    let ghost mut vals: Seq<Seq<char>> = seq![];
    loop
        invariant
            forall|s: String| call_requires(resolve, (s,)),
            m@ == manifest@,
            open@ == "{{"@,
            close@ == "}}"@,
            "{{"@.len() == 2,
            "}}"@.len() == 2,
            cursor <= m@.len(),
            lits.len() == names.len(),
            names.len() == vals.len(),
            template(m@).lits == lits + template_from(m@, cursor as int).lits,
            template(m@).names == names + template_from(m@, cursor as int).names,
            template(m@).end == template_from(m@, cursor as int).end,
            out@ == pieces(lits, vals),
            forall|i: int| 0 <= i < vals.len() ==> #[trigger] resolves_to(resolve, names[i], vals[i]),
        decreases m@.len() - cursor,
    {
        let found = find_from(&m, &open, cursor);
        let start = match found {
            Some(s) => s,
            None => {
                let ghost before = out@;
                push_chars(&mut out, &m, cursor, m.len());
                proof {
                    assert(forall|j: int| cursor <= j ==> !occurs_at(m@, "{{"@, j));
                    assert(!(exists|j: int| cursor <= j && occurs_at(m@, "{{"@, j)));
                    reveal(first_occurrence_from);
                    assert(first_occurrence_from(m@, "{{"@, cursor as int) is None);
                    assert(template(m@).lits =~= lits);
                    assert(template(m@).names =~= names);
                    assert(template(m@).end == Ok::<Seq<char>, Seq<char>>(m@.subrange(cursor as int, m@.len() as int)));
                }
                return Ok(string_from_chars(&out));
            },
        };
        proof {
            assert(occurs_at(m@, "{{"@, start as int));
            assert(start + 2 <= m@.len());
            assert(m@.len() == m.len());
            lemma_first_occurrence_is(m@, "{{"@, cursor as int, start as int);
        }
        let ghost lit = m@.subrange(cursor as int, start as int);
        let ghost out0 = out@;
        push_chars(&mut out, &m, cursor, start);
        let end = match find_from(&m, &close, start + 2) {
            Some(e) => e,
            None => {
                proof {
                    assert(forall|j: int| start + 2 <= j ==> !occurs_at(m@, "}}"@, j));
                    assert(!(exists|j: int| start + 2 <= j && occurs_at(m@, "}}"@, j)));
                    reveal(first_occurrence_from);
                    assert(first_occurrence_from(m@, "}}"@, start + 2) is None);
                }
                return Err(env_error("unterminated environment placeholder; expected `}}`".to_string()));
            },
        };
        proof {
            lemma_first_occurrence_is(m@, "}}"@, start + 2, end as int);
        }
        if end == start + 2 {
            return Err(env_error("environment placeholder must contain a variable name".to_string()));
        }
        let ghost tf_next = template_from(m@, end + 2);
        let ghost name_v = m@.subrange(start + 2, end as int);
        proof {
            assert(template_from(m@, cursor as int).lits == seq![lit] + tf_next.lits);
            assert(template_from(m@, cursor as int).names == seq![name_v] + tf_next.names);
        }
        let mut name_chars: Vec<char> = Vec::new();
        push_chars(&mut name_chars, &m, start + 2, end);
        assert(name_chars@ =~= name_v);
        let name = string_from_chars(&name_chars);
        let ghost nm = name;
        match resolve(name) {
            Err(e) => {
                proof {
                    assert(template(m@).names[names.len() as int] == name_v);
                    assert(fails_to(resolve, template(m@).names[names.len() as int], e@));
                }
                return Err(env_error(e));
            },
            Ok(v) => {
                let vc = str_chars(v.as_str());
                push_chars(&mut out, &vc, 0, vc.len());
                proof {
                    assert(vc@.subrange(0, vc@.len() as int) =~= v@);
                    assert(resolves_to(resolve, name_v, v@));
                    let lits2 = lits.push(lit);
                    let names2 = names.push(name_v);
                    let vals2 = vals.push(v@);
                    assert(lits2.drop_last() =~= lits);
                    assert(vals2.drop_last() =~= vals);
                    assert(out@ =~= pieces(lits2, vals2));
                    assert(template(m@).lits =~= lits2 + tf_next.lits);
                    assert(template(m@).names =~= names2 + tf_next.names);
                    assert forall|i: int| 0 <= i < vals2.len() implies #[trigger] resolves_to(resolve, names2[i], vals2[i]) by {
                        if i < vals.len() {
                            assert(names2[i] == names[i] && vals2[i] == vals[i]);
                        }
                    }
                    lits = lits2;
                    names = names2;
                    vals = vals2;
                }
            },
        }
        cursor = end + 2;
    }
}

/// A position at or after `from` where `needle` occurs, with none before it,
/// is the first occurrence.
proof fn lemma_first_occurrence_is(hay: Seq<char>, needle: Seq<char>, from: int, i: int)
    requires
        from <= i,
        occurs_at(hay, needle, i),
        forall|j: int| from <= j < i ==> !occurs_at(hay, needle, j),
    ensures
        first_occurrence_from(hay, needle, from) == Some(i),
{
    reveal(first_occurrence_from);
    assert(from <= i && occurs_at(hay, needle, i));
    assert(from <= i && occurs_at(hay, needle, i) && (forall|j: int| from <= j < i ==> !occurs_at(hay, needle, j)));
    let c = first_occurrence_from(hay, needle, from)->Some_0;
    assert(from <= c && occurs_at(hay, needle, c) && (forall|j: int| from <= j < c ==> !occurs_at(hay, needle, j)));
    if c < i {
        assert(!occurs_at(hay, needle, c));
    } else if c > i {
        assert(!occurs_at(hay, needle, i));
    }
}

} // verus!
