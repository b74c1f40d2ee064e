//! The order of pipeline revisions: by name, then by revision number where
//! both versions are `r<n>`, else by version text.
use vstd::prelude::*;
use crate::daemon::keys::{parse_revision, revision_number};
use crate::message::{IdView, ResourceId};
use crate::text::str_chars;
use std::cmp::Ordering;

verus! {

/// Lexicographic order of texts by code point: -1, 0 or 1.
pub open spec fn text_order(a: Seq<char>, b: Seq<char>) -> int
    decreases a.len(),
{
    if a.len() == 0 {
        if b.len() == 0 {
            0
        } else {
            -1
        }
    } else if b.len() == 0 {
        1
    } else if a[0] < b[0] {
        -1
    } else if a[0] > b[0] {
        1
    } else {
        text_order(a.drop_first(), b.drop_first())
    }
}

/// The order of two revisions: -1, 0 or 1.
pub open spec fn id_order(a: IdView, b: IdView) -> int {
    let n = text_order(a.name, b.name);
    if n != 0 {
        n
    } else {
        match (revision_number(a.version), revision_number(b.version)) {
            (Some(x), Some(y)) => if x < y {
                -1
            } else if x > y {
                1
            } else {
                0
            },
            _ => text_order(a.version, b.version),
        }
    }
}

/// Swapping the texts reverses their order.
pub proof fn lemma_text_order_antisymmetric(a: Seq<char>, b: Seq<char>)
    ensures
        text_order(a, b) == -text_order(b, a),
        -1 <= text_order(a, b) <= 1,
        text_order(a, b) == 0 <==> a == b,
    decreases a.len(),
{
    if a.len() > 0 && b.len() > 0 && a[0] == b[0] {
        lemma_text_order_antisymmetric(a.drop_first(), b.drop_first());
        if a.drop_first() == b.drop_first() {
            assert(a =~= seq![a[0]] + a.drop_first());
            assert(b =~= seq![b[0]] + b.drop_first());
        }
    }
    if a.len() == 0 && b.len() == 0 {
        assert(a =~= b);
    }
}

/// Swapping two revisions reverses their order.
pub proof fn lemma_id_order_antisymmetric(a: IdView, b: IdView)
    ensures
        id_order(a, b) == -id_order(b, a),
        -1 <= id_order(a, b) <= 1,
{
    lemma_text_order_antisymmetric(a.name, b.name);
    lemma_text_order_antisymmetric(a.version, b.version);
}

fn compare_text(a: &str, b: &str) -> (r: i8)
    ensures
        r as int == text_order(a@, b@),
{
    let x = str_chars(a);
    let y = str_chars(b);
    let mut i: usize = 0;
    assert(a@.skip(0) =~= a@);
    assert(b@.skip(0) =~= b@);
    while i < x.len() && i < y.len()
        invariant
            x@ == a@,
            y@ == b@,
            i <= x@.len(),
            i <= y@.len(),
            text_order(a@, b@) == text_order(a@.skip(i as int), b@.skip(i as int)),
        decreases x@.len() - i,
    {
        let c = x[i];
        let d = y[i];
        assert(a@.skip(i as int)[0] == c);
        assert(b@.skip(i as int)[0] == d);
        if c < d {
            return -1;
        }
        if c > d {
            return 1;
        }
        assert(a@.skip(i as int).drop_first() =~= a@.skip(i + 1));
        assert(b@.skip(i as int).drop_first() =~= b@.skip(i + 1));
        i = i + 1;
    }
    if i < x.len() {
        1
    } else if i < y.len() {
        -1
    } else {
        0
    }
}

/// The order of two revisions: -1, 0 or 1.
pub fn id_order_of(left: &ResourceId, right: &ResourceId) -> (r: i8)
    ensures
        r as int == id_order(left@, right@),
{
    let n = compare_text(left.name.as_str(), right.name.as_str());
    if n != 0 {
        return n;
    }
    match (parse_revision(left.version.as_str()), parse_revision(right.version.as_str())) {
        (Some(x), Some(y)) => {
            if x < y {
                -1
            } else if x > y {
                1
            } else {
                0
            }
        },
        _ => compare_text(left.version.as_str(), right.version.as_str()),
    }
}

/// The order of two revisions, as `Ord` reports it.
pub fn compare_pipeline_ids(left: &ResourceId, right: &ResourceId) -> (r: Ordering)
    ensures
        (r == Ordering::Less) == (id_order(left@, right@) < 0),
        (r == Ordering::Equal) == (id_order(left@, right@) == 0),
        (r == Ordering::Greater) == (id_order(left@, right@) > 0),
{
    let n = id_order_of(left, right);
    if n < 0 {
        Ordering::Less
    } else if n == 0 {
        Ordering::Equal
    } else {
        Ordering::Greater
    }
}

} // verus!
