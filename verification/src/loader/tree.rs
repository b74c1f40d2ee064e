//! Queries over Lua syntax trees.
use vstd::prelude::*;
use crate::loader::syntax::SyntaxNode;
use crate::text::str_eq;

verus! {

/// Number of nodes in the subtree of `n`.
pub open spec fn size(n: SyntaxNode) -> nat
    decreases n, 0nat,
{
    1 + sizes(n.children@)
}

/// Number of nodes in the subtrees of `s`.
pub open spec fn sizes(s: Seq<SyntaxNode>) -> nat
    decreases s, s.len(),
{
    if s.len() == 0 {
        0
    } else {
        sizes(s.drop_last()) + size(s.last())
    }
}

pub proof fn lemma_sizes_elem(s: Seq<SyntaxNode>, i: int)
    requires
        0 <= i < s.len(),
    ensures
        size(s[i]) <= sizes(s),
    decreases s.len(),
{
    if i < s.len() - 1 {
        lemma_sizes_elem(s.drop_last(), i);
        assert(s.drop_last()[i] == s[i]);
    }
}

/// A child is smaller than its parent.
pub proof fn lemma_child_smaller(n: SyntaxNode, i: int)
    requires
        0 <= i < n.children@.len(),
    ensures
        size(n.children@[i]) < size(n),
{
    lemma_sizes_elem(n.children@, i);
}

/// The node's grammar kind is `k`.
pub open spec fn kind_is(n: SyntaxNode, k: Seq<char>) -> bool {
    n.kind@ == k
}

pub fn node_kind_is(n: &SyntaxNode, k: &str) -> (r: bool)
    ensures
        r == kind_is(*n, k@),
{
    str_eq(n.kind.as_str(), k)
}

/// The child fills field `f` of its parent.
pub open spec fn has_field(c: SyntaxNode, f: Seq<char>) -> bool {
    match c.field {
        Some(name) => name@ == f,
        None => false,
    }
}

/// Index of the first child at or after `i` that fills field `f`
/// (`Node::child_by_field_name`).
pub open spec fn field_index_from(s: Seq<SyntaxNode>, f: Seq<char>, i: int) -> Option<int>
    decreases s.len() - i,
{
    if i < 0 || i >= s.len() {
        None
    } else if has_field(s[i], f) {
        Some(i)
    } else {
        field_index_from(s, f, i + 1)
    }
}

pub open spec fn field_index(n: SyntaxNode, f: Seq<char>) -> Option<int> {
    field_index_from(n.children@, f, 0)
}

pub proof fn lemma_field_index_from(s: Seq<SyntaxNode>, f: Seq<char>, i: int)
    requires
        0 <= i,
    ensures
        field_index_from(s, f, i) matches Some(j) ==> i <= j < s.len(),
    decreases s.len() - i,
{
    if i < s.len() && !has_field(s[i], f) {
        lemma_field_index_from(s, f, i + 1);
    }
}

fn child_has_field(c: &SyntaxNode, f: &str) -> (r: bool)
    ensures
        r == has_field(*c, f@),
{
    match &c.field {
        Some(name) => str_eq(name.as_str(), f),
        None => false,
    }
}

/// `Node::child_by_field_name`: index of the first child that fills field `f`.
pub fn child_by_field(n: &SyntaxNode, f: &str) -> (r: Option<usize>)
    ensures
        match r {
            Some(j) => field_index(*n, f@) == Some(j as int) && j < n.children@.len(),
            None => field_index(*n, f@) is None,
        },
{
    let mut i: usize = 0;
    while i < n.children.len()
        invariant
            i <= n.children@.len(),
            field_index(*n, f@) == field_index_from(n.children@, f@, i as int),
        decreases n.children.len() - i,
    {
        if child_has_field(&n.children[i], f) {
            return Some(i);
        }
        i = i + 1;
    }
    None
}

/// The first node of kind `k` in a pre-order walk of `n`.
pub open spec fn find_kind(n: SyntaxNode, k: Seq<char>) -> Option<SyntaxNode>
    decreases size(n), 1nat,
{
    if kind_is(n, k) {
        Some(n)
    } else {
        find_kind_from(n, k, 0)
    }
}

/// The first node of kind `k` in a pre-order walk of the children of `n`
/// from the `i`-th on.
pub open spec fn find_kind_from(n: SyntaxNode, k: Seq<char>, i: int) -> Option<SyntaxNode>
    decreases size(n), 0nat, n.children@.len() - i,
{
    if i < 0 || i >= n.children@.len() {
        None
    } else {
        let c = n.children@[i];
        proof {
            lemma_child_smaller(n, i);
        }
        match find_kind(c, k) {
            Some(found) => Some(found),
            None => find_kind_from(n, k, i + 1),
        }
    }
}

pub proof fn lemma_find_kind_size(n: SyntaxNode, k: Seq<char>)
    ensures
        find_kind(n, k) matches Some(d) ==> size(d) <= size(n) && kind_is(d, k),
    decreases size(n), 1nat,
{
    if !kind_is(n, k) {
        lemma_find_kind_from_size(n, k, 0);
    }
}

pub proof fn lemma_find_kind_from_size(n: SyntaxNode, k: Seq<char>, i: int)
    ensures
        find_kind_from(n, k, i) matches Some(d) ==> size(d) < size(n) && kind_is(d, k),
    decreases size(n), 0nat, n.children@.len() - i,
{
    if 0 <= i < n.children@.len() {
        lemma_child_smaller(n, i);
        lemma_find_kind_size(n.children@[i], k);
        lemma_find_kind_from_size(n, k, i + 1);
    }
}

/// Executable `find_kind`.
pub fn find_first_node_kind<'a>(n: &'a SyntaxNode, k: &str) -> (r: Option<&'a SyntaxNode>)
    ensures
        match r {
            Some(d) => find_kind(*n, k@) == Some(*d),
            None => find_kind(*n, k@) is None,
        },
    decreases size(*n), 1nat,
{
    if node_kind_is(n, k) {
        Some(n)
    } else {
        find_first_node_kind_from(n, k, 0)
    }
}

fn find_first_node_kind_from<'a>(n: &'a SyntaxNode, k: &str, i: usize) -> (r: Option<
    &'a SyntaxNode,
>)
    ensures
        match r {
            Some(d) => find_kind_from(*n, k@, i as int) == Some(*d),
            None => find_kind_from(*n, k@, i as int) is None,
        },
    decreases size(*n), 0nat, n.children@.len() - i,
{
    if i >= n.children.len() {
        None
    } else {
        proof {
            lemma_child_smaller(*n, i as int);
        }
        match find_first_node_kind(&n.children[i], k) {
            Some(found) => Some(found),
            None => find_first_node_kind_from(n, k, i + 1),
        }
    }
}

/// Indices of the named children among `s`.
pub open spec fn named_indices(s: Seq<SyntaxNode>) -> Seq<usize>
    decreases s.len(),
{
    if s.len() == 0 {
        seq![]
    } else if s.last().named {
        named_indices(s.drop_last()).push((s.len() - 1) as usize)
    } else {
        named_indices(s.drop_last())
    }
}

pub proof fn lemma_named_indices(s: Seq<SyntaxNode>)
    requires
        s.len() <= usize::MAX,
    ensures
        forall|k: int| 0 <= k < named_indices(s).len() ==> #[trigger] named_indices(s)[k] < s.len(),
        named_indices(s).len() <= s.len(),
    decreases s.len(),
{
    if s.len() > 0 {
        lemma_named_indices(s.drop_last());
    }
}

/// Indices of the named children of `n`.
pub fn named_children(n: &SyntaxNode) -> (r: Vec<usize>)
    ensures
        r@ == named_indices(n.children@),
        forall|k: int| 0 <= k < r@.len() ==> #[trigger] r@[k] < n.children@.len(),
{
    let mut r: Vec<usize> = Vec::new();
    let mut i: usize = 0;
    while i < n.children.len()
        invariant
            i <= n.children@.len(),
            r@ == named_indices(n.children@.take(i as int)),
        decreases n.children.len() - i,
    {
        assert(n.children@.take(i + 1).drop_last() =~= n.children@.take(i as int));
        if n.children[i].named {
            r.push(i);
        }
        i = i + 1;
    }
    assert(n.children@.take(i as int) =~= n.children@);
    proof {
        lemma_named_indices(n.children@);
    }
    r
}

} // verus!
