//! Lua syntax trees: tree-sitter parses the source, and the tree is copied
//! into `SyntaxNode`s, which the script analysis walks.
//!
//! A node of tree-sitter's tree is addressed by its pre-order index among the
//! descendants of the root (`TreeCursor::goto_descendant`); what tree-sitter
//! reports of the node at an index is named over the source text and the
//! index, so a copied tree is tied to the source it was parsed from.
use vstd::prelude::*;
use tree_sitter::Tree;
use crate::loader::tree::{size, sizes};

verus! {

#[verifier::external_type_specification]
#[verifier::external_body]
pub struct ExTree(Tree);

/// A node of a Lua syntax tree: its grammar kind, whether the grammar names
/// it, the field it fills in its parent, its source text and its children.
#[derive(Debug)]
pub struct SyntaxNode {
    pub kind: String,
    pub named: bool,
    pub field: Option<String>,
    pub text: String,
    pub has_error: bool,
    pub children: Vec<SyntaxNode>,
}

/// A tree that tree-sitter parsed, with the source it was parsed from. Only
/// `ts_parse_lua` makes one, so the tree is always the parse of the source.
pub struct LuaTree {
    tree: Tree,
    source: String,
}

impl View for LuaTree {
    type V = Seq<char>;

    /// The source the tree was parsed from.
    closed spec fn view(&self) -> Seq<char> {
        self.source@
    }
}

/// Whether tree-sitter parses `source` with its Lua grammar, and the message
/// where it does not.
pub uninterp spec fn lua_parse_outcome(source: Seq<char>) -> Result<(), Seq<char>>;

/// The grammar kind of node `i` of the parse of `source`.
pub uninterp spec fn lua_node_kind(source: Seq<char>, i: int) -> Seq<char>;

/// Whether the grammar names node `i` of the parse of `source`.
pub uninterp spec fn lua_node_named(source: Seq<char>, i: int) -> bool;

/// Whether node `i` of the parse of `source` holds a syntax error.
pub uninterp spec fn lua_node_has_error(source: Seq<char>, i: int) -> bool;

/// The number of children of node `i` of the parse of `source`.
pub uninterp spec fn lua_child_count(source: Seq<char>, i: int) -> nat;

/// The field that child `k` of node `i` of the parse of `source` fills.
pub uninterp spec fn lua_child_field(source: Seq<char>, i: int, k: int) -> Option<Seq<char>>;

/// The number of nodes in the subtree of node `i` of the parse of `source`,
/// the node itself included.
pub uninterp spec fn lua_descendant_count(source: Seq<char>, i: int) -> nat;

/// The source text of node `i` of the parse of `source`, empty where its
/// bytes are not UTF-8.
pub uninterp spec fn lua_node_text(source: Seq<char>, i: int) -> Seq<char>;

/// The messages of a source that tree-sitter could not parse: the grammar
/// could not be loaded, or the parser gave no tree.
pub open spec fn lua_parse_failure(m: Seq<char>) -> bool {
    m == "failed to parse Lua source"@ || "failed to load Lua parser: "@.is_prefix_of(m)
}

/// Parses `source` with tree-sitter's Lua grammar (`Parser::new`,
/// `Parser::set_language` and `Parser::parse`). Whether it parses, and the
/// message where it does not, is named; the message is one of two.
#[verifier::external_body]
fn ts_parse_lua(source: &str) -> (r: Result<LuaTree, String>)
    ensures
        match r {
            Ok(t) => t@ == source@ && lua_parse_outcome(source@) is Ok,
            Err(e) => lua_parse_outcome(source@) == Err::<(), Seq<char>>(e@) && lua_parse_failure(e@),
        },
{
    let mut parser = tree_sitter::Parser::new();
    parser
        .set_language(&tree_sitter_lua::LANGUAGE.into())
        .map_err(|error| format!("failed to load Lua parser: {error}"))?;
    let tree = parser.parse(source, None).ok_or_else(|| "failed to parse Lua source".to_string())?;
    Ok(LuaTree { tree, source: source.to_string() })
}

/// `Node::kind` of node `i` (`TreeCursor::goto_descendant`).
#[verifier::external_body]
fn ts_node_kind(t: &LuaTree, i: usize) -> (r: String)
    ensures
        r@ == lua_node_kind(t@, i as int),
{
    let mut cursor = t.tree.walk();
    cursor.goto_descendant(i);
    cursor.node().kind().to_string()
}

/// `Node::is_named` of node `i`.
#[verifier::external_body]
fn ts_node_is_named(t: &LuaTree, i: usize) -> (r: bool)
    ensures
        r == lua_node_named(t@, i as int),
{
    let mut cursor = t.tree.walk();
    cursor.goto_descendant(i);
    cursor.node().is_named()
}

/// `Node::has_error` of node `i`.
#[verifier::external_body]
fn ts_node_has_error(t: &LuaTree, i: usize) -> (r: bool)
    ensures
        r == lua_node_has_error(t@, i as int),
{
    let mut cursor = t.tree.walk();
    cursor.goto_descendant(i);
    cursor.node().has_error()
}

/// `Node::child_count` of node `i`.
#[verifier::external_body]
fn ts_node_child_count(t: &LuaTree, i: usize) -> (r: usize)
    ensures
        r == lua_child_count(t@, i as int),
{
    let mut cursor = t.tree.walk();
    cursor.goto_descendant(i);
    cursor.node().child_count()
}

/// `Node::field_name_for_child` of child `k` of node `i`; none for a `k`
/// beyond `u32`.
#[verifier::external_body]
fn ts_node_child_field(t: &LuaTree, i: usize, k: usize) -> (r: Option<String>)
    ensures
        match r {
            Some(f) => lua_child_field(t@, i as int, k as int) == Some(f@),
            None => lua_child_field(t@, i as int, k as int) is None,
        },
{
    let mut cursor = t.tree.walk();
    cursor.goto_descendant(i);
    match u32::try_from(k) {
        Ok(k) => cursor.node().field_name_for_child(k).map(|name| name.to_string()),
        Err(_) => None,
    }
}

/// `Node::descendant_count` of node `i`: the nodes of its subtree, itself
/// included, so at least one.
#[verifier::external_body]
fn ts_node_descendant_count(t: &LuaTree, i: usize) -> (r: usize)
    ensures
        r == lua_descendant_count(t@, i as int),
        r >= 1,
{
    let mut cursor = t.tree.walk();
    cursor.goto_descendant(i);
    cursor.node().descendant_count()
}

/// `Node::utf8_text` of node `i`, empty where its bytes are not UTF-8.
#[verifier::external_body]
fn ts_node_text(t: &LuaTree, i: usize) -> (r: String)
    ensures
        r@ == lua_node_text(t@, i as int),
{
    let mut cursor = t.tree.walk();
    cursor.goto_descendant(i);
    cursor.node().utf8_text(t.source.as_bytes()).unwrap_or_default().to_string()
}

pub open spec fn field_view(f: Option<String>) -> Option<Seq<char>> {
    match f {
        Some(s) => Some(s@),
        None => None,
    }
}

/// The index of the sibling after the child at `ci` whose subtree has `dc`
/// nodes; `total` where that leaves the tree.
pub open spec fn next_child_index(ci: int, dc: int, total: int) -> int {
    if dc < total - ci {
        ci + dc
    } else {
        total
    }
}

/// `n` is the copy of node `i` of the parse of `source` (of `total` nodes),
/// filling `field`, made with a budget of `budget` nodes: its kind, name,
/// text and error flag are tree-sitter's, and its children are those copied
/// in order while budget is left.
pub open spec fn lua_node_is(source: Seq<char>, n: SyntaxNode, i: int, total: int, field: Option<Seq<char>>, budget: nat) -> bool
    decreases budget, 0nat, 0nat,
{
    &&& n.kind@ == lua_node_kind(source, i)
    &&& n.named == lua_node_named(source, i)
    &&& n.text@ == lua_node_text(source, i)
    &&& n.has_error == lua_node_has_error(source, i)
    &&& field_view(n.field) == field
    &&& if budget == 0 {
        n.children@.len() == 0
    } else {
        lua_children_are(source, n.children@, i, total, 0, i + 1, (budget - 1) as nat)
    }
}

/// `cs` are the copies of the children of node `parent` from child `k` on,
/// the first at index `ci`, made with `remaining` nodes of budget.
pub open spec fn lua_children_are(source: Seq<char>, cs: Seq<SyntaxNode>, parent: int, total: int, k: int, ci: int, remaining: nat) -> bool
    decreases remaining, 1nat, cs.len(),
{
    if k >= lua_child_count(source, parent) || remaining == 0 || ci >= total {
        cs.len() == 0
    } else if cs.len() == 0 {
        false
    } else if 1 <= size(cs[0]) <= remaining {
        &&& lua_node_is(source, cs[0], ci, total, lua_child_field(source, parent, k), remaining)
        &&& lua_children_are(
            source,
            cs.drop_first(),
            parent,
            total,
            k + 1,
            next_child_index(ci, lua_descendant_count(source, ci) as int, total),
            (remaining - size(cs[0])) as nat,
        )
    } else {
        false
    }
}

/// `root` is the syntax tree of `source`: the copy of the root of its parse
/// with a budget of all its nodes.
pub open spec fn lua_tree_of(source: Seq<char>, root: SyntaxNode) -> bool {
    let total = lua_descendant_count(source, 0) as int;
    root.field is None && lua_node_is(source, root, 0, total, None, total as nat)
}

/// Copies node `i` of `t` (of `total` nodes) into a `SyntaxNode` that fills
/// `field` of its parent, using at most `budget` nodes (the node itself is
/// copied in any case); returns the copy and the budget left.
fn copy_node(t: &LuaTree, i: usize, total: usize, field: Option<String>, budget: usize) -> (r: (SyntaxNode, usize))
    requires
        i < total,
    ensures
        r.0.field == field,
        lua_node_is(t@, r.0, i as int, total as int, field_view(field), budget as nat),
        budget == 0 ==> r.1 == 0 && r.0.children@.len() == 0,
        budget > 0 ==> size(r.0) + r.1 == budget,
    decreases budget,
{
    let kind = ts_node_kind(t, i);
    let named = ts_node_is_named(t, i);
    let text = ts_node_text(t, i);
    let has_error = ts_node_has_error(t, i);
    let count = ts_node_child_count(t, i);
    let mut children: Vec<SyntaxNode> = Vec::new();
    let mut remaining: usize = if budget > 0 {
        budget - 1
    } else {
        0
    };
    let mut k: usize = 0;
    let mut ci: usize = i + 1;
    let ghost s = t@;
    while k < count && remaining > 0 && ci < total
        invariant
            s == t@,
            count == lua_child_count(s, i as int),
            budget == 0 ==> remaining == 0 && children@.len() == 0,
            budget > 0 ==> remaining + sizes(children@) == budget - 1,
            budget > 0 ==> forall|rest: Seq<SyntaxNode>|
                #[trigger] lua_children_are(s, rest, i as int, total as int, k as int, ci as int, remaining as nat)
                ==> lua_children_are(s, children@ + rest, i as int, total as int, 0, i + 1, (budget - 1) as nat),
        decreases count - k,
    {
        let f = ts_node_child_field(t, i, k);
        let ghost fv = field_view(f);
        let (copy, left) = copy_node(t, ci, total, f, remaining);
        let dc = ts_node_descendant_count(t, ci);
        let next: usize = if dc < total - ci {
            ci + dc
        } else {
            total
        };
        let ghost before = children@;
        let ghost (k0, ci0, rem0) = (k, ci, remaining);
        children.push(copy);
        proof {
            assert(children@.drop_last() =~= before);
            assert forall|rest: Seq<SyntaxNode>|
                #[trigger] lua_children_are(s, rest, i as int, total as int, k0 + 1, next as int, left as nat)
                implies lua_children_are(s, children@ + rest, i as int, total as int, 0, i + 1, (budget - 1) as nat) by {
                let rest2 = seq![children@.last()] + rest;
                assert(rest2.drop_first() =~= rest);
                assert(rest2[0] == children@.last());
                assert(lua_children_are(s, rest2, i as int, total as int, k0 as int, ci0 as int, rem0 as nat));
                assert(before + rest2 =~= children@ + rest);
            }
        }
        remaining = left;
        ci = next;
        k = k + 1;
    }
    proof {
        if budget > 0 {
            assert(lua_children_are(s, Seq::<SyntaxNode>::empty(), i as int, total as int, k as int, ci as int, remaining as nat));
            assert(children@ + Seq::<SyntaxNode>::empty() =~= children@);
        }
    }
    (SyntaxNode { kind, named, field, text, has_error, children }, remaining)
}

/// Parses Lua `source` into its syntax tree; where tree-sitter cannot parse
/// it, its message.
pub fn parse_lua(source: &str) -> (r: Result<SyntaxNode, String>)
    ensures
        match lua_parse_outcome(source@) {
            Ok(_) => r matches Ok(root) && lua_tree_of(source@, root),
            Err(m) => r matches Err(e) && e@ == m,
        },
        r matches Err(e) ==> lua_parse_failure(e@),
{
    let tree = ts_parse_lua(source)?;
    let total = ts_node_descendant_count(&tree, 0);
    let (copy, _) = copy_node(&tree, 0, total, None, total);
    Ok(copy)
}

} // verus!
