//! Static checks of Lua extension scripts: the entry function exists with the
//! right arity, the script uses the extension API correctly, and which parts
//! of a message a processing script reads.
use vstd::prelude::*;
use crate::extension::{
    is_context_field, is_memory_method, is_message_field, is_metadata_field, is_source_field,
    is_topic_field, PROCESS_ON_MESSAGE_FN,
};
use crate::loader::access::{path_view, AccessPathSegment, AccessPlanBuilder, BuilderModel, SegModel,
    spec_record_metadata_field, spec_record_payload_path, spec_record_property_key,
    spec_record_raw_payload_index, spec_record_source_field, spec_record_topic_field,
    spec_record_topic_level, empty_builder,
};
use crate::loader::env::{
    copy_access, env_access, env_contains, env_get, env_set, env_value, AccessBinding, AccessModel,
    Binding, BindingModel, EnvModel, StaticType, StaticValue, TypeEnv, ValueModel, typed_binding,
    unknown_binding,
};
use crate::loader::syntax::{lua_parse_outcome, lua_tree_of, parse_lua, SyntaxNode};
use crate::loader::tree::{
    child_by_field, field_index, field_index_from, find_first_node_kind, find_kind, kind_is,
    lemma_child_smaller, lemma_field_index_from, lemma_find_kind_from_size, lemma_find_kind_size,
    lemma_named_indices, named_children, named_indices, node_kind_is, size,
};
use crate::number::{dec, parse_i64, parse_i64_str, usize_to_string};
use crate::plan::MessageAccessPlan;
use crate::text::{
    concat, contains_seq, is_blank, starts_with, str_chars, str_contains, str_eq, str_is_blank,
    str_starts_with, str_trim, string_from_chars, trim, trim_start,
};

verus! {

// ---------------------------------------------------------------------------
// Node classification
// ---------------------------------------------------------------------------

pub open spec fn is_ident(n: SyntaxNode) -> bool {
    kind_is(n, "identifier"@) || kind_is(n, "variable_name"@)
}

fn node_is_ident(n: &SyntaxNode) -> (r: bool)
    ensures
        r == is_ident(*n),
{
    node_kind_is(n, "identifier") || node_kind_is(n, "variable_name")
}

/// Indices of the named children of `s` that are identifiers.
pub open spec fn ident_indices(s: Seq<SyntaxNode>) -> Seq<usize>
    decreases s.len(),
{
    if s.len() == 0 {
        seq![]
    } else if s.last().named && is_ident(s.last()) {
        ident_indices(s.drop_last()).push((s.len() - 1) as usize)
    } else {
        ident_indices(s.drop_last())
    }
}

proof fn lemma_ident_indices(s: Seq<SyntaxNode>)
    requires
        s.len() <= usize::MAX,
    ensures
        forall|k: int| 0 <= k < ident_indices(s).len() ==> #[trigger] ident_indices(s)[k] < s.len(),
        ident_indices(s).len() <= s.len(),
    decreases s.len(),
{
    if s.len() > 0 {
        lemma_ident_indices(s.drop_last());
    }
}

fn ident_children(n: &SyntaxNode) -> (r: Vec<usize>)
    ensures
        r@ == ident_indices(n.children@),
        forall|k: int| 0 <= k < r@.len() ==> #[trigger] r@[k] < n.children@.len(),
{
    let mut r: Vec<usize> = Vec::new();
    let mut i: usize = 0;
    while i < n.children.len()
        invariant
            i <= n.children@.len(),
            r@ == ident_indices(n.children@.take(i as int)),
        decreases n.children.len() - i,
    {
        assert(n.children@.take(i + 1).drop_last() =~= n.children@.take(i as int));
        if n.children[i].named && node_is_ident(&n.children[i]) {
            r.push(i);
        }
        i = i + 1;
    }
    assert(n.children@.take(i as int) =~= n.children@);
    proof {
        lemma_ident_indices(n.children@);
    }
    r
}

// ---------------------------------------------------------------------------
// Locating the entry function
// ---------------------------------------------------------------------------

/// Some node strictly below `n` is named and has exactly the text `name`.
pub open spec fn has_named_descendant(n: SyntaxNode, name: Seq<char>) -> bool
    decreases size(n), 1nat, 0int,
{
    has_named_descendant_from(n, name, 0)
}

pub open spec fn has_named_descendant_from(n: SyntaxNode, name: Seq<char>, i: int) -> bool
    decreases size(n), 0nat, n.children@.len() - i,
{
    if i < 0 || i >= n.children@.len() {
        false
    } else {
        let c = n.children@[i];
        proof {
            lemma_child_smaller(n, i);
        }
        (c.named && c.text@ == name) || has_named_descendant(c, name) || has_named_descendant_from(
            n,
            name,
            i + 1,
        )
    }
}

fn node_text_contains_named_child(n: &SyntaxNode, name: &str) -> (r: bool)
    ensures
        r == has_named_descendant(*n, name@),
    decreases size(*n), 1nat, 0int,
{
    named_child_text_from(n, name, 0)
}

fn named_child_text_from(n: &SyntaxNode, name: &str, i: usize) -> (r: bool)
    ensures
        r == has_named_descendant_from(*n, name@, i as int),
    decreases size(*n), 0nat, n.children@.len() - i,
{
    if i >= n.children.len() {
        false
    } else {
        proof {
            lemma_child_smaller(*n, i as int);
        }
        let c = &n.children[i];
        if c.named && str_eq(c.text.as_str(), name) {
            true
        } else if node_text_contains_named_child(c, name) {
            true
        } else {
            named_child_text_from(n, name, i + 1)
        }
    }
}

/// A global `function name(...)` declaration.
pub open spec fn is_named_function(n: SyntaxNode, name: Seq<char>) -> bool {
    &&& kind_is(n, "function_declaration"@)
    &&& !starts_with(trim_start(n.text@), "local function"@)
    &&& has_named_descendant(n, name)
}

/// An assignment or declaration whose text mentions `name` and `function`.
pub open spec fn is_assigned_function(n: SyntaxNode, name: Seq<char>) -> bool {
    &&& (kind_is(n, "assignment_statement"@) || kind_is(n, "variable_declaration"@))
    &&& contains_seq(n.text@, name)
    &&& contains_seq(n.text@, "function"@)
}

fn str_trim_start(s: &str) -> (r: String)
    ensures
        r@ == trim_start(s@),
{
    let chars = str_chars(s);
    proof {
        crate::text::lemma_leading_ws_bound(s@);
    }
    let mut start: usize = 0;
    while start < chars.len() && crate::text::is_whitespace_char(chars[start])
        invariant
            chars@ == s@,
            start <= crate::text::leading_ws(s@),
            crate::text::leading_ws(s@) <= s@.len(),
            forall|i: int| 0 <= i < crate::text::leading_ws(s@) ==> crate::text::is_ws(#[trigger] s@[i]),
            crate::text::leading_ws(s@) < s@.len() ==> !crate::text::is_ws(s@[crate::text::leading_ws(s@) as int]),
        decreases chars.len() - start,
    {
        start = start + 1;
    }
    let r = string_from_chars(&chars.as_slice()[start..chars.len()]);
    assert(r@ =~= trim_start(s@));
    r
}

fn check_named_function(n: &SyntaxNode, name: &str) -> (r: bool)
    ensures
        r == is_named_function(*n, name@),
{
    if !node_kind_is(n, "function_declaration") {
        return false;
    }
    let head = str_trim_start(n.text.as_str());
    if str_starts_with(head.as_str(), "local function") {
        return false;
    }
    node_text_contains_named_child(n, name)
}

fn check_assigned_function(n: &SyntaxNode, name: &str) -> (r: bool)
    ensures
        r == is_assigned_function(*n, name@),
{
    if !node_kind_is(n, "assignment_statement") && !node_kind_is(n, "variable_declaration") {
        return false;
    }
    str_contains(n.text.as_str(), name) && str_contains(n.text.as_str(), "function")
}

pub open spec fn is_function_node(n: SyntaxNode) -> bool {
    kind_is(n, "function_declaration"@) || kind_is(n, "function_definition"@)
}

/// The first function node in a pre-order walk of `n`.
pub open spec fn function_node(n: SyntaxNode) -> Option<SyntaxNode>
    decreases size(n), 1nat, 0int,
{
    if is_function_node(n) {
        Some(n)
    } else {
        function_node_from(n, 0)
    }
}

pub open spec fn function_node_from(n: SyntaxNode, i: int) -> Option<SyntaxNode>
    decreases size(n), 0nat, n.children@.len() - i,
{
    if i < 0 || i >= n.children@.len() {
        None
    } else {
        proof {
            lemma_child_smaller(n, i);
        }
        match function_node(n.children@[i]) {
            Some(f) => Some(f),
            None => function_node_from(n, i + 1),
        }
    }
}

fn find_function_node<'a>(n: &'a SyntaxNode) -> (r: Option<&'a SyntaxNode>)
    ensures
        match r {
            Some(f) => function_node(*n) == Some(*f),
            None => function_node(*n) is None,
        },
    decreases size(*n), 1nat, 0int,
{
    if node_kind_is(n, "function_declaration") || node_kind_is(n, "function_definition") {
        Some(n)
    } else {
        find_function_node_from(n, 0)
    }
}

fn find_function_node_from<'a>(n: &'a SyntaxNode, i: usize) -> (r: Option<&'a SyntaxNode>)
    ensures
        match r {
            Some(f) => function_node_from(*n, i as int) == Some(*f),
            None => function_node_from(*n, i as int) is None,
        },
    decreases size(*n), 0nat, n.children@.len() - i,
{
    if i >= n.children.len() {
        None
    } else {
        proof {
            lemma_child_smaller(*n, i as int);
        }
        match find_function_node(&n.children[i]) {
            Some(f) => Some(f),
            None => find_function_node_from(n, i + 1),
        }
    }
}

/// The global function `name`: the function node of the first node, in a
/// pre-order walk, that declares or assigns it.
pub open spec fn global_function(n: SyntaxNode, name: Seq<char>) -> Option<SyntaxNode>
    decreases size(n), 1nat, 0int,
{
    if is_named_function(n, name) || is_assigned_function(n, name) {
        function_node(n)
    } else {
        global_function_from(n, name, 0)
    }
}

pub open spec fn global_function_from(n: SyntaxNode, name: Seq<char>, i: int) -> Option<SyntaxNode>
    decreases size(n), 0nat, n.children@.len() - i,
{
    if i < 0 || i >= n.children@.len() {
        None
    } else {
        proof {
            lemma_child_smaller(n, i);
        }
        match global_function(n.children@[i], name) {
            Some(f) => Some(f),
            None => global_function_from(n, name, i + 1),
        }
    }
}

pub fn find_global_function<'a>(n: &'a SyntaxNode, name: &str) -> (r: Option<&'a SyntaxNode>)
    ensures
        match r {
            Some(f) => global_function(*n, name@) == Some(*f),
            None => global_function(*n, name@) is None,
        },
    decreases size(*n), 1nat, 0int,
{
    if check_named_function(n, name) || check_assigned_function(n, name) {
        find_function_node(n)
    } else {
        find_global_function_from(n, name, 0)
    }
}

fn find_global_function_from<'a>(n: &'a SyntaxNode, name: &str, i: usize) -> (r: Option<
    &'a SyntaxNode,
>)
    ensures
        match r {
            Some(f) => global_function_from(*n, name@, i as int) == Some(*f),
            None => global_function_from(*n, name@, i as int) is None,
        },
    decreases size(*n), 0nat, n.children@.len() - i,
{
    if i >= n.children.len() {
        None
    } else {
        proof {
            lemma_child_smaller(*n, i as int);
        }
        match find_global_function(&n.children[i], name) {
            Some(f) => Some(f),
            None => find_global_function_from(n, name, i + 1),
        }
    }
}

// ---------------------------------------------------------------------------
// Parameters
// ---------------------------------------------------------------------------

/// The parameter list of a function: the first `parameters` node, else the
/// first `parameter_list` node.
pub open spec fn parameter_node(f: SyntaxNode) -> Option<SyntaxNode> {
    match find_kind(f, "parameters"@) {
        Some(p) => Some(p),
        None => find_kind(f, "parameter_list"@),
    }
}

/// The names of the named children of a parameter list from the `i`-th on:
/// identifiers by their text, varargs as `...`, anything else by its trimmed
/// text unless that is empty or a comma.
pub open spec fn parameter_names_from(p: SyntaxNode, i: int) -> Seq<Seq<char>>
    decreases p.children@.len() - i,
{
    if i < 0 || i >= p.children@.len() {
        seq![]
    } else {
        let c = p.children@[i];
        let rest = parameter_names_from(p, i + 1);
        if !c.named {
            rest
        } else if is_ident(c) {
            seq![c.text@] + rest
        } else if kind_is(c, "vararg_expression"@) || kind_is(c, "..."@) {
            seq!["..."@] + rest
        } else if trim(c.text@).len() > 0 && trim(c.text@) != ","@ {
            seq![trim(c.text@)] + rest
        } else {
            rest
        }
    }
}

/// Parameter names of a function, if it has a parameter list.
pub open spec fn function_parameters(f: SyntaxNode) -> Option<Seq<Seq<char>>> {
    match parameter_node(f) {
        Some(p) => Some(parameter_names_from(p, 0)),
        None => None,
    }
}

fn parameter_names(p: &SyntaxNode, i: usize) -> (r: Vec<String>)
    ensures
        r@.map_values(|s: String| s@) == parameter_names_from(*p, i as int),
    decreases p.children@.len() - i,
{
    if i >= p.children.len() {
        let r: Vec<String> = Vec::new();
        assert(r@.map_values(|s: String| s@) =~= seq![]);
        return r;
    }
    let c = &p.children[i];
    let mut rest = parameter_names(p, i + 1);
    let ghost rest_view = rest@.map_values(|s: String| s@);
    if !c.named {
        return rest;
    }
    let name: String;
    if node_is_ident(c) {
        name = c.text.clone();
    } else if node_kind_is(c, "vararg_expression") || node_kind_is(c, "...") {
        name = "...".to_string();
    } else {
        let t = str_trim(c.text.as_str());
        if t.as_str().unicode_len() > 0 && !str_eq(t.as_str(), ",") {
            name = t;
        } else {
            return rest;
        }
    }
    let mut r: Vec<String> = Vec::new();
    r.push(name);
    r.append(&mut rest);
    proof {
        broadcast use vstd::string::group_string_axioms;
    }
    assert(r@.map_values(|s: String| s@) =~= seq![name@] + rest_view);
    r
}

fn find_parameter_node<'a>(f: &'a SyntaxNode) -> (r: Option<&'a SyntaxNode>)
    ensures
        match r {
            Some(p) => parameter_node(*f) == Some(*p),
            None => parameter_node(*f) is None,
        },
{
    match find_first_node_kind(f, "parameters") {
        Some(p) => Some(p),
        None => find_first_node_kind(f, "parameter_list"),
    }
}

/// The parameter names of function node `f`.
pub fn function_parameter_names(f: &SyntaxNode) -> (r: Option<Vec<String>>)
    ensures
        match r {
            Some(v) => function_parameters(*f) == Some(v@.map_values(|s: String| s@)),
            None => function_parameters(*f) is None,
        },
{
    match find_parameter_node(f) {
        Some(p) => Some(parameter_names(p, 0)),
        None => None,
    }
}

// ---------------------------------------------------------------------------
// Static values
// ---------------------------------------------------------------------------

/// The content of a quoted string literal.
pub open spec fn string_literal_value(n: SyntaxNode) -> Option<Seq<char>> {
    let t = trim(n.text@);
    if t.len() < 2 {
        None
    } else if (t[0] == '"' && t.last() == '"') || (t[0] == '\'' && t.last() == '\'') {
        Some(t.subrange(1, t.len() - 1))
    } else {
        None
    }
}

fn literal_string_value(n: &SyntaxNode) -> (r: Option<String>)
    ensures
        match r {
            Some(s) => string_literal_value(*n) == Some(s@),
            None => string_literal_value(*n) is None,
        },
{
    let t = str_trim(n.text.as_str());
    let c = str_chars(t.as_str());
    if c.len() < 2 {
        return None;
    }
    let first = c[0];
    let last = c[c.len() - 1];
    if (first == '"' && last == '"') || (first == '\'' && last == '\'') {
        let s = string_from_chars(&c.as_slice()[1..c.len() - 1]);
        assert(s@ =~= t@.subrange(1, t@.len() - 1));
        Some(s)
    } else {
        None
    }
}

/// The statically known value of an expression: a variable's value, a string
/// literal's content or an integer literal's value.
pub open spec fn static_value(n: SyntaxNode, env: EnvModel) -> ValueModel {
    if is_ident(n) {
        env_value(env, n.text@)
    } else if kind_is(n, "string"@) {
        match string_literal_value(n) {
            Some(s) => ValueModel::Str(s),
            None => ValueModel::Unknown,
        }
    } else if kind_is(n, "number"@) {
        match parse_i64(n.text@) {
            Some(v) => ValueModel::Int(v),
            None => ValueModel::Unknown,
        }
    } else {
        ValueModel::Unknown
    }
}

fn infer_static_value(n: &SyntaxNode, env: &TypeEnv) -> (r: StaticValue)
    ensures
        r@ == static_value(*n, env@),
{
    if node_is_ident(n) {
        env.value(n.text.as_str())
    } else if node_kind_is(n, "string") {
        match literal_string_value(n) {
            Some(s) => StaticValue::String(s),
            None => StaticValue::Unknown,
        }
    } else if node_kind_is(n, "number") {
        match parse_i64_str(n.text.as_str()) {
            Some(v) => StaticValue::Int(v),
            None => StaticValue::Unknown,
        }
    } else {
        StaticValue::Unknown
    }
}

// ---------------------------------------------------------------------------
// Typing rules for field, method and bracket access
// ---------------------------------------------------------------------------

/// The name of a static type, as `{:?}` writes it.
pub open spec fn static_type_name(t: StaticType) -> Seq<char> {
    match t {
        StaticType::Unknown => "Unknown"@,
        StaticType::Ctx => "Ctx"@,
        StaticType::Msg => "Msg"@,
        StaticType::Memory => "Memory"@,
        StaticType::Source => "Source"@,
        StaticType::Topic => "Topic"@,
        StaticType::TopicLevels => "TopicLevels"@,
        StaticType::RawPayload => "RawPayload"@,
        StaticType::Metadata => "Metadata"@,
        StaticType::Properties => "Properties"@,
        StaticType::JsonValue => "JsonValue"@,
        StaticType::EmitFn => "EmitFn"@,
    }
}

fn type_name_str(t: StaticType) -> (r: &'static str)
    ensures
        r@ == static_type_name(t),
{
    match t {
        StaticType::Unknown => "Unknown",
        StaticType::Ctx => "Ctx",
        StaticType::Msg => "Msg",
        StaticType::Memory => "Memory",
        StaticType::Source => "Source",
        StaticType::Topic => "Topic",
        StaticType::TopicLevels => "TopicLevels",
        StaticType::RawPayload => "RawPayload",
        StaticType::Metadata => "Metadata",
        StaticType::Properties => "Properties",
        StaticType::JsonValue => "JsonValue",
        StaticType::EmitFn => "EmitFn",
    }
}

pub open spec fn with_access(env: EnvModel, access: BuilderModel) -> EnvModel {
    EnvModel { access, ..env }
}

pub type AccessResult = Result<(StaticType, AccessModel, EnvModel), Seq<char>>;

/// `ctx.f`.
pub open spec fn ctx_dot(f: Seq<char>, env: EnvModel) -> AccessResult {
    if f == "memory"@ {
        Ok((StaticType::Memory, AccessModel::NoAccess, env))
    } else if f == "source"@ {
        Ok((StaticType::Source, AccessModel::Source, env))
    } else if f == "emit"@ {
        Ok((StaticType::EmitFn, AccessModel::NoAccess, env))
    } else {
        Err("invalid ctx field: "@ + f)
    }
}

/// `msg.f`.
pub open spec fn msg_dot(f: Seq<char>, env: EnvModel) -> AccessResult {
    if f == "source"@ {
        Ok((StaticType::Source, AccessModel::Source, env))
    } else if f == "topic"@ {
        Ok((StaticType::Topic, AccessModel::Topic, env))
    } else if f == "payload"@ {
        Ok((StaticType::JsonValue, AccessModel::Payload(seq![]), env))
    } else if f == "raw_payload"@ {
        Ok((StaticType::RawPayload, AccessModel::RawPayload, env))
    } else if f == "metadata"@ {
        Ok((StaticType::Metadata, AccessModel::Metadata, env))
    } else if f == "properties"@ {
        Ok((StaticType::Properties, AccessModel::Properties, env))
    } else {
        Err("invalid msg field: "@ + f)
    }
}

/// `source.f`, `topic.f` and `metadata.f`.
pub open spec fn part_dot(ty: StaticType, f: Seq<char>, env: EnvModel) -> AccessResult {
    match ty {
        StaticType::Source => if is_source_field(f) {
            Ok((StaticType::JsonValue, AccessModel::NoAccess, with_access(env, spec_record_source_field(env.access, f))))
        } else {
            Err("invalid source field: "@ + f)
        },
        StaticType::Topic => if f == "levels"@ {
            Ok((StaticType::TopicLevels, AccessModel::TopicLevels, env))
        } else if is_topic_field(f) {
            Ok((StaticType::JsonValue, AccessModel::NoAccess, with_access(env, spec_record_topic_field(env.access, f))))
        } else {
            Err("invalid topic field: "@ + f)
        },
        _ => if is_metadata_field(f) {
            Ok((StaticType::JsonValue, AccessModel::NoAccess, with_access(env, spec_record_metadata_field(env.access, f))))
        } else {
            Err("invalid metadata field: "@ + f)
        },
    }
}

/// `value.f` on a JSON value.
pub open spec fn json_dot(access: AccessModel, f: Seq<char>, env: EnvModel) -> AccessResult {
    match access {
        AccessModel::Payload(path) => {
            let p = path.push(SegModel::Field(f));
            Ok((StaticType::JsonValue, AccessModel::Payload(p), with_access(env, spec_record_payload_path(env.access, p))))
        },
        _ => Ok((StaticType::JsonValue, AccessModel::NoAccess, env)),
    }
}

/// `memory.f`.
pub open spec fn memory_dot(f: Seq<char>, env: EnvModel) -> AccessResult {
    if is_memory_method(f) {
        Ok((StaticType::Unknown, AccessModel::NoAccess, env))
    } else {
        Err("invalid memory field: "@ + f + "; use memory.get/set/delete"@)
    }
}

/// Result of `table.field` given what is known of `table`: the type and
/// access of the expression and the updated state, or the error.
pub open spec fn dot_rule(table: BindingModel, f: Seq<char>, env: EnvModel) -> AccessResult {
    match table.ty {
        StaticType::Ctx => ctx_dot(f, env),
        StaticType::Msg => msg_dot(f, env),
        StaticType::Source | StaticType::Topic | StaticType::Metadata => part_dot(table.ty, f, env),
        StaticType::Properties => Ok(
            (StaticType::JsonValue, AccessModel::NoAccess, with_access(env, spec_record_property_key(env.access, f))),
        ),
        StaticType::JsonValue => json_dot(table.access, f, env),
        StaticType::Memory => memory_dot(f, env),
        StaticType::RawPayload | StaticType::TopicLevels => Err("invalid dot access on "@ + static_type_name(table.ty)),
        StaticType::Unknown | StaticType::EmitFn => Ok((StaticType::Unknown, AccessModel::NoAccess, env)),
    }
}

fn in_list(f: &str, a: &str, b: &str) -> (r: bool)
    ensures
        r == (f@ == a@ || f@ == b@),
{
    str_eq(f, a) || str_eq(f, b)
}

fn apply_ctx_dot(f: &str, env: &TypeEnv) -> (r: Result<(StaticType, AccessBinding), String>)
    ensures
        match r {
            Ok((t, a)) => ctx_dot(f@, env@) == Ok::<(StaticType, AccessModel, EnvModel), Seq<char>>((t, a@, env@)),
            Err(e) => ctx_dot(f@, env@) == Err::<(StaticType, AccessModel, EnvModel), Seq<char>>(e@),
        },
{
    if str_eq(f, "memory") {
        Ok((StaticType::Memory, AccessBinding::NoAccess))
    } else if str_eq(f, "source") {
        Ok((StaticType::Source, AccessBinding::Source))
    } else if str_eq(f, "emit") {
        Ok((StaticType::EmitFn, AccessBinding::NoAccess))
    } else {
        Err(concat("invalid ctx field: ", f))
    }
}

fn apply_msg_dot(f: &str, env: &TypeEnv) -> (r: Result<(StaticType, AccessBinding), String>)
    ensures
        match r {
            Ok((t, a)) => msg_dot(f@, env@) == Ok::<(StaticType, AccessModel, EnvModel), Seq<char>>((t, a@, env@)),
            Err(e) => msg_dot(f@, env@) == Err::<(StaticType, AccessModel, EnvModel), Seq<char>>(e@),
        },
{
    if str_eq(f, "source") {
        Ok((StaticType::Source, AccessBinding::Source))
    } else if str_eq(f, "topic") {
        Ok((StaticType::Topic, AccessBinding::Topic))
    } else if str_eq(f, "payload") {
        let p: Vec<AccessPathSegment> = Vec::new();
        assert(path_view(p@) =~= seq![]);
        Ok((StaticType::JsonValue, AccessBinding::Payload(p)))
    } else if str_eq(f, "raw_payload") {
        Ok((StaticType::RawPayload, AccessBinding::RawPayload))
    } else if str_eq(f, "metadata") {
        Ok((StaticType::Metadata, AccessBinding::Metadata))
    } else if str_eq(f, "properties") {
        Ok((StaticType::Properties, AccessBinding::Properties))
    } else {
        Err(concat("invalid msg field: ", f))
    }
}

fn apply_part_dot(ty: StaticType, f: &str, env: &mut TypeEnv) -> (r: Result<(StaticType, AccessBinding), String>)
    requires
        ty == StaticType::Source || ty == StaticType::Topic || ty == StaticType::Metadata,
    ensures
        match r {
            Ok((t, a)) => part_dot(ty, f@, old(env)@) == Ok::<(StaticType, AccessModel, EnvModel), Seq<char>>((t, a@, final(env)@)),
            Err(e) => part_dot(ty, f@, old(env)@) == Err::<(StaticType, AccessModel, EnvModel), Seq<char>>(e@),
        },
{
    match ty {
        StaticType::Source => {
            if in_list(f, "name", "version") {
                env.access.record_source_field(f);
                Ok((StaticType::JsonValue, AccessBinding::NoAccess))
            } else {
                Err(concat("invalid source field: ", f))
            }
        },
        StaticType::Topic => {
            if str_eq(f, "levels") {
                Ok((StaticType::TopicLevels, AccessBinding::TopicLevels))
            } else if in_list(f, "raw", "levels") {
                env.access.record_topic_field(f);
                Ok((StaticType::JsonValue, AccessBinding::NoAccess))
            } else {
                Err(concat("invalid topic field: ", f))
            }
        },
        _ => {
            if in_list(f, "pkid", "qos") || in_list(f, "retain", "dup") {
                env.access.record_metadata_field(f);
                Ok((StaticType::JsonValue, AccessBinding::NoAccess))
            } else {
                Err(concat("invalid metadata field: ", f))
            }
        },
    }
}

fn apply_json_dot(access: AccessBinding, f: &str, env: &mut TypeEnv) -> (r: Result<(StaticType, AccessBinding), String>)
    ensures
        match r {
            Ok((t, a)) => json_dot(access@, f@, old(env)@) == Ok::<(StaticType, AccessModel, EnvModel), Seq<char>>((t, a@, final(env)@)),
            Err(e) => json_dot(access@, f@, old(env)@) == Err::<(StaticType, AccessModel, EnvModel), Seq<char>>(e@),
        },
{
    match access {
        AccessBinding::Payload(path) => {
            let mut path = path;
            let ghost before = path_view(path@);
            let field = f.to_string();
            proof {
                broadcast use vstd::string::group_string_axioms;
            }
            path.push(AccessPathSegment::Field(field));
            assert(path_view(path@) =~= before.push(SegModel::Field(f@)));
            env.access.record_payload_path(&path);
            Ok((StaticType::JsonValue, AccessBinding::Payload(path)))
        },
        _ => Ok((StaticType::JsonValue, AccessBinding::NoAccess)),
    }
}

fn apply_memory_dot(f: &str, env: &TypeEnv) -> (r: Result<(StaticType, AccessBinding), String>)
    ensures
        match r {
            Ok((t, a)) => memory_dot(f@, env@) == Ok::<(StaticType, AccessModel, EnvModel), Seq<char>>((t, a@, env@)),
            Err(e) => memory_dot(f@, env@) == Err::<(StaticType, AccessModel, EnvModel), Seq<char>>(e@),
        },
{
    if in_list(f, "get", "set") || str_eq(f, "delete") {
        Ok((StaticType::Unknown, AccessBinding::NoAccess))
    } else {
        let m = concat("invalid memory field: ", f);
        Err(concat(m.as_str(), "; use memory.get/set/delete"))
    }
}

fn apply_dot_rule(table: Binding, f: &str, env: &mut TypeEnv) -> (r: Result<(StaticType, AccessBinding), String>)
    ensures
        match r {
            Ok((t, a)) => dot_rule(table@, f@, old(env)@) == Ok::<(StaticType, AccessModel, EnvModel), Seq<char>>((t, a@, final(env)@)),
            Err(e) => dot_rule(table@, f@, old(env)@) == Err::<(StaticType, AccessModel, EnvModel), Seq<char>>(e@),
        },
{
    match table.ty {
        StaticType::Ctx => apply_ctx_dot(f, env),
        StaticType::Msg => apply_msg_dot(f, env),
        StaticType::Source | StaticType::Topic | StaticType::Metadata => apply_part_dot(table.ty, f, env),
        StaticType::Properties => {
            env.access.record_property_key(f);
            Ok((StaticType::JsonValue, AccessBinding::NoAccess))
        },
        StaticType::JsonValue => apply_json_dot(table.access, f, env),
        StaticType::Memory => apply_memory_dot(f, env),
        StaticType::RawPayload | StaticType::TopicLevels => {
            Err(concat("invalid dot access on ", type_name_str(table.ty)))
        },
        StaticType::Unknown | StaticType::EmitFn => Ok((StaticType::Unknown, AccessBinding::NoAccess)),
    }
}

/// Result of a method call `table:method(...)` given the type of `table`.
pub open spec fn method_rule(ty: StaticType, m: Seq<char>) -> Result<StaticType, Seq<char>> {
    match ty {
        StaticType::Memory => Err("invalid memory method: "@ + m + "; use memory."@ + m),
        StaticType::Unknown => Ok(StaticType::Unknown),
        _ => Err("invalid method call on known Tenon type: "@ + m),
    }
}

fn apply_method_rule(ty: StaticType, m: &str) -> (r: Result<StaticType, String>)
    ensures
        match r {
            Ok(t) => method_rule(ty, m@) == Ok::<StaticType, Seq<char>>(t),
            Err(e) => method_rule(ty, m@) == Err::<StaticType, Seq<char>>(e@),
        },
{
    match ty {
        StaticType::Memory => {
            let a = concat("invalid memory method: ", m);
            let b = concat(a.as_str(), "; use memory.");
            Err(concat(b.as_str(), m))
        },
        StaticType::Unknown => Ok(StaticType::Unknown),
        _ => Err(concat("invalid method call on known Tenon type: ", m)),
    }
}

/// The integer `i` as a `u32`, if it fits.
pub open spec fn as_u32(i: int) -> Option<u32> {
    if 0 <= i <= u32::MAX {
        Some(i as u32)
    } else {
        None
    }
}

/// Builder after a topic level read with key `key`.
pub open spec fn topic_bracket(b: BuilderModel, key: ValueModel) -> BuilderModel {
    match key {
        ValueModel::Int(i) => match as_u32(i) {
            Some(u) => spec_record_topic_level(b, u),
            None => BuilderModel { topic_levels: true, ..b },
        },
        _ => BuilderModel { topic_levels: true, ..b },
    }
}

/// Builder after a property read with key `key`.
pub open spec fn properties_bracket(b: BuilderModel, key: ValueModel) -> BuilderModel {
    match key {
        ValueModel::Str(k) => spec_record_property_key(b, k),
        _ => BuilderModel { properties_full: true, ..b },
    }
}

/// Builder after a raw payload byte read with key `key`.
pub open spec fn raw_bracket(b: BuilderModel, key: ValueModel) -> BuilderModel {
    match key {
        ValueModel::Int(i) => match as_u32(i) {
            Some(u) => spec_record_raw_payload_index(b, u),
            None => BuilderModel { raw_payload_full: true, ..b },
        },
        _ => BuilderModel { raw_payload_full: true, ..b },
    }
}

/// `value[key]` on a JSON value.
pub open spec fn json_bracket(access: AccessModel, key: ValueModel, env: EnvModel) -> AccessResult {
    let b = env.access;
    match access {
        AccessModel::Payload(path) => match key {
            ValueModel::Str(f) => {
                let p = path.push(SegModel::Field(f));
                Ok((StaticType::JsonValue, AccessModel::Payload(p), with_access(env, spec_record_payload_path(b, p))))
            },
            ValueModel::Int(i) => match as_u32(i) {
                Some(u) => {
                    let p = path.push(SegModel::Index(u));
                    Ok((StaticType::JsonValue, AccessModel::Payload(p), with_access(env, spec_record_payload_path(b, p))))
                },
                None => Ok((StaticType::JsonValue, AccessModel::Payload(path), with_access(env, BuilderModel { payload_full: true, ..b }))),
            },
            ValueModel::Unknown => Ok((StaticType::JsonValue, AccessModel::Payload(path), with_access(env, BuilderModel { payload_full: true, ..b }))),
        },
        _ => Ok((StaticType::JsonValue, AccessModel::NoAccess, env)),
    }
}

/// Result of `table[key]` given what is known of `table` and the statically
/// known value of `key`.
pub open spec fn bracket_rule(table: BindingModel, key: ValueModel, env: EnvModel) -> AccessResult {
    match table.ty {
        StaticType::Topic | StaticType::TopicLevels => Ok((StaticType::JsonValue, AccessModel::NoAccess, with_access(env, topic_bracket(env.access, key)))),
        StaticType::Properties => Ok((StaticType::JsonValue, AccessModel::NoAccess, with_access(env, properties_bracket(env.access, key)))),
        StaticType::JsonValue => json_bracket(table.access, key, env),
        StaticType::RawPayload => Ok((StaticType::JsonValue, AccessModel::NoAccess, with_access(env, raw_bracket(env.access, key)))),
        StaticType::Unknown => Ok((StaticType::Unknown, AccessModel::NoAccess, env)),
        known => Err("invalid bracket access on "@ + static_type_name(known)),
    }
}

fn record_topic_bracket(b: &mut AccessPlanBuilder, key: &StaticValue)
    ensures
        final(b)@ == topic_bracket(old(b)@, key@),
{
    match key {
        StaticValue::Int(i) => {
            if 0 <= *i && *i <= 4294967295 {
                b.record_topic_level(*i as u32);
            } else {
                b.topic_levels = true;
            }
        },
        _ => {
            b.topic_levels = true;
        },
    }
}

fn record_properties_bracket(b: &mut AccessPlanBuilder, key: &StaticValue)
    ensures
        final(b)@ == properties_bracket(old(b)@, key@),
{
    match key {
        StaticValue::String(k) => {
            b.record_property_key(k.as_str());
        },
        _ => {
            b.properties_full = true;
        },
    }
}

fn record_raw_bracket(b: &mut AccessPlanBuilder, key: &StaticValue)
    ensures
        final(b)@ == raw_bracket(old(b)@, key@),
{
    match key {
        StaticValue::Int(i) => {
            if 0 <= *i && *i <= 4294967295 {
                b.record_raw_payload_index(*i as u32);
            } else {
                b.raw_payload_full = true;
            }
        },
        _ => {
            b.raw_payload_full = true;
        },
    }
}

#[verifier::rlimit(60)]
fn apply_json_bracket(access: AccessBinding, key: StaticValue, env: &mut TypeEnv) -> (r: Result<(StaticType, AccessBinding), String>)
    ensures
        match r {
            Ok((t, a)) => json_bracket(access@, key@, old(env)@) == Ok::<(StaticType, AccessModel, EnvModel), Seq<char>>((t, a@, final(env)@)),
            Err(e) => json_bracket(access@, key@, old(env)@) == Err::<(StaticType, AccessModel, EnvModel), Seq<char>>(e@),
        },
{
    match access {
        AccessBinding::Payload(path) => {
            let mut path = path;
            let ghost before = path_view(path@);
            match key {
                StaticValue::String(f) => {
                    let ghost fv = f@;
                    path.push(AccessPathSegment::Field(f));
                    assert(path_view(path@) =~= before.push(SegModel::Field(fv)));
                    env.access.record_payload_path(&path);
                },
                StaticValue::Int(i) => {
                    if 0 <= i && i <= 4294967295 {
                        path.push(AccessPathSegment::Index(i as u32));
                        assert(path_view(path@) =~= before.push(SegModel::Index(i as u32)));
                        env.access.record_payload_path(&path);
                    } else {
                        env.access.payload_full = true;
                    }
                },
                StaticValue::Unknown => {
                    env.access.payload_full = true;
                },
            }
            Ok((StaticType::JsonValue, AccessBinding::Payload(path)))
        },
        _ => Ok((StaticType::JsonValue, AccessBinding::NoAccess)),
    }
}

fn apply_bracket_rule(table: Binding, key: StaticValue, env: &mut TypeEnv) -> (r: Result<(StaticType, AccessBinding), String>)
    ensures
        match r {
            Ok((t, a)) => bracket_rule(table@, key@, old(env)@) == Ok::<(StaticType, AccessModel, EnvModel), Seq<char>>((t, a@, final(env)@)),
            Err(e) => bracket_rule(table@, key@, old(env)@) == Err::<(StaticType, AccessModel, EnvModel), Seq<char>>(e@),
        },
{
    match table.ty {
        StaticType::Topic | StaticType::TopicLevels => {
            record_topic_bracket(&mut env.access, &key);
            Ok((StaticType::JsonValue, AccessBinding::NoAccess))
        },
        StaticType::Properties => {
            record_properties_bracket(&mut env.access, &key);
            Ok((StaticType::JsonValue, AccessBinding::NoAccess))
        },
        StaticType::JsonValue => apply_json_bracket(table.access, key, env),
        StaticType::RawPayload => {
            record_raw_bracket(&mut env.access, &key);
            Ok((StaticType::JsonValue, AccessBinding::NoAccess))
        },
        StaticType::Unknown => Ok((StaticType::Unknown, AccessBinding::NoAccess)),
        known => Err(concat("invalid bracket access on ", type_name_str(known))),
    }
}

// ---------------------------------------------------------------------------
// Expression inference
// ---------------------------------------------------------------------------

pub type InferResult = Result<(BindingModel, EnvModel), Seq<char>>;

/// What is known of expression `n`, and the state after its accesses are
/// recorded.
pub open spec fn infer(n: SyntaxNode, env: EnvModel) -> InferResult
    decreases size(n), 1nat,
{
    let value = static_value(n, env);
    if is_ident(n) {
        Ok(
            (
                BindingModel {
                    ty: env_get(env, n.text@),
                    value: env_value(env, n.text@),
                    access: env_access(env, n.text@),
                },
                env,
            ),
        )
    } else if kind_is(n, "dot_index_expression"@) {
        match dot_index(n, env) {
            Ok((t, a, e)) => Ok((BindingModel { ty: t, value, access: a }, e)),
            Err(x) => Err(x),
        }
    } else if kind_is(n, "method_index_expression"@) {
        match method_index(n, env) {
            Ok((t, e)) => Ok((BindingModel { ty: t, value, access: AccessModel::NoAccess }, e)),
            Err(x) => Err(x),
        }
    } else if kind_is(n, "bracket_index_expression"@) {
        match bracket_index(n, env) {
            Ok((t, a, e)) => Ok((BindingModel { ty: t, value, access: a }, e)),
            Err(x) => Err(x),
        }
    } else {
        Ok((BindingModel { ty: StaticType::Unknown, value, access: AccessModel::NoAccess }, env))
    }
}

/// `table.field`.
pub open spec fn dot_index(n: SyntaxNode, env: EnvModel) -> AccessResult
    decreases size(n), 0nat,
{
    match field_index(n, "table"@) {
        None => Ok((StaticType::Unknown, AccessModel::NoAccess, env)),
        Some(ti) => match field_index(n, "field"@) {
            None => Ok((StaticType::Unknown, AccessModel::NoAccess, env)),
            Some(fi) => if 0 <= ti < n.children@.len() && 0 <= fi < n.children@.len() {
                proof {
                    lemma_child_smaller(n, ti);
                }
                match infer(n.children@[ti], env) {
                    Err(x) => Err(x),
                    Ok((tb, e)) => dot_rule(tb, n.children@[fi].text@, e),
                }
            } else {
                Ok((StaticType::Unknown, AccessModel::NoAccess, env))
            },
        },
    }
}

/// `table:method`.
pub open spec fn method_index(n: SyntaxNode, env: EnvModel) -> Result<(StaticType, EnvModel), Seq<char>>
    decreases size(n), 0nat,
{
    match field_index(n, "table"@) {
        None => Ok((StaticType::Unknown, env)),
        Some(ti) => match field_index(n, "method"@) {
            None => Ok((StaticType::Unknown, env)),
            Some(mi) => if 0 <= ti < n.children@.len() && 0 <= mi < n.children@.len() {
                proof {
                    lemma_child_smaller(n, ti);
                }
                match infer(n.children@[ti], env) {
                    Err(x) => Err(x),
                    Ok((tb, e)) => match method_rule(tb.ty, n.children@[mi].text@) {
                        Ok(t) => Ok((t, e)),
                        Err(x) => Err(x),
                    },
                }
            } else {
                Ok((StaticType::Unknown, env))
            },
        },
    }
}

/// The key expression of `table[key]`: the `field` child, else the `index`
/// child, else the last named child.
pub open spec fn bracket_key_index(n: SyntaxNode) -> Option<int> {
    match field_index(n, "field"@) {
        Some(i) => Some(i),
        None => match field_index(n, "index"@) {
            Some(i) => Some(i),
            None => {
                let named = named_indices(n.children@);
                if named.len() > 0 {
                    Some(named.last() as int)
                } else {
                    None
                }
            },
        },
    }
}

/// The statically known value of the key of `table[key]`.
pub open spec fn bracket_key(n: SyntaxNode, env: EnvModel) -> ValueModel {
    match bracket_key_index(n) {
        Some(k) => if 0 <= k < n.children@.len() {
            static_value(n.children@[k], env)
        } else {
            ValueModel::Unknown
        },
        None => ValueModel::Unknown,
    }
}

/// `table[key]`.
pub open spec fn bracket_index(n: SyntaxNode, env: EnvModel) -> AccessResult
    decreases size(n), 0nat,
{
    match field_index(n, "table"@) {
        None => Ok((StaticType::Unknown, AccessModel::NoAccess, env)),
        Some(ti) => if 0 <= ti < n.children@.len() {
            proof {
                lemma_child_smaller(n, ti);
            }
            match infer(n.children@[ti], env) {
                Err(x) => Err(x),
                Ok((tb, e)) => bracket_rule(tb, bracket_key(n, e), e),
            }
        } else {
            Ok((StaticType::Unknown, AccessModel::NoAccess, env))
        },
    }
}

fn infer_bracket_key(n: &SyntaxNode, env: &TypeEnv) -> (r: StaticValue)
    ensures
        r@ == bracket_key(*n, env@),
{
    let k = match child_by_field(n, "field") {
        Some(i) => Some(i),
        None => match child_by_field(n, "index") {
            Some(i) => Some(i),
            None => {
                let named = named_children(n);
                if named.len() > 0 {
                    Some(named[named.len() - 1])
                } else {
                    None
                }
            },
        },
    };
    match k {
        Some(i) => infer_static_value(&n.children[i], env),
        None => StaticValue::Unknown,
    }
}

/// What is known of expression `n`; records the message accesses in it.
pub fn infer_expr_binding(n: &SyntaxNode, env: &mut TypeEnv) -> (r: Result<Binding, String>)
    ensures
        match r {
            Ok(b) => infer(*n, old(env)@) == Ok::<(BindingModel, EnvModel), Seq<char>>((b@, final(env)@)),
            Err(e) => infer(*n, old(env)@) == Err::<(BindingModel, EnvModel), Seq<char>>(e@),
        },
    decreases size(*n), 1nat,
{
    let value = infer_static_value(n, env);
    if node_is_ident(n) {
        let ty = env.get(n.text.as_str());
        let v = env.value(n.text.as_str());
        let access = env.access_binding(n.text.as_str());
        Ok(Binding { ty, value: v, access })
    } else if node_kind_is(n, "dot_index_expression") {
        match infer_dot_index_type(n, env) {
            Ok((ty, access)) => Ok(Binding { ty, value, access }),
            Err(x) => Err(x),
        }
    } else if node_kind_is(n, "method_index_expression") {
        match infer_method_index_type(n, env) {
            Ok(ty) => Ok(Binding { ty, value, access: AccessBinding::NoAccess }),
            Err(x) => Err(x),
        }
    } else if node_kind_is(n, "bracket_index_expression") {
        match infer_bracket_index_type(n, env) {
            Ok((ty, access)) => Ok(Binding { ty, value, access }),
            Err(x) => Err(x),
        }
    } else {
        Ok(Binding { ty: StaticType::Unknown, value, access: AccessBinding::NoAccess })
    }
}

/// The static type of expression `n`.
pub fn infer_expr_type(n: &SyntaxNode, env: &mut TypeEnv) -> (r: Result<StaticType, String>)
    ensures
        match r {
            Ok(t) => infer(*n, old(env)@) matches Ok((b, e)) && b.ty == t && e == final(env)@,
            Err(x) => infer(*n, old(env)@) == Err::<(BindingModel, EnvModel), Seq<char>>(x@),
        },
{
    match infer_expr_binding(n, env) {
        Ok(b) => Ok(b.ty),
        Err(x) => Err(x),
    }
}

fn infer_dot_index_type(n: &SyntaxNode, env: &mut TypeEnv) -> (r: Result<(StaticType, AccessBinding), String>)
    ensures
        match r {
            Ok((t, a)) => dot_index(*n, old(env)@) == Ok::<(StaticType, AccessModel, EnvModel), Seq<char>>((t, a@, final(env)@)),
            Err(e) => dot_index(*n, old(env)@) == Err::<(StaticType, AccessModel, EnvModel), Seq<char>>(e@),
        },
    decreases size(*n), 0nat,
{
    let ti = match child_by_field(n, "table") {
        Some(i) => i,
        None => return Ok((StaticType::Unknown, AccessBinding::NoAccess)),
    };
    let fi = match child_by_field(n, "field") {
        Some(i) => i,
        None => return Ok((StaticType::Unknown, AccessBinding::NoAccess)),
    };
    proof {
        lemma_child_smaller(*n, ti as int);
    }
    let table = infer_expr_binding(&n.children[ti], env)?;
    apply_dot_rule(table, n.children[fi].text.as_str(), env)
}

fn infer_method_index_type(n: &SyntaxNode, env: &mut TypeEnv) -> (r: Result<StaticType, String>)
    ensures
        match r {
            Ok(t) => method_index(*n, old(env)@) == Ok::<(StaticType, EnvModel), Seq<char>>((t, final(env)@)),
            Err(e) => method_index(*n, old(env)@) == Err::<(StaticType, EnvModel), Seq<char>>(e@),
        },
    decreases size(*n), 0nat,
{
    let ti = match child_by_field(n, "table") {
        Some(i) => i,
        None => return Ok(StaticType::Unknown),
    };
    let mi = match child_by_field(n, "method") {
        Some(i) => i,
        None => return Ok(StaticType::Unknown),
    };
    proof {
        lemma_child_smaller(*n, ti as int);
    }
    let table = infer_expr_binding(&n.children[ti], env)?;
    apply_method_rule(table.ty, n.children[mi].text.as_str())
}

fn infer_bracket_index_type(n: &SyntaxNode, env: &mut TypeEnv) -> (r: Result<(StaticType, AccessBinding), String>)
    ensures
        match r {
            Ok((t, a)) => bracket_index(*n, old(env)@) == Ok::<(StaticType, AccessModel, EnvModel), Seq<char>>((t, a@, final(env)@)),
            Err(e) => bracket_index(*n, old(env)@) == Err::<(StaticType, AccessModel, EnvModel), Seq<char>>(e@),
        },
    decreases size(*n), 0nat,
{
    let ti = match child_by_field(n, "table") {
        Some(i) => i,
        None => return Ok((StaticType::Unknown, AccessBinding::NoAccess)),
    };
    proof {
        lemma_child_smaller(*n, ti as int);
    }
    let table = infer_expr_binding(&n.children[ti], env)?;
    let key = infer_bracket_key(n, env);
    apply_bracket_rule(table, key, env)
}

// ---------------------------------------------------------------------------
// Statements
// ---------------------------------------------------------------------------

pub type AnalyzeResult = Result<EnvModel, Seq<char>>;

pub open spec fn emit_payload_message() -> Seq<char> {
    "ctx.emit payload must be a JSON object"@
}

/// Number of arguments of a call: the named children of its first
/// `arguments` node.
pub open spec fn call_arg_count(n: SyntaxNode) -> nat {
    match find_kind(n, "arguments"@) {
        Some(a) => named_indices(a.children@).len(),
        None => 0,
    }
}

/// A literal that is obviously not a JSON object, passed as the payload of
/// `ctx.emit`: a table constructor without `=`, or a string, number, boolean
/// or nil literal.
pub open spec fn emit_payload_error(n: SyntaxNode) -> Option<Seq<char>> {
    match find_kind(n, "arguments"@) {
        None => None,
        Some(a) => {
            let idx = named_indices(a.children@);
            if idx.len() == 0 || idx[0] >= a.children@.len() {
                None
            } else {
                let arg = a.children@[idx[0] as int];
                let t = trim(arg.text@);
                if kind_is(arg, "table_constructor"@) {
                    if !contains_seq(t, "="@) {
                        Some(emit_payload_message())
                    } else {
                        None
                    }
                } else if kind_is(arg, "string"@) || kind_is(arg, "number"@) || kind_is(arg, "true"@)
                    || kind_is(arg, "false"@) || kind_is(arg, "nil"@) {
                    Some(emit_payload_message())
                } else {
                    None
                }
            }
        },
    }
}

/// A function call: `ctx.emit` takes exactly one argument, and in a
/// processing script that argument must not be an obvious non-object.
pub open spec fn function_call(n: SyntaxNode, env: EnvModel) -> AnalyzeResult {
    match field_index(n, "name"@) {
        None => Ok(env),
        Some(ni) => if 0 <= ni < n.children@.len() {
            match infer(n.children@[ni], env) {
                Err(x) => Err(x),
                Ok((b, e)) => if b.ty == StaticType::EmitFn {
                    let args = call_arg_count(n);
                    if args != 1 {
                        Err("ctx.emit expects 1 arg, got "@ + dec(args))
                    } else if e.process_function {
                        match emit_payload_error(n) {
                            Some(x) => Err(x),
                            None => Ok(e),
                        }
                    } else {
                        Ok(e)
                    }
                } else {
                    Ok(e)
                },
            }
        } else {
            Ok(env)
        },
    }
}

/// Analysis of a statement or expression and everything below it.
pub open spec fn analyze(n: SyntaxNode, env: EnvModel) -> AnalyzeResult
    decreases size(n), 5nat, 0int,
{
    if kind_is(n, "assignment_statement"@) {
        assignment(n, env)
    } else if kind_is(n, "variable_declaration"@) {
        variable_declaration(n, env)
    } else if kind_is(n, "return_statement"@) && env.process_function {
        Err("on_message must not return"@)
    } else {
        let pre = if kind_is(n, "function_call"@) {
            function_call(n, env)
        } else if kind_is(n, "dot_index_expression"@) || kind_is(n, "method_index_expression"@)
            || kind_is(n, "bracket_index_expression"@) {
            match infer(n, env) {
                Ok((_, e)) => Ok(e),
                Err(x) => Err(x),
            }
        } else {
            Ok(env)
        };
        match pre {
            Err(x) => Err(x),
            Ok(e) => analyze_children(n, 0, e),
        }
    }
}

/// Analysis of the children of `n` from the `i`-th on, in order.
pub open spec fn analyze_children(n: SyntaxNode, i: int, env: EnvModel) -> AnalyzeResult
    decreases size(n), 4nat, n.children@.len() - i,
{
    if i < 0 || i >= n.children@.len() {
        Ok(env)
    } else {
        proof {
            lemma_child_smaller(n, i);
        }
        match analyze(n.children@[i], env) {
            Err(x) => Err(x),
            Ok(e) => analyze_children(n, i + 1, e),
        }
    }
}

/// Analysis of the named children of `x` from the `k`-th named one on.
pub open spec fn analyze_named(x: SyntaxNode, k: int, env: EnvModel) -> AnalyzeResult
    decreases size(x), 3nat, named_indices(x.children@).len() - k,
{
    let idx = named_indices(x.children@);
    if k < 0 || k >= idx.len() || idx[k] >= x.children@.len() {
        Ok(env)
    } else {
        proof {
            lemma_child_smaller(x, idx[k] as int);
        }
        match analyze(x.children@[idx[k] as int], env) {
            Err(e) => Err(e),
            Ok(e) => analyze_named(x, k + 1, e),
        }
    }
}

/// Binding the assigned identifiers of `v` to the values of `x`, pairwise
/// from the `k`-th on; assigning a variable not in scope is an error.
pub open spec fn bind_assign(v: SyntaxNode, x: SyntaxNode, k: int, env: EnvModel) -> AnalyzeResult
    decreases ident_indices(v.children@).len() - k,
{
    let names = ident_indices(v.children@);
    let values = named_indices(x.children@);
    if k < 0 || k >= names.len() || k >= values.len() || names[k] >= v.children@.len()
        || values[k] >= x.children@.len() {
        Ok(env)
    } else {
        let name = v.children@[names[k] as int].text@;
        if !env_contains(env, name) {
            Err("global assignment is not allowed: "@ + name)
        } else {
            match infer(x.children@[values[k] as int], env) {
                Err(e) => Err(e),
                Ok((b, e)) => bind_assign(v, x, k + 1, env_set(e, name, b)),
            }
        }
    }
}

/// An assignment: its right-hand sides are analysed, then each assigned
/// variable takes what is known of its value.
pub open spec fn assignment(n: SyntaxNode, env: EnvModel) -> AnalyzeResult
    decreases size(n), 4nat, 0int,
{
    match find_kind(n, "expression_list"@) {
        None => Ok(env),
        Some(x) => if size(x) < size(n) {
            match analyze_named(x, 0, env) {
                Err(e) => Err(e),
                Ok(e) => match find_kind(n, "variable_list"@) {
                    None => Ok(e),
                    Some(v) => bind_assign(v, x, 0, e),
                },
            }
        } else {
            Ok(env)
        },
    }
}

/// Binding the declared identifiers of `v` from the `k`-th on, each to what
/// is known of its value in `values`, or to nothing.
pub open spec fn bind_declare(v: SyntaxNode, x: SyntaxNode, values: Seq<usize>, k: int, env: EnvModel) -> AnalyzeResult
    decreases ident_indices(v.children@).len() - k,
{
    let names = ident_indices(v.children@);
    if k < 0 || k >= names.len() || names[k] >= v.children@.len() {
        Ok(env)
    } else {
        let name = v.children@[names[k] as int].text@;
        if k < values.len() && values[k] < x.children@.len() {
            match infer(x.children@[values[k] as int], env) {
                Err(e) => Err(e),
                Ok((b, e)) => bind_declare(v, x, values, k + 1, env_set(e, name, b)),
            }
        } else {
            bind_declare(v, x, values, k + 1, env_set(env, name, unknown_binding()))
        }
    }
}

/// A `local` declaration: its values are analysed, then each declared
/// variable takes what is known of its value.
pub open spec fn variable_declaration(n: SyntaxNode, env: EnvModel) -> AnalyzeResult
    decreases size(n), 4nat, 0int,
{
    let exprs = find_kind(n, "expression_list"@);
    let pre = match exprs {
        None => Ok(env),
        Some(x) => if size(x) < size(n) {
            analyze_named(x, 0, env)
        } else {
            Ok(env)
        },
    };
    match pre {
        Err(e) => Err(e),
        Ok(e) => match find_kind(n, "variable_list"@) {
            None => Ok(e),
            Some(v) => match exprs {
                Some(x) => bind_declare(v, x, named_indices(x.children@), 0, e),
                None => bind_declare(v, n, seq![], 0, e),
            },
        },
    }
}

fn call_arguments<'a>(n: &'a SyntaxNode) -> (r: Option<&'a SyntaxNode>)
    ensures
        match r {
            Some(a) => find_kind(*n, "arguments"@) == Some(*a),
            None => find_kind(*n, "arguments"@) is None,
        },
{
    find_first_node_kind(n, "arguments")
}

fn function_call_arg_count(n: &SyntaxNode) -> (r: usize)
    ensures
        r == call_arg_count(*n),
{
    match call_arguments(n) {
        Some(a) => named_children(a).len(),
        None => 0,
    }
}

fn validate_emit_payload_arg(n: &SyntaxNode) -> (r: Result<(), String>)
    ensures
        match r {
            Ok(_) => emit_payload_error(*n) is None,
            Err(x) => emit_payload_error(*n) == Some(x@),
        },
{
    let a = match call_arguments(n) {
        Some(a) => a,
        None => return Ok(()),
    };
    let idx = named_children(a);
    if idx.len() == 0 {
        return Ok(());
    }
    let arg = &a.children[idx[0]];
    let t = str_trim(arg.text.as_str());
    if node_kind_is(arg, "table_constructor") {
        if !str_contains(t.as_str(), "=") {
            return Err("ctx.emit payload must be a JSON object".to_string());
        }
    } else if node_kind_is(arg, "string") || node_kind_is(arg, "number") || node_kind_is(arg, "true")
        || node_kind_is(arg, "false") || node_kind_is(arg, "nil") {
        return Err("ctx.emit payload must be a JSON object".to_string());
    }
    Ok(())
}

fn validate_function_call(n: &SyntaxNode, env: &mut TypeEnv) -> (r: Result<(), String>)
    ensures
        match r {
            Ok(_) => function_call(*n, old(env)@) == Ok::<EnvModel, Seq<char>>(final(env)@),
            Err(x) => function_call(*n, old(env)@) == Err::<EnvModel, Seq<char>>(x@),
        },
{
    proof {
        broadcast use vstd::string::group_string_axioms;
    }
    let ni = match child_by_field(n, "name") {
        Some(i) => i,
        None => return Ok(()),
    };
    let ty = infer_expr_type(&n.children[ni], env)?;
    if ty == StaticType::EmitFn {
        let args = function_call_arg_count(n);
        if args != 1 {
            let count = usize_to_string(args);
            return Err(concat("ctx.emit expects 1 arg, got ", count.as_str()));
        }
        if env.process_function {
            validate_emit_payload_arg(n)?;
        }
    }
    Ok(())
}

/// Analyses node `n` and everything below it.
pub fn analyze_node(n: &SyntaxNode, env: &mut TypeEnv) -> (r: Result<(), String>)
    ensures
        match r {
            Ok(_) => analyze(*n, old(env)@) == Ok::<EnvModel, Seq<char>>(final(env)@),
            Err(x) => analyze(*n, old(env)@) == Err::<EnvModel, Seq<char>>(x@),
        },
    decreases size(*n), 5nat, 0int,
{
    proof {
        broadcast use vstd::string::group_string_axioms;
    }
    if node_kind_is(n, "assignment_statement") {
        return analyze_assignment(n, env);
    }
    if node_kind_is(n, "variable_declaration") {
        return analyze_variable_declaration(n, env);
    }
    if node_kind_is(n, "return_statement") && env.process_function {
        return Err("on_message must not return".to_string());
    }
    if node_kind_is(n, "function_call") {
        validate_function_call(n, env)?;
    } else if node_kind_is(n, "dot_index_expression") || node_kind_is(n, "method_index_expression")
        || node_kind_is(n, "bracket_index_expression") {
        infer_expr_type(n, env)?;
    }
    analyze_children_from(n, 0, env)
}

fn analyze_children_from(n: &SyntaxNode, i: usize, env: &mut TypeEnv) -> (r: Result<(), String>)
    ensures
        match r {
            Ok(_) => analyze_children(*n, i as int, old(env)@) == Ok::<EnvModel, Seq<char>>(final(env)@),
            Err(x) => analyze_children(*n, i as int, old(env)@) == Err::<EnvModel, Seq<char>>(x@),
        },
    decreases size(*n), 4nat, n.children@.len() - i,
{
    if i >= n.children.len() {
        return Ok(());
    }
    proof {
        lemma_child_smaller(*n, i as int);
    }
    analyze_node(&n.children[i], env)?;
    analyze_children_from(n, i + 1, env)
}

fn analyze_named_from(x: &SyntaxNode, k: usize, env: &mut TypeEnv) -> (r: Result<(), String>)
    ensures
        match r {
            Ok(_) => analyze_named(*x, k as int, old(env)@) == Ok::<EnvModel, Seq<char>>(final(env)@),
            Err(e) => analyze_named(*x, k as int, old(env)@) == Err::<EnvModel, Seq<char>>(e@),
        },
    decreases size(*x), 3nat, named_indices(x.children@).len() - k,
{
    let idx = named_children(x);
    if k >= idx.len() {
        return Ok(());
    }
    proof {
        lemma_child_smaller(*x, idx@[k as int] as int);
    }
    analyze_node(&x.children[idx[k]], env)?;
    analyze_named_from(x, k + 1, env)
}

fn bind_assign_from(v: &SyntaxNode, x: &SyntaxNode, k: usize, env: &mut TypeEnv) -> (r: Result<(), String>)
    ensures
        match r {
            Ok(_) => bind_assign(*v, *x, k as int, old(env)@) == Ok::<EnvModel, Seq<char>>(final(env)@),
            Err(e) => bind_assign(*v, *x, k as int, old(env)@) == Err::<EnvModel, Seq<char>>(e@),
        },
    decreases ident_indices(v.children@).len() - k,
{
    let names = ident_children(v);
    let values = named_children(x);
    if k >= names.len() || k >= values.len() {
        return Ok(());
    }
    let name_node = &v.children[names[k]];
    if !env.contains(name_node.text.as_str()) {
        return Err(concat("global assignment is not allowed: ", name_node.text.as_str()));
    }
    let binding = infer_expr_binding(&x.children[values[k]], env)?;
    env.set(name_node.text.clone(), binding);
    bind_assign_from(v, x, k + 1, env)
}

fn analyze_assignment(n: &SyntaxNode, env: &mut TypeEnv) -> (r: Result<(), String>)
    requires
        kind_is(*n, "assignment_statement"@),
    ensures
        match r {
            Ok(_) => assignment(*n, old(env)@) == Ok::<EnvModel, Seq<char>>(final(env)@),
            Err(e) => assignment(*n, old(env)@) == Err::<EnvModel, Seq<char>>(e@),
        },
    decreases size(*n), 4nat, 0int,
{
    let x = match find_first_node_kind(n, "expression_list") {
        Some(x) => x,
        None => return Ok(()),
    };
    proof {
        reveal_strlit("assignment_statement");
        reveal_strlit("expression_list");
        assert("assignment_statement"@.len() != "expression_list"@.len());
        assert(!kind_is(*n, "expression_list"@));
        lemma_find_kind_from_size(*n, "expression_list"@, 0);
    }
    analyze_named_from(x, 0, env)?;
    let v = match find_first_node_kind(n, "variable_list") {
        Some(v) => v,
        None => return Ok(()),
    };
    bind_assign_from(v, x, 0, env)
}

fn bind_declare_from(v: &SyntaxNode, x: &SyntaxNode, values: &Vec<usize>, k: usize, env: &mut TypeEnv) -> (r: Result<(), String>)
    ensures
        match r {
            Ok(_) => bind_declare(*v, *x, values@, k as int, old(env)@) == Ok::<EnvModel, Seq<char>>(final(env)@),
            Err(e) => bind_declare(*v, *x, values@, k as int, old(env)@) == Err::<EnvModel, Seq<char>>(e@),
        },
    decreases ident_indices(v.children@).len() - k,
{
    let names = ident_children(v);
    if k >= names.len() {
        return Ok(());
    }
    let name_node = &v.children[names[k]];
    if k < values.len() && values[k] < x.children.len() {
        let binding = infer_expr_binding(&x.children[values[k]], env)?;
        env.set(name_node.text.clone(), binding);
    } else {
        env.set(name_node.text.clone(), Binding::unknown());
    }
    bind_declare_from(v, x, values, k + 1, env)
}

fn analyze_variable_declaration(n: &SyntaxNode, env: &mut TypeEnv) -> (r: Result<(), String>)
    requires
        kind_is(*n, "variable_declaration"@),
    ensures
        match r {
            Ok(_) => variable_declaration(*n, old(env)@) == Ok::<EnvModel, Seq<char>>(final(env)@),
            Err(e) => variable_declaration(*n, old(env)@) == Err::<EnvModel, Seq<char>>(e@),
        },
    decreases size(*n), 4nat, 0int,
{
    let exprs = find_first_node_kind(n, "expression_list");
    match exprs {
        Some(x) => {
            proof {
                reveal_strlit("variable_declaration");
                reveal_strlit("expression_list");
                assert("variable_declaration"@.len() != "expression_list"@.len());
                assert(!kind_is(*n, "expression_list"@));
                lemma_find_kind_from_size(*n, "expression_list"@, 0);
            }
            analyze_named_from(x, 0, env)?;
        },
        None => {},
    }
    let v = match find_first_node_kind(n, "variable_list") {
        Some(v) => v,
        None => return Ok(()),
    };
    match exprs {
        Some(x) => {
            let values = named_children(x);
            bind_declare_from(v, x, &values, 0, env)
        },
        None => {
            let values: Vec<usize> = Vec::new();
            assert(values@ =~= seq![]);
            bind_declare_from(v, n, &values, 0, env)
        },
    }
}

// ---------------------------------------------------------------------------
// Entry points
// ---------------------------------------------------------------------------

/// The state at the start of an extension function: its first parameter is
/// `ctx` where it takes one, its second `msg` where it takes two.
pub open spec fn initial_env(params: Seq<Seq<char>>, arity: nat, process_function: bool) -> EnvModel {
    let v0: Seq<(Seq<char>, BindingModel)> = seq![];
    let v1 = if arity >= 1 { v0.push((params[0], typed_binding(StaticType::Ctx))) } else { v0 };
    let v2 = if arity >= 2 { v1.push((params[1], typed_binding(StaticType::Msg))) } else { v1 };
    EnvModel { vars: v2, process_function, access: empty_builder() }
}

/// The state at the start of extension function `f`.
pub fn new_type_env(f: &SyntaxNode, expected_arity: usize, process_function: bool) -> (r: Result<TypeEnv, String>)
    requires
        function_parameters(*f) matches Some(p) ==> (expected_arity >= 1 ==> p.len() >= 1) && (
        expected_arity >= 2 ==> p.len() >= 2),
    ensures
        match r {
            Ok(env) => function_parameters(*f) matches Some(p) && env@ == initial_env(p, expected_arity as nat, process_function),
            Err(e) => function_parameters(*f) is None && e@ == "failed to inspect Lua extension function parameters"@,
        },
{
    let params = match function_parameter_names(f) {
        Some(p) => p,
        None => return Err("failed to inspect Lua extension function parameters".to_string()),
    };
    let ghost pv = params@.map_values(|s: String| s@);
    let mut env = TypeEnv { variables: Vec::new(), process_function, access: AccessPlanBuilder::new() };
    assert(env@.vars =~= seq![]);
    if expected_arity >= 1 {
        env.set(params[0].clone(), Binding::typed(StaticType::Ctx));
    }
    if expected_arity >= 2 {
        env.set(params[1].clone(), Binding::typed(StaticType::Msg));
    }
    Ok(env)
}

/// The message of a wrong arity.
pub open spec fn arity_message(name: Seq<char>, expected: nat, got: nat) -> Seq<char> {
    "Lua function "@ + name + " expects "@ + dec(expected) + " args, got "@ + dec(got)
}

/// Checks of extension function `name` with `arity` parameters in the syntax
/// tree of a script: the tree parses without error, the function is defined
/// globally with that arity, and it uses the extension API correctly. On
/// success, the final analysis state.
pub open spec fn extension_check(root: SyntaxNode, name: Seq<char>, arity: nat) -> AnalyzeResult {
    if root.has_error {
        Err("Lua syntax error"@)
    } else {
        match global_function(root, name) {
            None => Err("must define Lua function "@ + name),
            Some(f) => match function_parameters(f) {
                None => Err("failed to inspect Lua function "@ + name + " parameters"@),
                Some(p) => if p.len() != arity {
                    Err(arity_message(name, arity, p.len()))
                } else {
                    analyze(f, initial_env(p, arity, name == PROCESS_ON_MESSAGE_FN@))
                },
            },
        }
    }
}

fn check_extension_tree(root: &SyntaxNode, function_name: &str, expected_arity: usize, process_function: bool) -> (r: Result<TypeEnv, String>)
    requires
        process_function == (function_name@ == PROCESS_ON_MESSAGE_FN@),
    ensures
        match r {
            Ok(env) => extension_check(*root, function_name@, expected_arity as nat) == Ok::<EnvModel, Seq<char>>(env@),
            Err(e) => extension_check(*root, function_name@, expected_arity as nat) == Err::<EnvModel, Seq<char>>(e@),
        },
{
    proof {
        broadcast use vstd::string::group_string_axioms;
    }
    if root.has_error {
        return Err("Lua syntax error".to_string());
    }
    let f = match find_global_function(root, function_name) {
        Some(f) => f,
        None => return Err(concat("must define Lua function ", function_name)),
    };
    let params = match function_parameter_names(f) {
        Some(p) => p,
        None => {
            let m = concat("failed to inspect Lua function ", function_name);
            return Err(concat(m.as_str(), " parameters"));
        },
    };
    let arity = params.len();
    if arity != expected_arity {
        let a = concat("Lua function ", function_name);
        let b = concat(a.as_str(), " expects ");
        let e = usize_to_string(expected_arity);
        let c = concat(b.as_str(), e.as_str());
        let d = concat(c.as_str(), " args, got ");
        let g = usize_to_string(arity);
        return Err(concat(d.as_str(), g.as_str()));
    }
    let mut env = new_type_env(f, expected_arity, process_function)?;
    analyze_node(f, &mut env)?;
    Ok(env)
}

/// Checks extension function `function_name` with `expected_arity`
/// parameters in a parsed script.
pub fn validate_extension_tree(root: &SyntaxNode, function_name: &str, expected_arity: usize) -> (r: Result<(), String>)
    ensures
        match r {
            Ok(_) => extension_check(*root, function_name@, expected_arity as nat) is Ok,
            Err(e) => extension_check(*root, function_name@, expected_arity as nat) == Err::<EnvModel, Seq<char>>(e@),
        },
{
    let process = str_eq(function_name, PROCESS_ON_MESSAGE_FN);
    match check_extension_tree(root, function_name, expected_arity, process) {
        Ok(_) => Ok(()),
        Err(e) => Err(e),
    }
}

/// What checking extension function `name` with `arity` parameters in a
/// parsed script gives.
pub open spec fn extension_verdict(root: SyntaxNode, name: Seq<char>, arity: nat) -> Result<(), Seq<char>> {
    match extension_check(root, name, arity) {
        Ok(_) => Ok(()),
        Err(e) => Err(e),
    }
}

/// The result of checking extension function `name` with `arity`
/// parameters in Lua `source`, where its syntax tree is `t`: a source that
/// tree-sitter cannot parse is refused with tree-sitter's message.
pub open spec fn extension_result_with(source: Seq<char>, t: SyntaxNode, name: Seq<char>, arity: nat, r: Result<(), String>) -> bool {
    match lua_parse_outcome(source) {
        Err(m) => r matches Err(e) && e@ == m,
        Ok(_) => lua_tree_of(source, t) && extension_verdict(t, name, arity) == match r {
            Ok(_) => Ok::<(), Seq<char>>(()),
            Err(e) => Err::<(), Seq<char>>(e@),
        },
    }
}

/// `r` is what checking extension function `name` in `source` gives: the
/// check of the syntax tree of `source`.
pub open spec fn extension_result(source: Seq<char>, name: Seq<char>, arity: nat, r: Result<(), String>) -> bool {
    exists|t: SyntaxNode| #[trigger] extension_result_with(source, t, name, arity, r)
}

/// Checks extension function `function_name` with `expected_arity`
/// parameters in Lua `source`: the result is `validate_extension_tree` of
/// the syntax tree of `source`, or tree-sitter's message where it cannot
/// parse the source.
pub fn validate_extension_function(source: &str, function_name: &str, expected_arity: usize) -> (r: Result<(), String>)
    ensures
        extension_result(source@, function_name@, expected_arity as nat, r),
{
    let tree = match parse_lua(source) {
        Ok(t) => t,
        Err(e) => {
            let ghost any: SyntaxNode = arbitrary();
            let r: Result<(), String> = Err(e);
            assert(extension_result_with(source@, any, function_name@, expected_arity as nat, r));
            return r;
        },
    };
    let r = validate_extension_tree(&tree, function_name, expected_arity);
    assert(extension_result_with(source@, tree, function_name@, expected_arity as nat, r));
    r
}

/// What the processing entry point of a parsed script reads, or why the
/// script is rejected.
pub open spec fn access_analysis(root: SyntaxNode) -> Result<BuilderModel, Seq<char>> {
    match extension_check(root, PROCESS_ON_MESSAGE_FN@, 2) {
        Ok(env) => Ok(env.access),
        Err(e) => Err(e),
    }
}

/// The message access plan of the processing entry point of a parsed
/// script.
pub fn analyze_process_access_plan_tree(root: &SyntaxNode) -> (r: Result<MessageAccessPlan, String>)
    ensures
        match r {
            Ok(p) => access_analysis(*root) matches Ok(b) && crate::loader::access::plan_matches(p, b),
            Err(e) => access_analysis(*root) == Err::<BuilderModel, Seq<char>>(e@),
        },
{
    let env = check_extension_tree(root, PROCESS_ON_MESSAGE_FN, 2, true)?;
    let TypeEnv { variables: _, process_function: _, access } = env;
    Ok(access.into_plan())
}

/// The result of analysing a parsed script is `r`.
pub open spec fn access_result_of(root: SyntaxNode, r: Result<MessageAccessPlan, String>) -> bool {
    match r {
        Ok(p) => access_analysis(root) matches Ok(b) && crate::loader::access::plan_matches(p, b),
        Err(e) => access_analysis(root) == Err::<BuilderModel, Seq<char>>(e@),
    }
}

/// The result of analysing Lua `source`, where its syntax tree is `t`: a
/// source that tree-sitter cannot parse is refused with tree-sitter's
/// message.
pub open spec fn source_access_result_with(source: Seq<char>, t: SyntaxNode, r: Result<MessageAccessPlan, String>) -> bool {
    match lua_parse_outcome(source) {
        Err(m) => r matches Err(e) && e@ == m,
        Ok(_) => lua_tree_of(source, t) && access_result_of(t, r),
    }
}

/// `r` is what analysing the processing entry point of Lua `source` gives:
/// the analysis of the syntax tree of `source`.
pub open spec fn source_access_result(source: Seq<char>, r: Result<MessageAccessPlan, String>) -> bool {
    exists|t: SyntaxNode| #[trigger] source_access_result_with(source, t, r)
}

/// The message access plan of the processing entry point of Lua `source`:
/// `analyze_process_access_plan_tree` of the syntax tree of `source`, or
/// tree-sitter's message where it cannot parse the source.
pub fn analyze_process_access_plan(source: &str) -> (r: Result<MessageAccessPlan, String>)
    ensures
        source_access_result(source@, r),
{
    let tree = match parse_lua(source) {
        Ok(t) => t,
        Err(e) => {
            let ghost any: SyntaxNode = arbitrary();
            let r: Result<MessageAccessPlan, String> = Err(e);
            assert(source_access_result_with(source@, any, r));
            return r;
        },
    };
    let r = analyze_process_access_plan_tree(&tree);
    assert(source_access_result_with(source@, tree, r));
    r
}

} // verus!
