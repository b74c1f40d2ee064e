//! The static types and values that the script analysis tracks for Lua
//! variables.
use vstd::prelude::*;
use crate::loader::access::{copy_path, path_view, AccessPathSegment, AccessPlanBuilder, BuilderModel, SegModel};
use crate::text::str_eq;

verus! {

/// Static type of a Lua expression, as far as the extension API goes.
#[derive(Debug, Clone, Copy, PartialEq, Eq, Structural)]
pub enum StaticType {
    Unknown,
    Ctx,
    Msg,
    Memory,
    Source,
    Topic,
    TopicLevels,
    RawPayload,
    Metadata,
    Properties,
    JsonValue,
    EmitFn,
}

/// A statically known value of a Lua expression.
#[derive(Debug)]
pub enum StaticValue {
    Unknown,
    String(String),
    Int(i64),
}

/// Model of a `StaticValue`.
pub enum ValueModel {
    Unknown,
    Str(Seq<char>),
    Int(int),
}

impl View for StaticValue {
    type V = ValueModel;

    open spec fn view(&self) -> ValueModel {
        match self {
            StaticValue::Unknown => ValueModel::Unknown,
            StaticValue::String(s) => ValueModel::Str(s@),
            StaticValue::Int(i) => ValueModel::Int(*i as int),
        }
    }
}

/// Which part of the message a Lua expression stands for.
#[derive(Debug)]
pub enum AccessBinding {
    NoAccess,
    Source,
    Topic,
    TopicLevels,
    Payload(Vec<AccessPathSegment>),
    RawPayload,
    Metadata,
    Properties,
}

/// Model of an `AccessBinding`.
pub enum AccessModel {
    NoAccess,
    Source,
    Topic,
    TopicLevels,
    Payload(Seq<SegModel>),
    RawPayload,
    Metadata,
    Properties,
}

impl View for AccessBinding {
    type V = AccessModel;

    open spec fn view(&self) -> AccessModel {
        match self {
            AccessBinding::NoAccess => AccessModel::NoAccess,
            AccessBinding::Source => AccessModel::Source,
            AccessBinding::Topic => AccessModel::Topic,
            AccessBinding::TopicLevels => AccessModel::TopicLevels,
            AccessBinding::Payload(p) => AccessModel::Payload(path_view(p@)),
            AccessBinding::RawPayload => AccessModel::RawPayload,
            AccessBinding::Metadata => AccessModel::Metadata,
            AccessBinding::Properties => AccessModel::Properties,
        }
    }
}

/// What is known of a Lua variable or expression.
#[derive(Debug)]
pub struct Binding {
    pub ty: StaticType,
    pub value: StaticValue,
    pub access: AccessBinding,
}

/// Model of a `Binding`.
pub struct BindingModel {
    pub ty: StaticType,
    pub value: ValueModel,
    pub access: AccessModel,
}

impl View for Binding {
    type V = BindingModel;

    open spec fn view(&self) -> BindingModel {
        BindingModel { ty: self.ty, value: self.value@, access: self.access@ }
    }
}

pub open spec fn unknown_binding() -> BindingModel {
    BindingModel { ty: StaticType::Unknown, value: ValueModel::Unknown, access: AccessModel::NoAccess }
}

pub open spec fn typed_binding(ty: StaticType) -> BindingModel {
    BindingModel { ty, value: ValueModel::Unknown, access: AccessModel::NoAccess }
}

impl Binding {
    pub fn unknown() -> (r: Self)
        ensures
            r@ == unknown_binding(),
    {
        Binding { ty: StaticType::Unknown, value: StaticValue::Unknown, access: AccessBinding::NoAccess }
    }

    pub fn typed(ty: StaticType) -> (r: Self)
        ensures
            r@ == typed_binding(ty),
    {
        Binding { ty, value: StaticValue::Unknown, access: AccessBinding::NoAccess }
    }
}

/// Copy of a value.
pub fn copy_value(v: &StaticValue) -> (r: StaticValue)
    ensures
        r@ == v@,
{
    match v {
        StaticValue::Unknown => StaticValue::Unknown,
        StaticValue::String(s) => StaticValue::String(s.clone()),
        StaticValue::Int(i) => StaticValue::Int(*i),
    }
}

/// Copy of an access binding.
pub fn copy_access(a: &AccessBinding) -> (r: AccessBinding)
    ensures
        r@ == a@,
{
    match a {
        AccessBinding::NoAccess => AccessBinding::NoAccess,
        AccessBinding::Source => AccessBinding::Source,
        AccessBinding::Topic => AccessBinding::Topic,
        AccessBinding::TopicLevels => AccessBinding::TopicLevels,
        AccessBinding::Payload(p) => AccessBinding::Payload(copy_path(p)),
        AccessBinding::RawPayload => AccessBinding::RawPayload,
        AccessBinding::Metadata => AccessBinding::Metadata,
        AccessBinding::Properties => AccessBinding::Properties,
    }
}

/// Model of the analysis state: the variables in scope, latest binding
/// last, whether the script is a processing entry point, and what it reads.
pub struct EnvModel {
    pub vars: Seq<(Seq<char>, BindingModel)>,
    pub process_function: bool,
    pub access: BuilderModel,
}

/// The latest binding of `name` in `vars`.
pub open spec fn lookup(vars: Seq<(Seq<char>, BindingModel)>, name: Seq<char>) -> Option<BindingModel>
    decreases vars.len(),
{
    if vars.len() == 0 {
        None
    } else if vars.last().0 == name {
        Some(vars.last().1)
    } else {
        lookup(vars.drop_last(), name)
    }
}

pub open spec fn env_get(env: EnvModel, name: Seq<char>) -> StaticType {
    match lookup(env.vars, name) {
        Some(b) => b.ty,
        None => StaticType::Unknown,
    }
}

pub open spec fn env_value(env: EnvModel, name: Seq<char>) -> ValueModel {
    match lookup(env.vars, name) {
        Some(b) => b.value,
        None => ValueModel::Unknown,
    }
}

pub open spec fn env_access(env: EnvModel, name: Seq<char>) -> AccessModel {
    match lookup(env.vars, name) {
        Some(b) => b.access,
        None => AccessModel::NoAccess,
    }
}

pub open spec fn env_set(env: EnvModel, name: Seq<char>, b: BindingModel) -> EnvModel {
    EnvModel { vars: env.vars.push((name, b)), ..env }
}

pub open spec fn env_contains(env: EnvModel, name: Seq<char>) -> bool {
    lookup(env.vars, name) is Some
}

/// Model of the variables of an environment.
pub open spec fn vars_view(v: Seq<(String, Binding)>) -> Seq<(Seq<char>, BindingModel)> {
    v.map_values(|p: (String, Binding)| (p.0@, p.1@))
}

/// The variables in scope of an extension function and what it reads.
#[derive(Debug)]
pub struct TypeEnv {
    pub variables: Vec<(String, Binding)>,
    pub process_function: bool,
    pub access: AccessPlanBuilder,
}

impl View for TypeEnv {
    type V = EnvModel;

    open spec fn view(&self) -> EnvModel {
        EnvModel {
            vars: vars_view(self.variables@),
            process_function: self.process_function,
            access: self.access@,
        }
    }
}

impl TypeEnv {
    /// Index of the latest binding of `name`.
    fn find(&self, name: &str) -> (r: Option<usize>)
        ensures
            match r {
                Some(i) => i < self.variables@.len() && lookup(self@.vars, name@) == Some(
                    self@.vars[i as int].1,
                ),
                None => lookup(self@.vars, name@) is None,
            },
    {
        let ghost vars = self@.vars;
        let mut i: usize = self.variables.len();
        assert(vars.take(i as int) =~= vars);
        while i > 0
            invariant
                i <= self.variables@.len(),
                vars == vars_view(self.variables@),
                lookup(vars, name@) == lookup(vars.take(i as int), name@),
            decreases i,
        {
            assert(vars.take(i as int).drop_last() =~= vars.take(i - 1));
            assert(vars.take(i as int).last() == vars[i - 1]);
            if str_eq(self.variables[i - 1].0.as_str(), name) {
                return Some(i - 1);
            }
            i = i - 1;
        }
        None
    }

    pub fn get(&self, name: &str) -> (r: StaticType)
        ensures
            r == env_get(self@, name@),
    {
        match self.find(name) {
            Some(i) => self.variables[i].1.ty,
            None => StaticType::Unknown,
        }
    }

    pub fn value(&self, name: &str) -> (r: StaticValue)
        ensures
            r@ == env_value(self@, name@),
    {
        match self.find(name) {
            Some(i) => copy_value(&self.variables[i].1.value),
            None => StaticValue::Unknown,
        }
    }

    pub fn access_binding(&self, name: &str) -> (r: AccessBinding)
        ensures
            r@ == env_access(self@, name@),
    {
        match self.find(name) {
            Some(i) => copy_access(&self.variables[i].1.access),
            None => AccessBinding::NoAccess,
        }
    }

    pub fn set(&mut self, name: String, binding: Binding)
        ensures
            final(self)@ == env_set(old(self)@, name@, binding@),
    {
        self.variables.push((name, binding));
        assert(self@.vars =~= old(self)@.vars.push((name@, binding@)));
    }

    pub fn contains(&self, name: &str) -> (r: bool)
        ensures
            r == env_contains(self@, name@),
    {
        self.find(name).is_some()
    }
}

} // verus!
