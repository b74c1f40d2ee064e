//! The script extension API: entry points, the names scripts may use, message
//! pieces and the results that scripts hand back.
use vstd::prelude::*;
use crate::text::{concat, str_chars, string_from_chars, str_eq};

verus! {

/// Name of the authentication entry point.
pub const AUTH_CREDENTIALS_FN: &'static str = "credentials";

/// Name of the processing entry point.
pub const PROCESS_ON_MESSAGE_FN: &'static str = "on_message";

/// An entry point that a script module implements.
#[derive(Debug, Clone, Copy, PartialEq, Eq, Structural)]
pub enum ExtensionPoint {
    AuthCredentials,
    ProcessOnMessage,
}

impl ExtensionPoint {
    pub open spec fn spec_function_name(self) -> Seq<char> {
        match self {
            ExtensionPoint::AuthCredentials => AUTH_CREDENTIALS_FN@,
            ExtensionPoint::ProcessOnMessage => PROCESS_ON_MESSAGE_FN@,
        }
    }

    /// The global Lua function that implements this entry point.
    pub fn function_name(self) -> (r: &'static str)
        ensures
            r@ == self.spec_function_name(),
    {
        match self {
            ExtensionPoint::AuthCredentials => AUTH_CREDENTIALS_FN,
            ExtensionPoint::ProcessOnMessage => PROCESS_ON_MESSAGE_FN,
        }
    }
}

/// Category of an extension failure.
#[derive(Debug, Clone, Copy, PartialEq, Eq, Structural)]
pub enum ExtensionErrorKind {
    InvalidArgument,
    State,
    Emit,
    Script,
}

/// A failure raised by the extension API.
#[derive(Debug, Clone, PartialEq, Eq)]
pub struct ExtensionError {
    pub kind: ExtensionErrorKind,
    pub message: String,
}

impl ExtensionError {
    pub fn new(kind: ExtensionErrorKind, message: String) -> (r: Self)
        ensures
            r.kind == kind,
            r.message@ == message@,
    {
        ExtensionError { kind, message }
    }

    pub fn invalid_argument(message: String) -> (r: Self)
        ensures
            r.kind == ExtensionErrorKind::InvalidArgument,
            r.message@ == message@,
    {
        Self::new(ExtensionErrorKind::InvalidArgument, message)
    }

    pub fn state(message: String) -> (r: Self)
        ensures
            r.kind == ExtensionErrorKind::State,
            r.message@ == message@,
    {
        Self::new(ExtensionErrorKind::State, message)
    }

    pub fn emit(message: String) -> (r: Self)
        ensures
            r.kind == ExtensionErrorKind::Emit,
            r.message@ == message@,
    {
        Self::new(ExtensionErrorKind::Emit, message)
    }

    pub fn script(message: String) -> (r: Self)
        ensures
            r.kind == ExtensionErrorKind::Script,
            r.message@ == message@,
    {
        Self::new(ExtensionErrorKind::Script, message)
    }
}

/// Fields of `ctx` that scripts may read.
pub open spec fn is_context_field(f: Seq<char>) -> bool {
    f == "memory"@ || f == "source"@ || f == "emit"@
}

/// Fields of `msg` that scripts may read.
pub open spec fn is_message_field(f: Seq<char>) -> bool {
    f == "source"@ || f == "topic"@ || f == "payload"@ || f == "raw_payload"@ || f == "metadata"@
        || f == "properties"@
}

/// Fields of a source context.
pub open spec fn is_source_field(f: Seq<char>) -> bool {
    f == "name"@ || f == "version"@
}

/// Fields of a topic.
pub open spec fn is_topic_field(f: Seq<char>) -> bool {
    f == "raw"@ || f == "levels"@
}

/// Fields of the MQTT metadata.
pub open spec fn is_metadata_field(f: Seq<char>) -> bool {
    f == "pkid"@ || f == "qos"@ || f == "retain"@ || f == "dup"@
}

/// Methods of the script memory.
pub open spec fn is_memory_method(f: Seq<char>) -> bool {
    f == "get"@ || f == "set"@ || f == "delete"@
}

/// The source a message came from.
#[derive(Debug, Clone, PartialEq, Eq)]
pub struct SourceContext {
    pub name: String,
    pub version: String,
}

impl SourceContext {
    pub fn new(name: String, version: String) -> (r: Self)
        ensures
            r.name@ == name@,
            r.version@ == version@,
    {
        SourceContext { name, version }
    }
}

/// Position of the first `c` in `s` at or after `from`, if any.
pub open spec fn index_of_from(s: Seq<char>, c: char, from: int) -> Option<int>
    decreases s.len() - from,
{
    if from < 0 || from >= s.len() {
        None
    } else if s[from] == c {
        Some(from)
    } else {
        index_of_from(s, c, from + 1)
    }
}

/// `s[from..].split(c)`: the pieces between occurrences of `c`.
pub open spec fn split_from(s: Seq<char>, c: char, from: int) -> Seq<Seq<char>>
    recommends
        0 <= from <= s.len(),
    decreases s.len() - from,
{
    match index_of_from(s, c, from) {
        Some(j) => if from <= j < s.len() {
            seq![s.subrange(from, j)] + split_from(s, c, j + 1)
        } else {
            seq![]
        },
        None => seq![s.subrange(from, s.len() as int)],
    }
}

proof fn lemma_index_of_from(s: Seq<char>, c: char, from: int)
    requires
        0 <= from,
    ensures
        match index_of_from(s, c, from) {
            Some(j) => from <= j < s.len() && s[j] == c && forall|k: int| from <= k < j ==> s[k] != c,
            None => forall|k: int| from <= k < s.len() ==> s[k] != c,
        },
    decreases s.len() - from,
{
    if from < s.len() && s[from] != c {
        lemma_index_of_from(s, c, from + 1);
    }
}

/// Splits `s[from..]` at every `/`.
fn split_levels(s: &Vec<char>, from: usize) -> (r: Vec<String>)
    requires
        from <= s.len(),
    ensures
        r@.map_values(|x: String| x@) == split_from(s@, '/', from as int),
    decreases s.len() - from,
{
    let mut j: usize = from;
    while j < s.len() && s[j] != '/'
        invariant
            from <= j <= s.len(),
            forall|k: int| from <= k < j ==> s@[k] != '/',
        decreases s.len() - j,
    {
        j = j + 1;
    }
    proof {
        lemma_index_of_from(s@, '/', from as int);
    }
    let piece = string_from_chars(&s.as_slice()[from..j]);
    assert(piece@ == s@.subrange(from as int, j as int));
    if j == s.len() {
        let mut r = Vec::new();
        r.push(piece);
        assert(r@.map_values(|x: String| x@) =~= split_from(s@, '/', from as int));
        r
    } else {
        let mut rest = split_levels(s, j + 1);
        let mut r = Vec::new();
        r.push(piece);
        r.append(&mut rest);
        assert(index_of_from(s@, '/', from as int) == Some(j as int));
        assert(r@.map_values(|x: String| x@) =~= seq![s@.subrange(from as int, j as int)]
            + split_from(s@, '/', j + 1));
        r
    }
}

/// A message topic and its `/`-separated levels.
#[derive(Debug, Clone, PartialEq, Eq)]
pub struct Topic {
    pub raw: String,
    pub levels: Vec<String>,
}

impl Topic {
    /// The levels of `raw`: `raw.split('/')`.
    pub fn new(raw: String) -> (r: Self)
        ensures
            r.raw@ == raw@,
            r.levels@.map_values(|x: String| x@) == split_from(raw@, '/', 0),
    {
        let chars = str_chars(raw.as_str());
        let levels = split_levels(&chars, 0);
        Topic { raw, levels }
    }

    /// The level at a 1-based index, as scripts number them.
    pub fn lua_level(&self, one_based_index: usize) -> (r: Option<&str>)
        ensures
            match r {
                Some(level) => 1 <= one_based_index <= self.levels@.len()
                    && level@ == self.levels@[one_based_index - 1]@,
                None => one_based_index == 0 || one_based_index > self.levels@.len(),
            },
    {
        if one_based_index == 0 || one_based_index > self.levels.len() {
            None
        } else {
            Some(self.levels[one_based_index - 1].as_str())
        }
    }
}

/// MQTT delivery metadata of a message.
#[derive(Debug, Clone, Copy, PartialEq, Eq, Structural)]
pub struct MqttMetadata {
    pub pkid: u16,
    pub qos: u8,
    pub retain: bool,
    pub dup: bool,
}

impl MqttMetadata {
    pub fn new(pkid: u16, qos: u8, retain: bool, dup: bool) -> (r: Self)
        ensures
            r == (MqttMetadata { pkid, qos, retain, dup }),
    {
        MqttMetadata { pkid, qos, retain, dup }
    }
}

/// Credentials that an authentication script returns.
#[derive(Debug, Clone, PartialEq, Eq)]
pub enum AuthResult {
    UsernamePassword { username: String, password: String },
    ClientCertificate { cert_path: String, key_path: String, ca_path: Option<String> },
    Custom {
        username: Option<String>,
        password: Option<String>,
        properties: Vec<(String, String)>,
    },
}

impl AuthResult {
    pub fn username_password(username: String, password: String) -> (r: Self)
        ensures
            r == (AuthResult::UsernamePassword { username, password }),
    {
        AuthResult::UsernamePassword { username, password }
    }

    pub fn client_certificate(cert_path: String, key_path: String, ca_path: Option<String>) -> (r:
        Self)
        ensures
            r == (AuthResult::ClientCertificate { cert_path, key_path, ca_path }),
    {
        AuthResult::ClientCertificate { cert_path, key_path, ca_path }
    }

    pub fn custom(
        username: Option<String>,
        password: Option<String>,
        properties: Vec<(String, String)>,
    ) -> (r: Self)
        ensures
            r == (AuthResult::Custom { username, password, properties }),
    {
        AuthResult::Custom { username, password, properties }
    }
}

} // verus!
