//! Where the engine keeps its files: under `TENON_HOME`, else `~/.tenon`.
use vstd::prelude::*;
use crate::text::{concat, starts_with, str_chars, str_starts_with, string_from_chars};

verus! {

/// The environment that paths depend on: `TENON_HOME` and `HOME`.
#[derive(Debug, Clone)]
pub struct PathEnv {
    pub tenon_home: Option<String>,
    pub home: Option<String>,
}

/// `base` joined with `rel` as `Path::join` does: a `rel` from the root
/// replaces `base`; otherwise a separator is put between them unless `base`
/// ends with one.
pub open spec fn join(base: Seq<char>, rel: Seq<char>) -> Seq<char> {
    if rel.len() > 0 && rel[0] == '/' {
        rel
    } else if base.len() == 0 || base.last() == '/' {
        base + rel
    } else {
        base + "/"@ + rel
    }
}

/// `base` joined with `rel`.
pub fn join_path(base: &str, rel: &str) -> (r: String)
    ensures
        r@ == join(base@, rel@),
{
    let b = str_chars(base);
    let rl = str_chars(rel);
    if rl.len() > 0 && rl[0] == '/' {
        return rel.to_string();
    }
    if b.len() == 0 || b[b.len() - 1] == '/' {
        return concat(base, rel);
    }
    let a = concat(base, "/");
    concat(a.as_str(), rel)
}

/// A set, non-empty value.
pub open spec fn present(v: Option<String>) -> Option<Seq<char>> {
    match v {
        Some(s) => if s@.len() > 0 {
            Some(s@)
        } else {
            None
        },
        None => None,
    }
}

fn present_value(v: &Option<String>) -> (r: Option<&String>)
    ensures
        match r {
            Some(s) => present(*v) == Some(s@),
            None => present(*v) is None,
        },
{
    match v {
        Some(s) => {
            if s.as_str().is_empty() {
                None
            } else {
                Some(s)
            }
        },
        None => None,
    }
}

/// The home directory, or why there is none.
pub open spec fn home_of(env: PathEnv) -> Result<Seq<char>, Seq<char>> {
    match present(env.home) {
        Some(h) => Ok(h),
        None => Err("HOME is not set"@),
    }
}

/// The home directory.
pub fn user_home(env: &PathEnv) -> (r: Result<String, String>)
    ensures
        match (r, home_of(*env)) {
            (Ok(a), Ok(b)) => a@ == b,
            (Err(a), Err(b)) => a@ == b,
            _ => false,
        },
{
    match present_value(&env.home) {
        Some(h) => Ok(h.clone()),
        None => Err("HOME is not set".to_string()),
    }
}

/// `TENON_HOME` where it is set and not empty.
pub fn configured_tenon_home(env: &PathEnv) -> (r: Option<String>)
    ensures
        match r {
            Some(s) => present(env.tenon_home) == Some(s@),
            None => present(env.tenon_home) is None,
        },
{
    match present_value(&env.tenon_home) {
        Some(h) => Some(h.clone()),
        None => None,
    }
}

/// The engine's directory: `TENON_HOME`, else `.tenon` under the home
/// directory.
pub open spec fn tenon_home_of(env: PathEnv) -> Result<Seq<char>, Seq<char>> {
    match present(env.tenon_home) {
        Some(t) => Ok(t),
        None => match home_of(env) {
            Ok(h) => Ok(join(h, ".tenon"@)),
            Err(e) => Err(e),
        },
    }
}

/// `.tenon` under the home directory.
pub fn default_tenon_home(env: &PathEnv) -> (r: Result<String, String>)
    ensures
        match (r, home_of(*env)) {
            (Ok(a), Ok(b)) => a@ == join(b, ".tenon"@),
            (Err(a), Err(b)) => a@ == b,
            _ => false,
        },
{
    let home = user_home(env)?;
    Ok(join_path(home.as_str(), ".tenon"))
}

/// The engine's directory.
pub fn tenon_home(env: &PathEnv) -> (r: Result<String, String>)
    ensures
        match (r, tenon_home_of(*env)) {
            (Ok(a), Ok(b)) => a@ == b,
            (Err(a), Err(b)) => a@ == b,
            _ => false,
        },
{
    match configured_tenon_home(env) {
        Some(t) => Ok(t),
        None => default_tenon_home(env),
    }
}

/// `file` in the engine's directory.
pub open spec fn in_tenon_home(env: PathEnv, file: Seq<char>) -> Result<Seq<char>, Seq<char>> {
    match tenon_home_of(env) {
        Ok(h) => Ok(join(h, file)),
        Err(e) => Err(e),
    }
}

/// The configuration file: `config.json` in the engine's directory.
pub fn config_path(env: &PathEnv) -> (r: Result<String, String>)
    ensures
        match (r, in_tenon_home(*env, "config.json"@)) {
            (Ok(a), Ok(b)) => a@ == b,
            (Err(a), Err(b)) => a@ == b,
            _ => false,
        },
{
    let home = tenon_home(env)?;
    Ok(join_path(home.as_str(), "config.json"))
}

/// The log directory: `log` in the engine's directory.
pub fn log_dir(env: &PathEnv) -> (r: Result<String, String>)
    ensures
        match (r, in_tenon_home(*env, "log"@)) {
            (Ok(a), Ok(b)) => a@ == b,
            (Err(a), Err(b)) => a@ == b,
            _ => false,
        },
{
    let home = tenon_home(env)?;
    Ok(join_path(home.as_str(), "log"))
}

/// A path with a leading `~/` taken from the home directory.
pub open spec fn expanded_path(env: PathEnv, path: Seq<char>) -> Result<Seq<char>, Seq<char>> {
    if starts_with(path, "~/"@) {
        match home_of(env) {
            Ok(h) => Ok(join(h, path.subrange(2, path.len() as int))),
            Err(e) => Err(e),
        }
    } else {
        Ok(path)
    }
}

/// `path` with a leading `~/` replaced by the home directory.
pub fn expand_user_path(env: &PathEnv, path: &str) -> (r: Result<String, String>)
    ensures
        match (r, expanded_path(*env, path@)) {
            (Ok(a), Ok(b)) => a@ == b,
            (Err(a), Err(b)) => a@ == b,
            _ => false,
        },
{
    if str_starts_with(path, "~/") {
        proof {
            reveal_strlit("~/");
        }
        let c = str_chars(path);
        let rest = string_from_chars(&c.as_slice()[2..c.len()]);
        assert(rest@ =~= path@.subrange(2, path@.len() as int));
        let home = user_home(env)?;
        return Ok(join_path(home.as_str(), rest.as_str()));
    }
    Ok(path.to_string())
}

} // verus!
