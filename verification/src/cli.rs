//! Command lines: the OSS engine's and the MQTT probe's.
use vstd::prelude::*;
use vstd::utf8::encode_utf8;
use crate::number::{dec, parse_int, parse_int_str, u64_to_string};
use crate::text::{concat, str_eq};

verus! {

/// What the OSS engine was asked to do.
#[derive(Debug, Clone, PartialEq, Eq)]
pub enum CliCommand {
    Run { config_path: String },
    Help { program: String },
    Version,
}

/// `CliCommand` with its text as characters.
pub enum CliView {
    Run(Seq<char>),
    Help(Seq<char>),
    Version,
}

pub open spec fn cli_view(c: CliCommand) -> CliView {
    match c {
        CliCommand::Run { config_path } => CliView::Run(config_path@),
        CliCommand::Help { program } => CliView::Help(program@),
        CliCommand::Version => CliView::Version,
    }
}

pub open spec fn cli_result_view(r: Result<CliCommand, String>) -> Result<CliView, Seq<char>> {
    match r {
        Ok(c) => Ok(cli_view(c)),
        Err(e) => Err(e@),
    }
}

pub open spec fn strings_view(args: Seq<String>) -> Seq<Seq<char>> {
    args.map_values(|s: String| s@)
}

/// The program's name: the first argument, else `tenon-oss`.
pub open spec fn program_name(args: Seq<Seq<char>>) -> Seq<char> {
    if args.len() > 0 { args[0] } else { "tenon-oss"@ }
}

/// The command that the second argument asks for; only it is read.
pub open spec fn cli_flag(args: Seq<Seq<char>>) -> Result<CliView, Seq<char>>
    recommends
        args.len() > 1,
{
    let a = args[1];
    if a == "-c"@ || a == "--config"@ {
        if args.len() > 2 {
            Ok(CliView::Run(args[2]))
        } else {
            Err("missing value for -c/--config"@)
        }
    } else if a == "-h"@ || a == "--help"@ {
        Ok(CliView::Help(program_name(args)))
    } else if a == "--version"@ {
        Ok(CliView::Version)
    } else {
        Err("unknown argument: "@ + a)
    }
}

/// With no argument, the engine runs on the default config path.
pub open spec fn default_command(d: Result<String, String>) -> Result<CliView, Seq<char>> {
    match d {
        Ok(p) => Ok(CliView::Run(p@)),
        Err(e) => Err(e@),
    }
}

/// Reads the command line; the default config path is asked for only when
/// no argument is given.
pub fn parse_cli_with_default_resolver<F: FnOnce() -> Result<String, String>>(
    args: Vec<String>,
    default_path: F,
) -> (r: Result<CliCommand, String>)
    requires
        args@.len() <= 1 ==> call_requires(default_path, ()),
    ensures
        args@.len() > 1 ==> cli_result_view(r) == cli_flag(strings_view(args@)),
        args@.len() <= 1 ==> exists|d: Result<String, String>|
            call_ensures(default_path, (), d) && cli_result_view(r) == default_command(d),
{
    let ghost sv = strings_view(args@);
    let program = if args.len() > 0 {
        args[0].clone()
    } else {
        "tenon-oss".to_string()
    };
    assert(program@ == program_name(sv));
    if args.len() > 1 {
        let a = args[1].as_str();
        assert(a@ == sv[1]);
        if str_eq(a, "-c") || str_eq(a, "--config") {
            if args.len() > 2 {
                let p = args[2].clone();
                assert(p@ == sv[2]);
                return Ok(CliCommand::Run { config_path: p });
            }
            return Err("missing value for -c/--config".to_string());
        }
        if str_eq(a, "-h") || str_eq(a, "--help") {
            return Ok(CliCommand::Help { program });
        }
        if str_eq(a, "--version") {
            return Ok(CliCommand::Version);
        }
        return Err(concat("unknown argument: ", a));
    }
    let d = default_path();
    let ghost dd = d;
    let r = match d {
        Ok(p) => Ok(CliCommand::Run { config_path: p }),
        Err(e) => Err(e),
    };
    assert(call_ensures(default_path, (), dd) && cli_result_view(r) == default_command(dd));
    r
}

pub open spec fn oss_usage_text(program: Seq<char>) -> Seq<char> {
    "Usage: "@ + program + " [-c config.json]\n       "@ + program + " -h|--help\n       "@ + program
        + " --version\nDefault config: ~/.tenon/config.json\n"@
}

/// The OSS engine's usage text.
pub fn oss_usage(program: &str) -> (r: String)
    ensures
        r@ == oss_usage_text(program@),
{
    let a = concat("Usage: ", program);
    let b = concat(a.as_str(), " [-c config.json]\n       ");
    let c = concat(b.as_str(), program);
    let d = concat(c.as_str(), " -h|--help\n       ");
    let e = concat(d.as_str(), program);
    let r = concat(e.as_str(), " --version\nDefault config: ~/.tenon/config.json\n");
    assert(r@ =~= oss_usage_text(program@));
    r
}

/// What the MQTT probe does: publish once, or subscribe and wait for the
/// acknowledgement.
#[derive(Debug, Clone, Copy, PartialEq, Eq, Structural)]
pub enum ProbeMode {
    Publish,
    SubscribeCheck,
}

/// The MQTT probe's settings.
#[derive(Debug, Clone)]
pub struct ProbeConfig {
    pub mode: ProbeMode,
    pub host: String,
    pub port: u16,
    pub client_id: String,
    pub topic: String,
    pub payload: Vec<u8>,
    pub username: Option<String>,
    pub password: Option<String>,
    pub timeout_secs: u64,
}

/// `ProbeConfig` with its text as characters.
pub struct ProbeView {
    pub mode: ProbeMode,
    pub host: Seq<char>,
    pub port: u16,
    pub client_id: Seq<char>,
    pub topic: Seq<char>,
    pub payload: Seq<u8>,
    pub username: Option<Seq<char>>,
    pub password: Option<Seq<char>>,
    pub timeout_secs: u64,
}

pub open spec fn opt_view(o: Option<String>) -> Option<Seq<char>> {
    match o {
        Some(s) => Some(s@),
        None => None,
    }
}

impl View for ProbeConfig {
    type V = ProbeView;

    open spec fn view(&self) -> ProbeView {
        ProbeView {
            mode: self.mode,
            host: self.host@,
            port: self.port,
            client_id: self.client_id@,
            topic: self.topic@,
            payload: self.payload@,
            username: opt_view(self.username),
            password: opt_view(self.password),
            timeout_secs: self.timeout_secs,
        }
    }
}

/// What the probe's command line asks for.
#[derive(Debug, Clone)]
pub enum ProbeCommand {
    Run(ProbeConfig),
    /// `-h` or `--help`: print the usage and stop.
    Help,
}

/// The settings before any argument is read; the client id carries the
/// process id.
pub open spec fn probe_defaults(pid: u32) -> ProbeView {
    ProbeView {
        mode: ProbeMode::Publish,
        host: "127.0.0.1"@,
        port: 1883,
        client_id: "tenon-test-mqtt-"@ + dec(pid as nat),
        topic: "data"@,
        payload: seq![123u8, 125u8],
        username: None,
        password: None,
        timeout_secs: 10,
    }
}

/// The error for an option given without its value.
pub open spec fn missing_value(name: Seq<char>) -> Seq<char> {
    "missing value for "@ + name
}

/// Reads the arguments from `i` on into `c`; `Ok(None)` where help was
/// asked for.
pub open spec fn probe_args(args: Seq<Seq<char>>, i: int, c: ProbeView) -> Result<Option<ProbeView>, Seq<char>>
    decreases args.len() - i,
{
    if i < 1 || i >= args.len() {
        Ok(Some(c))
    } else {
        let a = args[i];
        let has_value = i + 1 < args.len();
        if a == "--publish"@ {
            probe_args(args, i + 1, ProbeView { mode: ProbeMode::Publish, ..c })
        } else if a == "--subscribe-check"@ {
            probe_args(args, i + 1, ProbeView { mode: ProbeMode::SubscribeCheck, ..c })
        } else if a == "--host"@ {
            if has_value { probe_args(args, i + 2, ProbeView { host: args[i + 1], ..c }) } else { Err(missing_value("--host"@)) }
        } else if a == "--port"@ {
            if !has_value {
                Err(missing_value("--port"@))
            } else {
                match parse_int(args[i + 1], false, 0, u16::MAX as int) {
                    Ok(v) => probe_args(args, i + 2, ProbeView { port: v as u16, ..c }),
                    Err(_) => Err("--port must be a u16"@),
                }
            }
        } else if a == "--client-id"@ {
            if has_value { probe_args(args, i + 2, ProbeView { client_id: args[i + 1], ..c }) } else { Err(missing_value("--client-id"@)) }
        } else if a == "--topic"@ {
            if has_value { probe_args(args, i + 2, ProbeView { topic: args[i + 1], ..c }) } else { Err(missing_value("--topic"@)) }
        } else if a == "--payload"@ {
            if has_value {
                probe_args(args, i + 2, ProbeView { payload: encode_utf8(args[i + 1]), ..c })
            } else {
                Err(missing_value("--payload"@))
            }
        } else if a == "--username"@ {
            if has_value {
                probe_args(args, i + 2, ProbeView { username: Some(args[i + 1]), ..c })
            } else {
                Err(missing_value("--username"@))
            }
        } else if a == "--password"@ {
            if has_value {
                probe_args(args, i + 2, ProbeView { password: Some(args[i + 1]), ..c })
            } else {
                Err(missing_value("--password"@))
            }
        } else if a == "--timeout-secs"@ {
            if !has_value {
                Err(missing_value("--timeout-secs"@))
            } else {
                match parse_int(args[i + 1], false, 0, u64::MAX as int) {
                    Ok(v) => probe_args(
                        args,
                        i + 2,
                        ProbeView { timeout_secs: if v < 1 { 1u64 } else { v as u64 }, ..c },
                    ),
                    Err(_) => Err("--timeout-secs must be a positive integer"@),
                }
            }
        } else if a == "-h"@ || a == "--help"@ {
            Ok(None)
        } else {
            Err("unknown argument: "@ + a)
        }
    }
}

pub open spec fn probe_command_view(r: Result<ProbeCommand, String>) -> Result<Option<ProbeView>, Seq<char>> {
    match r {
        Ok(ProbeCommand::Run(c)) => Ok(Some(c@)),
        Ok(ProbeCommand::Help) => Ok(None),
        Err(e) => Err(e@),
    }
}

/// The value after the option at `*index`: moves `*index` onto it.
pub fn next_arg(args: &[String], index: &mut usize, name: &str) -> (r: Result<String, String>)
    requires
        *old(index) < usize::MAX,
    ensures
        *final(index) == *old(index) + 1,
        match r {
            Ok(v) => *final(index) < args@.len() && v@ == args@[*final(index) as int]@,
            Err(e) => *final(index) >= args@.len() && e@ == missing_value(name@),
        },
{
    *index = *index + 1;
    if *index < args.len() {
        Ok(args[*index].clone())
    } else {
        Err(concat("missing value for ", name))
    }
}

/// The UTF-8 bytes of `s`.
fn string_bytes(s: &String) -> (r: Vec<u8>)
    ensures
        r@ == encode_utf8(s@),
{
    let mut out: Vec<u8> = Vec::new();
    crate::ipc::push_bytes(&mut out, s.as_str().as_bytes());
    assert(out@ =~= encode_utf8(s@));
    out
}

impl ProbeConfig {
    /// Reads the probe's command line. `pid` names the default client id.
    #[verifier::rlimit(40)]
    pub fn parse(args: &[String], pid: u32) -> (r: Result<ProbeCommand, String>)
        ensures
            probe_command_view(r) == probe_args(strings_view(args@), 1, probe_defaults(pid)),
    {
        let ghost sv = strings_view(args@);
        let cid = concat("tenon-test-mqtt-", u64_to_string(pid as u64).as_str());
        let mut config = ProbeConfig {
            mode: ProbeMode::Publish,
            host: "127.0.0.1".to_string(),
            port: 1883,
            client_id: cid,
            topic: "data".to_string(),
            payload: vec![123u8, 125u8],
            username: None,
            password: None,
            timeout_secs: 10,
        };
        assert(config@.payload =~= seq![123u8, 125u8]);
        assert(config@ == probe_defaults(pid));
        let mut index: usize = 1;
        while index < args.len()
            invariant
                sv == strings_view(args@),
                1 <= index,
                probe_args(sv, 1, probe_defaults(pid)) == probe_args(sv, index as int, config@),
            decreases args.len() - index,
        {
            let a = args[index].as_str();
            let ghost i = index as int;
            let ghost before = config@;
            assert(a@ == sv[i]);
            if str_eq(a, "--publish") {
                config.mode = ProbeMode::Publish;
            } else if str_eq(a, "--subscribe-check") {
                config.mode = ProbeMode::SubscribeCheck;
            } else if str_eq(a, "--host") {
                config.host = match next_arg(args, &mut index, "--host") { Ok(v) => v, Err(e) => { return Err(e); } };
            } else if str_eq(a, "--port") {
                let v = match next_arg(args, &mut index, "--port") { Ok(v) => v, Err(e) => { return Err(e); } };
                match parse_int_str(v.as_str(), false, 0, 65535) {
                    Ok(p) => {
                        config.port = p as u16;
                    },
                    Err(_) => {
                        return Err("--port must be a u16".to_string());
                    },
                }
            } else if str_eq(a, "--client-id") {
                config.client_id = match next_arg(args, &mut index, "--client-id") { Ok(v) => v, Err(e) => { return Err(e); } };
            } else if str_eq(a, "--topic") {
                config.topic = match next_arg(args, &mut index, "--topic") { Ok(v) => v, Err(e) => { return Err(e); } };
            } else if str_eq(a, "--payload") {
                let v = match next_arg(args, &mut index, "--payload") { Ok(v) => v, Err(e) => { return Err(e); } };
                config.payload = string_bytes(&v);
            } else if str_eq(a, "--username") {
                config.username = Some(match next_arg(args, &mut index, "--username") { Ok(v) => v, Err(e) => { return Err(e); } });
            } else if str_eq(a, "--password") {
                config.password = Some(match next_arg(args, &mut index, "--password") { Ok(v) => v, Err(e) => { return Err(e); } });
            } else if str_eq(a, "--timeout-secs") {
                let v = match next_arg(args, &mut index, "--timeout-secs") { Ok(v) => v, Err(e) => { return Err(e); } };
                match parse_int_str(v.as_str(), false, 0, 18446744073709551615) {
                    Ok(t) => {
                        config.timeout_secs = if t < 1 { 1 } else { t as u64 };
                    },
                    Err(_) => {
                        return Err("--timeout-secs must be a positive integer".to_string());
                    },
                }
            } else if str_eq(a, "-h") || str_eq(a, "--help") {
                return Ok(ProbeCommand::Help);
            } else {
                return Err(concat("unknown argument: ", a));
            }
            index = index + 1;
        }
        Ok(ProbeCommand::Run(config))
    }
}


/// What the metre engine was asked to do.
#[derive(Debug, Clone, PartialEq, Eq)]
pub enum MetreCommand {
    Run { config_path: String },
    /// `-h` or `--help`: print the usage and stop.
    Help { program: String },
}

pub open spec fn metre_view(r: Result<MetreCommand, String>) -> Result<CliView, Seq<char>> {
    match r {
        Ok(MetreCommand::Run { config_path }) => Ok(CliView::Run(config_path@)),
        Ok(MetreCommand::Help { program }) => Ok(CliView::Help(program@)),
        Err(e) => Err(e@),
    }
}

/// The metre engine's command line: only the second argument is read, and
/// a config path is required.
pub open spec fn metre_args(args: Seq<Seq<char>>) -> Result<CliView, Seq<char>> {
    if args.len() <= 1 {
        Err("missing required -c <config.json>"@)
    } else {
        let a = args[1];
        if a == "-c"@ || a == "--config"@ {
            if args.len() > 2 { Ok(CliView::Run(args[2])) } else { Err("missing value for -c/--config"@) }
        } else if a == "-h"@ || a == "--help"@ {
            Ok(CliView::Help(args[0]))
        } else {
            Err("unknown argument: "@ + a)
        }
    }
}

/// Reads the metre engine's command line.
pub fn parse_config_path(args: Vec<String>) -> (r: Result<MetreCommand, String>)
    ensures
        metre_view(r) == metre_args(strings_view(args@)),
{
    let ghost sv = strings_view(args@);
    if args.len() <= 1 {
        return Err("missing required -c <config.json>".to_string());
    }
    let a = args[1].as_str();
    assert(a@ == sv[1]);
    if str_eq(a, "-c") || str_eq(a, "--config") {
        if args.len() > 2 {
            let p = args[2].clone();
            assert(p@ == sv[2]);
            return Ok(MetreCommand::Run { config_path: p });
        }
        return Err("missing value for -c/--config".to_string());
    }
    if str_eq(a, "-h") || str_eq(a, "--help") {
        let program = args[0].clone();
        assert(program@ == sv[0]);
        return Ok(MetreCommand::Help { program });
    }
    Err(concat("unknown argument: ", a))
}

/// What the probe connects with.
#[derive(Debug, Clone, PartialEq, Eq)]
pub struct ProbeMqttOptions {
    pub client_id: String,
    pub host: String,
    pub port: u16,
    pub keep_alive_secs: u64,
    pub clean_start: bool,
    /// User name and password, where a user name is given; the password is
    /// empty where none is.
    pub credentials: Option<(String, String)>,
}

impl ProbeConfig {
    /// The connection options: a five-second keep-alive, a clean start, and
    /// credentials where a user name is set.
    pub fn mqtt_options(&self) -> (r: ProbeMqttOptions)
        ensures
            r.client_id@ == self.client_id@,
            r.host@ == self.host@,
            r.port == self.port,
            r.keep_alive_secs == 5,
            r.clean_start,
            match self.username {
                None => r.credentials is None,
                Some(u) => r.credentials matches Some(c) && c.0@ == u@ && c.1@ == (match self.password {
                    Some(p) => p@,
                    None => Seq::<char>::empty(),
                }),
            },
    {
        let credentials = match &self.username {
            None => None,
            Some(u) => {
                let p = match &self.password {
                    Some(p) => p.clone(),
                    None => String::new(),
                };
                Some((u.clone(), p))
            },
        };
        ProbeMqttOptions {
            client_id: self.client_id.clone(),
            host: self.host.clone(),
            port: self.port,
            keep_alive_secs: 5,
            clean_start: true,
            credentials,
        }
    }
}

} // verus!
