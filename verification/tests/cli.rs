use tenon::cli::{
    next_arg, oss_usage, parse_cli_with_default_resolver, CliCommand, ProbeCommand, ProbeConfig,
    ProbeMode,
};

fn fixed_default_path(path: &str) -> impl FnOnce() -> Result<String, String> + '_ {
    move || Ok(path.to_string())
}

fn args(values: &[&str]) -> Vec<String> {
    values.iter().map(|v| v.to_string()).collect()
}

#[test]
fn explicit_config_arg_wins_over_default() {
    let default_path = "/tmp/tenon-oss-default-config-arg-wins.json";
    let command = parse_cli_with_default_resolver(
        vec!["tenon-oss".to_string(), "-c".to_string(), "custom.json".to_string()],
        fixed_default_path(default_path),
    )
    .unwrap();
    assert_eq!(command, CliCommand::Run { config_path: "custom.json".to_string() });
}

#[test]
fn missing_default_config_returns_default_path() {
    let default_path = "/tmp/tenon-oss-default-config-missing.json";
    let command =
        parse_cli_with_default_resolver(vec!["tenon-oss".to_string()], fixed_default_path(default_path))
            .unwrap();
    assert_eq!(command, CliCommand::Run { config_path: default_path.to_string() });
}

#[test]
fn help_does_not_require_default_config() {
    let command = parse_cli_with_default_resolver(args(&["tenon-oss", "-h"]), || {
        Err("no default config".to_string())
    })
    .unwrap();
    assert_eq!(command, CliCommand::Help { program: "tenon-oss".to_string() });
}

#[test]
fn version_does_not_require_default_config() {
    let command = parse_cli_with_default_resolver(args(&["tenon-oss", "--version"]), || {
        Err("no default config".to_string())
    })
    .unwrap();
    assert_eq!(command, CliCommand::Version);
}

#[test]
fn cli_errors() {
    assert_eq!(
        parse_cli_with_default_resolver(args(&["tenon-oss", "--config"]), || Ok(String::new()))
            .unwrap_err(),
        "missing value for -c/--config"
    );
    assert_eq!(
        parse_cli_with_default_resolver(args(&["tenon-oss", "--bogus"]), || Ok(String::new()))
            .unwrap_err(),
        "unknown argument: --bogus"
    );
    assert_eq!(
        parse_cli_with_default_resolver(args(&["tenon-oss"]), || Err("no home".to_string()))
            .unwrap_err(),
        "no home"
    );
}

#[test]
fn usage_lists_the_three_forms() {
    assert_eq!(
        oss_usage("t"),
        "Usage: t [-c config.json]\n       t -h|--help\n       t --version\nDefault config: ~/.tenon/config.json\n"
    );
}

#[test]
fn probe_defaults_and_options() {
    let cmd = ProbeConfig::parse(&args(&["probe"]), 77).unwrap();
    let ProbeCommand::Run(c) = cmd else { panic!("expected run") };
    assert_eq!(c.mode, ProbeMode::Publish);
    assert_eq!(c.host, "127.0.0.1");
    assert_eq!(c.port, 1883);
    assert_eq!(c.client_id, "tenon-test-mqtt-77");
    assert_eq!(c.topic, "data");
    assert_eq!(c.payload, b"{}".to_vec());
    assert_eq!(c.timeout_secs, 10);

    let cmd = ProbeConfig::parse(
        &args(&[
            "probe", "--subscribe-check", "--host", "h", "--port", "8883", "--client-id", "c",
            "--topic", "t", "--payload", "p", "--username", "u", "--password", "pw",
            "--timeout-secs", "0",
        ]),
        1,
    )
    .unwrap();
    let ProbeCommand::Run(c) = cmd else { panic!("expected run") };
    assert_eq!(c.mode, ProbeMode::SubscribeCheck);
    assert_eq!((c.host.as_str(), c.port, c.client_id.as_str(), c.topic.as_str()), ("h", 8883, "c", "t"));
    assert_eq!(c.payload, b"p".to_vec());
    assert_eq!(c.username.as_deref(), Some("u"));
    assert_eq!(c.password.as_deref(), Some("pw"));
    assert_eq!(c.timeout_secs, 1);
}

#[test]
fn probe_errors_and_help() {
    assert!(matches!(ProbeConfig::parse(&args(&["probe", "-h", "--bogus"]), 1), Ok(ProbeCommand::Help)));
    assert_eq!(
        ProbeConfig::parse(&args(&["probe", "--port", "70000"]), 1).unwrap_err(),
        "--port must be a u16"
    );
    assert_eq!(
        ProbeConfig::parse(&args(&["probe", "--timeout-secs", "-1"]), 1).unwrap_err(),
        "--timeout-secs must be a positive integer"
    );
    assert_eq!(ProbeConfig::parse(&args(&["probe", "--host"]), 1).unwrap_err(), "missing value for --host");
    assert_eq!(ProbeConfig::parse(&args(&["probe", "x"]), 1).unwrap_err(), "unknown argument: x");
}

#[test]
fn next_arg_moves_past_the_option() {
    let a = args(&["p", "--host", "h"]);
    let mut index = 1;
    assert_eq!(next_arg(&a, &mut index, "--host").unwrap(), "h");
    assert_eq!(index, 2);
    assert_eq!(next_arg(&a, &mut index, "--x").unwrap_err(), "missing value for --x");
    assert_eq!(index, 3);
}
