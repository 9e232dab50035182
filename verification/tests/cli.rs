//! The meaning of the command line, from argument lists to effective values.

use clap::{Arg, ArgAction, Command};
use mcp_proxy::cli::{Cli, CliError, LogLevel, Transport, VerifySsl};
use std::path::PathBuf;

/// One `--flag KEY VALUE` option that may be repeated.
fn pair_option(name: &'static str, long: &'static str) -> Arg {
    Arg::new(name).long(long).num_args(2).action(ArgAction::Append)
}

fn value(name: &'static str, long: &'static str) -> Arg {
    Arg::new(name).long(long).action(ArgAction::Set)
}

fn flag(name: &'static str, long: &'static str) -> Arg {
    Arg::new(name).long(long).action(ArgAction::SetTrue)
}

fn command() -> Command {
    Command::new("mcp-proxy")
        .arg(Arg::new("command_or_url").env("MCP_URL"))
        .arg(pair_option("headers", "headers").short('H'))
        .arg(value("transport", "transport").value_parser(["streamablehttp"]).default_value("streamablehttp"))
        .arg(value("client_id", "client-id"))
        .arg(value("client_secret", "client-secret"))
        .arg(value("token_url", "token-url"))
        .arg(value("verify_ssl", "verify-ssl").num_args(0..=1).default_missing_value("true"))
        .arg(flag("no_verify_ssl", "no-verify-ssl"))
        .arg(Arg::new("args").num_args(1..).action(ArgAction::Append))
        .arg(pair_option("env", "env").short('e'))
        .arg(value("cwd", "cwd"))
        .arg(flag("pass_environment", "pass-environment"))
        .arg(
            value("log_level", "log-level")
                .value_parser(["DEBUG", "INFO", "WARNING", "ERROR", "CRITICAL"])
                .default_value("INFO"),
        )
        .arg(flag("debug", "debug"))
        .arg(pair_option("named_server_definitions", "named-server"))
        .arg(value("named_server_config", "named-server-config"))
        .arg(value("port", "port").default_value("0"))
        .arg(value("host", "host").default_value("127.0.0.1"))
        .arg(flag("stateless", "stateless"))
        .arg(Arg::new("allow_origin").long("allow-origin").num_args(1..).action(ArgAction::Append))
        .arg(Arg::new("expose_headers").long("expose-header").action(ArgAction::Append))
        .arg(value("upstream_pool_size", "upstream-pool-size").default_value("4"))
        .arg(value("upstream_timeout_secs", "upstream-timeout-secs").default_value("30"))
}

fn parse(args: &[&str]) -> Cli {
    let mut full = vec!["mcp-proxy"];
    full.extend_from_slice(args);
    let matches = command().get_matches_from(full);
    let one = |name: &str| matches.get_one::<String>(name).cloned();
    let many = |name: &str| -> Option<Vec<String>> {
        matches.get_many::<String>(name).map(|values| values.cloned().collect())
    };
    let log_level = match one("log_level").unwrap().as_str() {
        "DEBUG" => LogLevel::Debug,
        "INFO" => LogLevel::Info,
        "WARNING" => LogLevel::Warning,
        "ERROR" => LogLevel::Error,
        _ => LogLevel::Critical,
    };
    Cli {
        command_or_url: one("command_or_url"),
        headers: many("headers").unwrap_or_default(),
        transport: Transport::Streamablehttp,
        client_id: one("client_id"),
        client_secret: one("client_secret"),
        token_url: one("token_url"),
        verify_ssl: one("verify_ssl"),
        no_verify_ssl: matches.get_flag("no_verify_ssl"),
        args: many("args").unwrap_or_default(),
        env: many("env").unwrap_or_default(),
        cwd: one("cwd").map(PathBuf::from),
        pass_environment: matches.get_flag("pass_environment"),
        log_level,
        debug: matches.get_flag("debug"),
        named_server_definitions: many("named_server_definitions").unwrap_or_default(),
        named_server_config: one("named_server_config").map(PathBuf::from),
        port: one("port").unwrap().parse().unwrap(),
        host: one("host").unwrap(),
        stateless: matches.get_flag("stateless"),
        allow_origin: many("allow_origin").unwrap_or_default(),
        expose_headers: many("expose_headers"),
        upstream_pool_size: one("upstream_pool_size").unwrap().parse().unwrap(),
        upstream_timeout_secs: one("upstream_timeout_secs").unwrap().parse().unwrap(),
    }
}

#[test]
fn verify_ssl_unset_is_none() {
    let cli = parse(&["http://localhost:8080/mcp", "--transport", "streamablehttp"]);
    assert_eq!(cli.verify_ssl(), None);
}

#[test]
fn verify_ssl_bare_flag_is_true() {
    // `--verify-ssl` stands last: its optional value would otherwise swallow
    // the next positional.
    let cli = parse(&["http://localhost:8080/mcp", "--transport", "streamablehttp", "--verify-ssl"]);
    assert_eq!(cli.verify_ssl(), Some(VerifySsl::On));
}

#[test]
fn verify_ssl_false_string() {
    let cli = parse(&[
        "--verify-ssl",
        "false",
        "http://localhost:8080/mcp",
        "--transport",
        "streamablehttp",
    ]);
    assert_eq!(cli.verify_ssl(), Some(VerifySsl::Off));
}

#[test]
fn verify_ssl_case_insensitive() {
    let cli = parse(&[
        "--verify-ssl",
        "OFF",
        "http://localhost:8080/mcp",
        "--transport",
        "streamablehttp",
    ]);
    assert_eq!(cli.verify_ssl(), Some(VerifySsl::Off));
}

#[test]
fn verify_ssl_path_to_ca_bundle() {
    let cli = parse(&[
        "--verify-ssl",
        "/etc/ssl/cert.pem",
        "http://localhost:8080/mcp",
        "--transport",
        "streamablehttp",
    ]);
    assert_eq!(cli.verify_ssl(), Some(VerifySsl::CaBundle(PathBuf::from("/etc/ssl/cert.pem"))));
}

#[test]
fn no_verify_ssl_alias() {
    let cli = parse(&[
        "--no-verify-ssl",
        "http://localhost:8080/mcp",
        "--transport",
        "streamablehttp",
    ]);
    assert_eq!(cli.verify_ssl(), Some(VerifySsl::Off));
}

#[test]
fn expose_header_default_is_mcp_session_id() {
    let cli = parse(&["mycommand"]);
    assert_eq!(cli.effective_expose_headers(), vec!["mcp-session-id".to_string()]);
}

#[test]
fn expose_header_custom_overrides_default() {
    let cli = parse(&["mycommand", "--expose-header", "X-Foo", "--expose-header", "X-Bar"]);
    assert_eq!(
        cli.effective_expose_headers(),
        vec!["X-Foo".to_string(), "X-Bar".to_string()]
    );
}

#[test]
fn header_pairs_reconstructed_from_flat_repeated_args() {
    let cli = parse(&[
        "http://localhost:8080/mcp",
        "--transport",
        "streamablehttp",
        "-H",
        "Authorization",
        "Bearer abc",
        "-H",
        "X-Custom",
        "value",
    ]);
    assert_eq!(
        cli.header_pairs(),
        vec![
            ("Authorization".to_string(), "Bearer abc".to_string()),
            ("X-Custom".to_string(), "value".to_string()),
        ]
    );
}

#[test]
fn named_server_pairs_reconstructed() {
    let cli = parse(&[
        "--named-server",
        "fetch",
        "uvx mcp-server-fetch",
        "--named-server",
        "github",
        "npx server-github",
    ]);
    assert_eq!(
        cli.named_server_pairs(),
        vec![
            ("fetch".to_string(), "uvx mcp-server-fetch".to_string()),
            ("github".to_string(), "npx server-github".to_string()),
        ]
    );
}

#[test]
fn debug_overrides_log_level() {
    let cli = parse(&["mycommand", "--log-level", "WARNING", "--debug"]);
    assert_eq!(cli.effective_log_level(), LogLevel::Debug);
}

#[test]
fn validate_requires_at_least_one_server_source() {
    let cli = parse(&[]);
    assert!(matches!(cli.validate(), Err(CliError::NoServerSpecified)));
}

#[test]
fn validate_passes_with_command_or_url() {
    let cli = parse(&["mycommand"]);
    assert!(cli.validate().is_ok());
}

#[test]
fn validate_passes_with_named_server() {
    let cli = parse(&["--named-server", "fetch", "uvx mcp-server-fetch"]);
    assert!(cli.validate().is_ok());
}

#[test]
fn validate_passes_with_http_url_default_transport() {
    let cli = parse(&["http://localhost:8080/mcp"]);
    assert!(cli.validate().is_ok(), "client mode with default transport should succeed");
}

#[test]
fn is_client_mode_detects_http_url() {
    assert!(parse(&["http://localhost:8080/mcp"]).is_client_mode());
    assert!(parse(&["https://localhost:8080/mcp"]).is_client_mode());
    assert!(!parse(&["mycommand"]).is_client_mode());
}

#[test]
fn oauth2_requires_all_three_fields() {
    let cli = parse(&["mycommand", "--client-id", "id", "--client-secret", "secret"]);
    assert_eq!(cli.oauth2_client_credentials(), None);

    let cli = parse(&[
        "mycommand",
        "--client-id",
        "id",
        "--client-secret",
        "secret",
        "--token-url",
        "https://example.com/token",
    ]);
    assert_eq!(
        cli.oauth2_client_credentials(),
        Some((
            "id".to_string(),
            "secret".to_string(),
            "https://example.com/token".to_string()
        ))
    );
}

#[test]
fn allow_origin_empty_is_none() {
    let cli = parse(&["mycommand"]);
    assert_eq!(cli.effective_allow_origins(), None);
}

#[test]
fn allow_origin_collects_multiple_values() {
    let cli = parse(&["mycommand", "--allow-origin", "https://a.com", "https://b.com"]);
    assert_eq!(
        cli.effective_allow_origins(),
        Some(vec!["https://a.com".to_string(), "https://b.com".to_string()])
    );
}

#[test]
fn extra_args_collected_for_default_server() {
    let cli = parse(&["--", "mycommand", "--arg1", "value1", "--arg2", "value2"]);
    assert_eq!(cli.command_or_url, Some("mycommand".to_string()));
    assert_eq!(
        cli.args,
        vec!["--arg1".to_string(), "value1".to_string(), "--arg2".to_string(), "value2".to_string()]
    );
}

#[test]
fn verify_ssl_ignores_case_and_white_space() {
    for value in ["yes", "YES", " Yes\t", "\u{3000}on\u{a0}"] {
        let cli = parse(&["http://localhost:8080/mcp", "--verify-ssl", value]);
        assert_eq!(cli.verify_ssl(), Some(VerifySsl::On));
    }
    let cli = parse(&["http://localhost:8080/mcp", "--verify-ssl", " /A/Path "]);
    assert_eq!(cli.verify_ssl(), Some(VerifySsl::CaBundle(PathBuf::from(" /A/Path "))));
}

#[test]
fn no_verify_ssl_wins() {
    let cli = parse(&["http://localhost:8080/mcp", "--no-verify-ssl", "--verify-ssl", "true"]);
    assert_eq!(cli.verify_ssl(), Some(VerifySsl::Off));
}

#[test]
fn api_access_token_overrides_the_authorization() {
    let cli = parse(&["http://localhost:8080/mcp", "-H", "Authorization", "Basic a", "-H", "X", "x"]);
    let plain = cli.effective_client_headers(None);
    assert_eq!(plain.len(), 2);
    assert_eq!(plain.get(&"Authorization".to_string()).unwrap(), "Basic a");
    let with_token = cli.effective_client_headers(Some("abc"));
    assert_eq!(with_token.len(), 2);
    assert_eq!(with_token.get(&"Authorization".to_string()).unwrap(), "Bearer abc");
    assert_eq!(with_token.get(&"X".to_string()).unwrap(), "x");
    assert_eq!(with_token.entry(1).0, "Authorization");
}

#[test]
fn base_env_is_empty_unless_it_is_passed_on() {
    let process_env = vec![("A".to_string(), "a".to_string())];
    assert!(parse(&["mycommand"]).base_env(&process_env).is_empty());
    let env = parse(&["mycommand", "--pass-environment"]).base_env(&process_env);
    assert_eq!(env.get(&"A".to_string()).unwrap(), "a");
}

#[test]
fn log_level_is_the_given_one() {
    assert_eq!(parse(&["mycommand"]).effective_log_level(), LogLevel::Info);
    let cli = parse(&["mycommand", "--log-level", "CRITICAL"]);
    assert_eq!(cli.effective_log_level(), LogLevel::Critical);
}

#[test]
fn host_and_port_are_the_given_ones() {
    let cli = parse(&["mycommand", "--host", "0.0.0.0", "--port", "8080"]);
    assert_eq!(cli.effective_bind_host(), "0.0.0.0");
    assert_eq!(cli.effective_port(), 8080);
}

#[test]
fn env_pairs_reconstructed() {
    let cli = parse(&["mycommand", "-e", "KEY", "VALUE", "-e", "OTHER", "X"]);
    assert_eq!(
        cli.env_pairs(),
        vec![
            ("KEY".to_string(), "VALUE".to_string()),
            ("OTHER".to_string(), "X".to_string()),
        ]
    );
}

#[test]
fn validate_passes_with_a_configuration_file() {
    assert!(parse(&["--named-server-config", "servers.json"]).validate().is_ok());
}
