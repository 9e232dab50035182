//! What is set up for a command line.

use mcp_proxy::cli::{Cli, LogLevel, Transport, VerifySsl};
use mcp_proxy::config_loader::{ConfigError, SkippedEntry};
use mcp_proxy::http_client::configure_http_client;
use mcp_proxy::startup::{
    build_default_server_config, build_named_server_configs, config_from_words, configs_of_pairs,
    mount_path, plan_client, plan_cors, plan_server, severity,
    skipped_severity, CorsOrigins, Severity, StartupError,
    STDIO_TIMEOUT_SECS,
};
use mcp_proxy::table::Table;
use std::io::ErrorKind;
use std::path::PathBuf;

fn empty() -> Cli {
    Cli {
        command_or_url: None,
        headers: vec![],
        transport: Transport::Streamablehttp,
        client_id: None,
        client_secret: None,
        token_url: None,
        verify_ssl: None,
        no_verify_ssl: false,
        args: vec![],
        env: vec![],
        cwd: None,
        pass_environment: false,
        log_level: LogLevel::Info,
        debug: false,
        named_server_definitions: vec![],
        named_server_config: None,
        port: 0,
        host: "127.0.0.1".to_string(),
        stateless: false,
        allow_origin: vec![],
        expose_headers: None,
        upstream_pool_size: 4,
        upstream_timeout_secs: 30,
    }
}

fn texts(list: &[&str]) -> Vec<String> {
    list.iter().map(|text| text.to_string()).collect()
}

fn remote() -> Cli {
    let mut cli = empty();
    cli.command_or_url = Some("https://example.com/mcp".to_string());
    cli
}

fn local() -> Cli {
    let mut cli = empty();
    cli.command_or_url = Some("run".to_string());
    cli
}

fn value<'a>(table: &'a Table<String, String>, name: &str) -> Option<&'a str> {
    table.get(&name.to_string()).map(String::as_str)
}

#[test]
fn default_server_has_command_args_env_and_cwd() {
    let mut cli = local();
    cli.args = texts(&["-v", "x y"]);
    cli.env = texts(&["A", "cli", "B", "first", "B", "second"]);
    cli.cwd = Some(PathBuf::from("/work"));
    let mut base_env = Table::new();
    base_env.insert("A".to_string(), "base".to_string());
    base_env.insert("C".to_string(), "base".to_string());

    let config = build_default_server_config(&cli, &base_env).unwrap();
    assert_eq!(config.command, "run");
    assert_eq!(config.args, texts(&["-v", "x y"]));
    assert_eq!(config.cwd, Some(PathBuf::from("/work")));
    assert_eq!(config.env.len(), 3);
    assert_eq!(value(&config.env, "A"), Some("cli"));
    assert_eq!(value(&config.env, "B"), Some("second"));
    assert_eq!(value(&config.env, "C"), Some("base"));
}

#[test]
fn urls_and_absent_commands_have_no_default_server() {
    assert!(build_default_server_config(&remote(), &Table::new()).is_none());
    assert!(build_default_server_config(&empty(), &Table::new()).is_none());
    let mut cli = empty();
    cli.command_or_url = Some("httpd".to_string());
    assert!(!cli.is_client_mode());
    assert!(build_default_server_config(&cli, &Table::new()).is_some());
}

#[test]
fn valid_command_lines_have_servers() {
    for cli in [local(), empty()] {
        if cli.validate().is_ok() {
            assert!(build_default_server_config(&cli, &Table::new()).is_some());
        }
    }
    assert!(empty().validate().is_err());
}

#[test]
fn named_servers_come_from_command_strings() {
    let mut cli = empty();
    cli.named_server_definitions =
        texts(&["fetch", "uvx mcp-server-fetch", "quoted", "'my server' --flag \"a b\" c\\ d"]);
    let mut base_env = Table::new();
    base_env.insert("A".to_string(), "base".to_string());
    // The command line's environment is the default server's alone.
    cli.env = texts(&["B", "b"]);

    let named = build_named_server_configs(&cli, &base_env, None).unwrap();
    assert_eq!(named.configs.len(), 2);
    assert!(named.skipped.is_empty());
    let fetch = named.configs.get(&"fetch".to_string()).unwrap();
    assert_eq!(fetch.command, "uvx");
    assert_eq!(fetch.args, texts(&["mcp-server-fetch"]));
    assert_eq!(fetch.env.len(), 1);
    assert_eq!(value(&fetch.env, "A"), Some("base"));
    assert_eq!(fetch.cwd, None);
    let quoted = named.configs.get(&"quoted".to_string()).unwrap();
    assert_eq!(quoted.command, "my server");
    assert_eq!(quoted.args, texts(&["--flag", "a b", "c d"]));
}

#[test]
fn a_name_that_is_given_twice_is_the_last_server() {
    let pairs = vec![
        ("s".to_string(), "one".to_string()),
        ("t".to_string(), "two".to_string()),
        ("s".to_string(), "three".to_string()),
    ];
    let configs = configs_of_pairs(&pairs, &Table::new()).unwrap();
    assert_eq!(configs.len(), 2);
    assert_eq!(configs.get(&"s".to_string()).unwrap().command, "three");
}

#[test]
fn unclosed_quotes_are_errors() {
    let mut cli = empty();
    cli.named_server_definitions = texts(&["ok", "run", "bad", "run 'x", "worse", ""]);
    let error = build_named_server_configs(&cli, &Table::new(), None).unwrap_err();
    assert!(matches!(&error, StartupError::InvalidCommand { name, .. } if name == "bad"));
    assert_eq!(
        error.message("not used"),
        "invalid command string for --named-server 'bad': missing closing quote"
    );
}

#[test]
fn empty_command_strings_are_errors() {
    let mut cli = empty();
    cli.named_server_definitions = texts(&["ok", "run", "blank", "  ", "bad", "run 'x"]);
    let error = build_named_server_configs(&cli, &Table::new(), None).unwrap_err();
    assert!(matches!(&error, StartupError::EmptyCommand { name } if name == "blank"));
    assert_eq!(
        error.message("not used"),
        "empty command string for --named-server 'blank'"
    );
}

#[test]
fn words_make_a_server() {
    let config = config_from_words("s", Ok(texts(&["run", "a", "b"])), &Table::new()).unwrap();
    assert_eq!(config.command, "run");
    assert_eq!(config.args, texts(&["a", "b"]));
    assert!(matches!(
        config_from_words("s", Ok(vec![]), &Table::new()),
        Err(StartupError::EmptyCommand { .. })
    ));
    assert!(matches!(
        config_from_words("s", Err(shell_words::ParseError), &Table::new()),
        Err(StartupError::InvalidCommand { .. })
    ));
}

#[test]
fn configuration_file_has_priority() {
    let mut cli = empty();
    cli.named_server_definitions = texts(&["bad", "'"]);
    cli.named_server_config = Some(PathBuf::from("servers.json"));
    let text = r#"{"mcpServers": {"file": {"command": "x"}, "off": {"enabled": false}}}"#;
    let named =
        build_named_server_configs(&cli, &Table::new(), Some(Ok(text.to_string()))).unwrap();
    assert_eq!(named.configs.len(), 1);
    assert!(named.configs.contains_key(&"file".to_string()));
    assert_eq!(named.skipped, vec![("off".to_string(), SkippedEntry::Disabled)]);
}

#[test]
fn configuration_file_errors_are_passed_on() {
    let mut cli = empty();
    cli.named_server_config = Some(PathBuf::from("servers.json"));
    let error = build_named_server_configs(
        &cli,
        &Table::new(),
        Some(Err(ErrorKind::PermissionDenied.into())),
    )
    .unwrap_err();
    assert!(matches!(&error, StartupError::Config(ConfigError::Io { .. })));
    assert_eq!(
        error.message("no luck"),
        "failed to load named server config: failed to read config file servers.json: no luck"
    );
    let error =
        build_named_server_configs(&cli, &Table::new(), Some(Ok("[".to_string()))).unwrap_err();
    match &error {
        StartupError::Config(ConfigError::Json { path, source }) => {
            assert_eq!(path, &PathBuf::from("servers.json"));
            let text = source.to_string();
            assert_eq!(text, serde_json::from_str::<serde_json::Value>("[").unwrap_err().to_string());
            assert_eq!(
                error.message(&text),
                format!("failed to load named server config: invalid JSON in config file servers.json: {text}")
            );
        }
        other => panic!("unexpected error: {other:?}"),
    }
}

#[test]
fn client_plan_has_url_pool_and_timeout() {
    let plan = plan_client(&remote(), None, None);
    assert_eq!(plan.url, "https://example.com/mcp");
    assert!(plan.headers.is_empty());
    assert_eq!(plan.verify_ssl, None);
    assert_eq!(plan.pool_size, 4);
    assert_eq!(plan.timeout_secs, 30);
}

#[test]
fn client_opens_at_least_one_connection() {
    let mut cli = remote();
    cli.upstream_pool_size = 0;
    assert_eq!(plan_client(&cli, None, None).pool_size, 1);
    cli.upstream_pool_size = 1;
    assert_eq!(plan_client(&cli, None, None).pool_size, 1);
}

#[test]
fn tokens_override_the_authorization() {
    let mut cli = remote();
    cli.headers = texts(&["Authorization", "Basic abc", "X-A", "a"]);
    let header = |plan: &mcp_proxy::startup::ClientPlan| {
        value(&plan.headers, "Authorization").unwrap().to_string()
    };
    assert_eq!(header(&plan_client(&cli, None, None)), "Basic abc");
    assert_eq!(header(&plan_client(&cli, Some("api"), None)), "Bearer api");
    assert_eq!(header(&plan_client(&cli, None, Some("oauth"))), "Bearer oauth");
    let plan = plan_client(&cli, Some("api"), Some("oauth"));
    assert_eq!(header(&plan), "Bearer oauth");
    assert_eq!(value(&plan.headers, "X-A"), Some("a"));
    assert_eq!(plan.headers.len(), 2);
}

#[test]
fn tokens_override_an_authorization_in_another_case() {
    let mut cli = remote();
    cli.headers = texts(&["Authorization", "Basic abc", "authorization", "Basic def"]);
    let plan = plan_client(&cli, Some("api"), None);
    let builder = configure_http_client(&plan.headers, None, None).unwrap();
    let shown = format!("{builder:?}");
    assert!(shown.contains("\"authorization\": \"Bearer api\""), "{shown}");
}

#[test]
fn client_plan_says_how_to_verify() {
    let mut cli = remote();
    cli.verify_ssl = Some(" No ".to_string());
    assert_eq!(plan_client(&cli, None, None).verify_ssl, Some(VerifySsl::Off));
    cli.verify_ssl = Some("/etc/ca.pem".to_string());
    assert_eq!(
        plan_client(&cli, None, None).verify_ssl,
        Some(VerifySsl::CaBundle(PathBuf::from("/etc/ca.pem")))
    );
    cli.no_verify_ssl = true;
    assert_eq!(plan_client(&cli, None, None).verify_ssl, Some(VerifySsl::Off));
}

#[test]
fn server_plan_listens_on_host_and_port() {
    let mut cli = local();
    cli.port = 8080;
    cli.stateless = true;
    let plan = plan_server(&cli, &vec![], None).unwrap();
    assert_eq!(plan.address, "127.0.0.1:8080");
    assert!(plan.stateless);
    assert!(plan.cors.is_none());
    assert_eq!(plan.default_server.unwrap().command, "run");
    assert!(plan.named_servers.configs.is_empty());

    let plan = plan_server(&empty(), &vec![], None).unwrap();
    assert_eq!(plan.address, "127.0.0.1:0");
    assert!(plan.default_server.is_none());
}

#[test]
fn environment_is_passed_on_only_if_asked() {
    let process_env = vec![("A".to_string(), "a".to_string())];
    let mut cli = local();
    let plan = plan_server(&cli, &process_env, None).unwrap();
    assert!(plan.default_server.unwrap().env.is_empty());
    cli.pass_environment = true;
    let plan = plan_server(&cli, &process_env, None).unwrap();
    assert_eq!(value(&plan.default_server.unwrap().env, "A"), Some("a"));
}

#[test]
fn server_plan_fails_with_the_named_servers() {
    let mut cli = local();
    cli.named_server_definitions = texts(&["s", ""]);
    assert!(matches!(
        plan_server(&cli, &vec![], None),
        Err(StartupError::EmptyCommand { .. })
    ));
}

#[test]
fn cors_lists_the_origins_and_headers_that_are_valid() {
    let mut cli = local();
    cli.allow_origin = texts(&["https://a.com", "a\nb", "https://b.com"]);
    let cors = plan_cors(&cli).unwrap();
    match cors.origins {
        CorsOrigins::List(list) => {
            assert_eq!(list.len(), 2);
            assert_eq!(list[0], "https://a.com");
            assert_eq!(list[1], "https://b.com");
        }
        CorsOrigins::Any => panic!("not every origin is allowed"),
    }
    assert_eq!(cors.expose.len(), 1);
    assert_eq!(cors.expose[0].as_str(), "mcp-session-id");

    cli.expose_headers = Some(texts(&["X-Foo", "not valid"]));
    let cors = plan_cors(&cli).unwrap();
    assert_eq!(cors.expose.len(), 1);
    assert_eq!(cors.expose[0].as_str(), "x-foo");
}

#[test]
fn a_star_allows_any_origin() {
    let mut cli = local();
    cli.allow_origin = texts(&["*"]);
    assert!(matches!(plan_cors(&cli).unwrap().origins, CorsOrigins::Any));
    cli.allow_origin = texts(&["https://a.com", "*"]);
    assert!(matches!(plan_cors(&cli).unwrap().origins, CorsOrigins::Any));
}

#[test]
fn no_origins_no_cors() {
    assert!(plan_cors(&local()).is_none());
}

#[test]
fn every_server_has_its_url() {
    let mut cli = local();
    cli.named_server_definitions = texts(&["fetch", "uvx fetch", "github", "npx github"]);
    let plan = plan_server(&cli, &vec![], None).unwrap();
    assert_eq!(
        plan.endpoints("127.0.0.1:4711"),
        texts(&[
            "http://127.0.0.1:4711/mcp",
            "http://127.0.0.1:4711/servers/fetch/mcp",
            "http://127.0.0.1:4711/servers/github/mcp",
        ])
    );
    assert_eq!(mount_path("fetch"), "/servers/fetch");

    cli.command_or_url = None;
    let plan = plan_server(&cli, &vec![], None).unwrap();
    assert_eq!(plan.endpoints("h:1").len(), 2);
}

#[test]
fn log_levels_have_severities() {
    assert_eq!(severity(LogLevel::Debug), Severity::Debug);
    assert_eq!(severity(LogLevel::Info), Severity::Info);
    assert_eq!(severity(LogLevel::Warning), Severity::Warn);
    assert_eq!(severity(LogLevel::Error), Severity::Error);
    assert_eq!(severity(LogLevel::Critical), Severity::Error);
}

#[test]
fn local_servers_have_half_a_minute() {
    assert_eq!(STDIO_TIMEOUT_SECS, 30);
}

#[test]
fn every_skipped_entry_is_worth_a_warning() {
    for reason in [
        SkippedEntry::NotAnObject,
        SkippedEntry::Disabled,
        SkippedEntry::InvalidCommand,
        SkippedEntry::NonTextArgument,
        SkippedEntry::ArgsNotAList,
    ] {
        assert_eq!(skipped_severity(reason), Severity::Warn);
    }
}
