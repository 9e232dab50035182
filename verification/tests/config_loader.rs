//! Named servers, from the text of a configuration file.

use mcp_proxy::config_loader::{
    load_named_server_configs_from_file, parse_server_entry, ConfigError, NamedServers,
    SkippedEntry, StdioServerConfig,
};
use mcp_proxy::json::{parse_json, Json};
use mcp_proxy::table::Table;
use std::io::ErrorKind;
use std::path::PathBuf;

fn load_with(
    contents: &str,
    base_env: &Table<String, String>,
) -> Result<NamedServers, ConfigError> {
    load_named_server_configs_from_file(
        &PathBuf::from("config.json"),
        Ok(contents.to_string()),
        base_env,
    )
}

fn load(contents: &str) -> Result<NamedServers, ConfigError> {
    load_with(contents, &Table::new())
}

fn server<'a>(named: &'a NamedServers, name: &str) -> &'a StdioServerConfig {
    named.configs.get(&name.to_string()).expect("the server is there")
}

fn has(named: &NamedServers, name: &str) -> bool {
    named.configs.contains_key(&name.to_string())
}

fn variable(env: &Table<String, String>, name: &str) -> Option<String> {
    env.get(&name.to_string()).cloned()
}

#[test]
fn loads_multiple_enabled_servers() {
    let result = load(
        r#"{
            "mcpServers": {
                "fetch": {"command": "uvx", "args": ["mcp-server-fetch"]},
                "github": {"command": "npx", "args": ["-y", "@modelcontextprotocol/server-github"]}
            }
        }"#,
    )
    .unwrap();
    assert_eq!(result.configs.len(), 2);
    assert_eq!(server(&result, "fetch").command, "uvx");
    assert_eq!(server(&result, "fetch").args, vec!["mcp-server-fetch".to_string()]);
    assert_eq!(
        server(&result, "github").args,
        vec!["-y".to_string(), "@modelcontextprotocol/server-github".to_string()]
    );
}

#[test]
fn skips_disabled_server() {
    let result = load(
        r#"{"mcpServers": {"disabled": {"command": "x", "enabled": false}, "ok": {"command": "y"}}}"#,
    )
    .unwrap();
    assert_eq!(result.configs.len(), 1);
    assert!(has(&result, "ok"));
    assert_eq!(result.skipped, vec![("disabled".to_string(), SkippedEntry::Disabled)]);
}

#[test]
fn enabled_defaults_to_true() {
    let result = load(r#"{"mcpServers": {"ok": {"command": "y"}}}"#).unwrap();
    assert!(has(&result, "ok"));
}

#[test]
fn skips_entry_missing_command() {
    let result =
        load(r#"{"mcpServers": {"bad": {"args": ["x"]}, "ok": {"command": "y"}}}"#).unwrap();
    assert_eq!(result.configs.len(), 1);
    assert!(has(&result, "ok"));
    assert_eq!(result.skipped, vec![("bad".to_string(), SkippedEntry::InvalidCommand)]);
}

#[test]
fn skips_entry_with_non_list_args() {
    let result = load(
        r#"{"mcpServers": {"bad": {"command": "x", "args": "not-a-list"}, "ok": {"command": "y"}}}"#,
    )
    .unwrap();
    assert_eq!(result.configs.len(), 1);
    assert!(has(&result, "ok"));
    assert_eq!(result.skipped, vec![("bad".to_string(), SkippedEntry::ArgsNotAList)]);
}

#[test]
fn skips_non_object_entry() {
    let result =
        load(r#"{"mcpServers": {"bad": "not-an-object", "ok": {"command": "y"}}}"#).unwrap();
    assert_eq!(result.configs.len(), 1);
    assert!(has(&result, "ok"));
    assert_eq!(result.skipped, vec![("bad".to_string(), SkippedEntry::NotAnObject)]);
}

#[test]
fn empty_mcp_servers_yields_empty_map() {
    let result = load(r#"{"mcpServers": {}}"#).unwrap();
    assert!(result.configs.is_empty());
}

#[test]
fn missing_mcp_servers_key_is_an_error() {
    let err = load(r#"{"somethingElse": {}}"#).unwrap_err();
    assert!(matches!(err, ConfigError::MissingMcpServers { .. }));
}

#[test]
fn invalid_json_is_an_error() {
    let err = load("not json").unwrap_err();
    assert!(matches!(err, ConfigError::Json { .. }));
}

#[test]
fn missing_file_is_an_error() {
    let path = PathBuf::from("/nonexistent/path/config.json");
    let err = load_named_server_configs_from_file(
        &path,
        Err(ErrorKind::NotFound.into()),
        &Table::new(),
    )
    .unwrap_err();
    match err {
        ConfigError::Io { path: reported, source } => {
            assert_eq!(reported, path);
            assert_eq!(source.kind(), ErrorKind::NotFound);
        }
        other => panic!("unexpected error: {other:?}"),
    }
}

#[test]
fn env_merges_base_then_overlays_entry_env() {
    let mut base_env = Table::new();
    base_env.insert("A".to_string(), "base".to_string());
    base_env.insert("C".to_string(), "base-only".to_string());

    let result = load_with(
        r#"{"mcpServers": {"ok": {"command": "y", "env": {"A": "entry", "B": "entry-only"}}}}"#,
        &base_env,
    )
    .unwrap();
    let env = &server(&result, "ok").env;
    assert_eq!(variable(env, "A").as_deref(), Some("entry"));
    assert_eq!(variable(env, "B").as_deref(), Some("entry-only"));
    assert_eq!(variable(env, "C").as_deref(), Some("base-only"));
}

#[test]
fn ignores_unknown_fields_like_timeout_and_transport_type() {
    let result = load(
        r#"{"mcpServers": {"ok": {"command": "y", "timeout": 60, "transportType": "stdio"}}}"#,
    )
    .unwrap();
    assert!(has(&result, "ok"));
}

#[test]
fn other_fields_make_no_difference() {
    let plain = load(r#"{"mcpServers": {"s": {"command": "y", "args": ["1"]}}}"#).unwrap();
    let with_more = load(
        r#"{"mcpServers": {"s": {"timeout": 1, "command": "y", "args": ["1"], "x": {"y": null}}}}"#,
    )
    .unwrap();
    let (a, b) = (server(&plain, "s"), server(&with_more, "s"));
    assert_eq!((&a.command, &a.args, &a.cwd), (&b.command, &b.args, &b.cwd));
    assert_eq!(a.env.len(), b.env.len());
}

#[test]
fn skips_entry_with_an_argument_that_is_no_text() {
    let result = load(
        r#"{"mcpServers": {"bad": {"command": "x", "args": ["a", 1]}, "ok": {"command": "y"}}}"#,
    )
    .unwrap();
    assert!(!has(&result, "bad"));
    assert!(has(&result, "ok"));
    assert_eq!(result.skipped, vec![("bad".to_string(), SkippedEntry::NonTextArgument)]);
}

#[test]
fn skips_entry_whose_command_is_no_text() {
    let result = load(r#"{"mcpServers": {"bad": {"command": 7}}}"#).unwrap();
    assert!(result.configs.is_empty());
    assert_eq!(result.skipped, vec![("bad".to_string(), SkippedEntry::InvalidCommand)]);
}

#[test]
fn enabled_counts_only_where_it_is_a_truth_value() {
    let result = load(
        r#"{"mcpServers": {"text": {"command": "x", "enabled": "false"}, "null": {"command": "x", "enabled": null}}}"#,
    )
    .unwrap();
    assert!(has(&result, "text"));
    assert!(has(&result, "null"));
}

#[test]
fn null_args_are_no_list() {
    let result = load(r#"{"mcpServers": {"bad": {"command": "x", "args": null}}}"#).unwrap();
    assert_eq!(result.skipped, vec![("bad".to_string(), SkippedEntry::ArgsNotAList)]);
}

#[test]
fn absent_args_are_none() {
    let result = load(r#"{"mcpServers": {"ok": {"command": "x"}}}"#).unwrap();
    let config = server(&result, "ok");
    assert!(config.args.is_empty());
    assert!(config.env.is_empty());
    assert_eq!(config.cwd, None);
}

#[test]
fn env_values_that_are_no_texts_are_left_out() {
    let result = load(
        r#"{"mcpServers": {"ok": {"command": "x", "env": {"A": 1, "B": "b", "C": null}}}}"#,
    )
    .unwrap();
    let env = &server(&result, "ok").env;
    assert_eq!(env.len(), 1);
    assert_eq!(variable(env, "B").as_deref(), Some("b"));
}

#[test]
fn env_that_is_no_object_counts_for_nothing() {
    let mut base_env = Table::new();
    base_env.insert("A".to_string(), "base".to_string());
    let result = load_with(
        r#"{"mcpServers": {"ok": {"command": "x", "env": ["A", "b"]}}}"#,
        &base_env,
    )
    .unwrap();
    let env = &server(&result, "ok").env;
    assert_eq!(env.len(), 1);
    assert_eq!(variable(env, "A").as_deref(), Some("base"));
}

#[test]
fn every_entry_is_a_server_or_is_reported() {
    let result = load(
        r#"{"mcpServers": {"a": {"command": "x"}, "b": 1, "c": {"command": "y"}, "d": {"enabled": false}}}"#,
    )
    .unwrap();
    assert_eq!(result.configs.len() + result.skipped.len(), 4);
}

#[test]
fn mcp_servers_that_is_no_object_is_an_error() {
    let text = r#"{"mcpServers": ["a"]}"#;
    assert!(matches!(load(text), Err(ConfigError::MissingMcpServers { .. })));
}

#[test]
fn a_document_that_is_no_object_is_an_error() {
    assert!(matches!(load("[]"), Err(ConfigError::MissingMcpServers { .. })));
}

#[test]
fn the_last_of_two_members_counts() {
    let text = r#"{"mcpServers": {"s": {"command": "first", "command": "second"}}}"#;
    let result = load(text).unwrap();
    assert_eq!(server(&result, "s").command, "second");
}

#[test]
fn entries_are_read_from_json_values() {
    let entry = Json::Object(vec![
        ("command".to_string(), Json::Text("run".to_string())),
        ("args".to_string(), Json::List(vec![Json::Text("-v".to_string())])),
        ("enabled".to_string(), Json::Bool(true)),
    ]);
    let config = parse_server_entry(&entry, &Table::new()).unwrap();
    assert_eq!(config.command, "run");
    assert_eq!(config.args, vec!["-v".to_string()]);
    assert!(matches!(
        parse_server_entry(&Json::Null, &Table::new()),
        Err(SkippedEntry::NotAnObject)
    ));
}

#[test]
fn json_documents_keep_what_they_hold() {
    let json = parse_json(r#"{"t": "x", "b": true, "n": 1.5, "z": null, "l": [1, "a"]}"#).unwrap();
    let members = json.as_object().unwrap();
    assert_eq!(members.len(), 5);
    let find = |name: &str| mcp_proxy::json::find_member(members, name).unwrap();
    assert_eq!(find("t").as_text().map(String::as_str), Some("x"));
    assert_eq!(find("b").as_bool(), Some(true));
    assert!(matches!(find("n"), Json::Number));
    assert!(matches!(find("z"), Json::Null));
    match find("l") {
        Json::List(items) => {
            assert_eq!(items.len(), 2);
            assert!(matches!(items[0], Json::Number));
            assert_eq!(items[1].as_text().map(String::as_str), Some("a"));
        }
        _ => panic!("not a list"),
    }
    assert!(parse_json("{").is_err());
}

#[test]
fn errors_have_words() {
    let error = load("not json").unwrap_err();
    assert_eq!(error.message("bad"), "invalid JSON in config file config.json: bad");
    let error = load("{}").unwrap_err();
    assert_eq!(
        error.message("bad"),
        "config file config.json is missing a top-level \"mcpServers\" object"
    );
    let error = ConfigError::Io {
        path: PathBuf::from("/x/config.json"),
        source: ErrorKind::NotFound.into(),
    };
    assert_eq!(error.message("bad"), "failed to read config file /x/config.json: bad");
}

#[test]
fn configurations_are_equal_as_maps() {
    let text = |env: &str| format!(r#"{{"mcpServers": {{"s": {{"command": "y", "env": {env}}}}}}}"#);
    let mut one = Table::new();
    one.insert("A".to_string(), "1".to_string());
    one.insert("B".to_string(), "2".to_string());
    let mut other = Table::new();
    other.insert("B".to_string(), "2".to_string());
    let a = load_with(&text("{}"), &one).unwrap();
    let b = load_with(&text(r#"{"A": "1"}"#), &other).unwrap();
    let c = load_with(&text(r#"{"A": "3"}"#), &other).unwrap();
    assert_eq!(server(&a, "s"), server(&b, "s"));
    assert_ne!(server(&a, "s"), server(&c, "s"));
    assert_eq!(server(&c, "s").clone(), *server(&c, "s"));
}
