//! Tables and texts.

use mcp_proxy::cli::{read_verify_ssl, Cli, CliError, VerifySsl, DEFAULT_EXPOSE_HEADERS};
use mcp_proxy::table::Table;
use mcp_proxy::text::{begins_with, joined, same_text, trim, write_decimal};
use std::path::PathBuf;

fn pair(key: &str, value: &str) -> (String, String) {
    (key.to_string(), value.to_string())
}

#[test]
fn tables_keep_the_last_value_and_the_first_place() {
    let table = Table::from_pairs(&vec![pair("a", "1"), pair("b", "2"), pair("a", "3")]);
    assert_eq!(table.len(), 2);
    assert_eq!(table.entry(0), (&"a".to_string(), &"3".to_string()));
    assert_eq!(table.entry(1), (&"b".to_string(), &"2".to_string()));
}

#[test]
fn tables_forget_what_is_removed() {
    let mut table = Table::from_pairs(&vec![pair("a", "1"), pair("b", "2")]);
    table.remove(&"a".to_string());
    table.remove(&"c".to_string());
    assert_eq!(table.get(&"a".to_string()), None);
    assert!(table.contains_key(&"b".to_string()));
    assert_eq!(table.len(), 1);
    assert!(!table.is_empty());
}

#[test]
fn tables_are_extended_and_duplicated() {
    let mut table = Table::from_pairs(&vec![pair("a", "1"), pair("b", "2")]);
    let copy = table.duplicate();
    table.extend(&vec![pair("b", "3"), pair("c", "4")]);
    assert_eq!(table.get(&"b".to_string()).map(String::as_str), Some("3"));
    assert_eq!(table.len(), 3);
    assert_eq!(copy.get(&"b".to_string()).map(String::as_str), Some("2"));
    assert_eq!(copy.len(), 2);
}

#[test]
fn pairs_drop_a_key_without_a_value() {
    let flat = vec!["a".to_string(), "1".to_string(), "b".to_string()];
    assert_eq!(Cli::pairs(&flat), vec![pair("a", "1")]);
    assert_eq!(Cli::pairs(&vec![]), vec![]);
}

#[test]
fn texts_are_joined_and_matched() {
    assert_eq!(joined("a", "\u{fc}b"), "a\u{fc}b");
    assert!(same_text("\u{fc}", "\u{fc}"));
    assert!(!same_text("a", "A"));
    assert!(begins_with("https://x", "https://"));
    assert!(begins_with("x", ""));
    assert!(!begins_with("http:/", "http://"));
    assert!(begins_with("\u{fc}\u{e4}x", "\u{fc}\u{e4}"));
}

#[test]
fn numbers_are_written_in_decimal() {
    assert_eq!(write_decimal(0), "0");
    assert_eq!(write_decimal(9), "9");
    assert_eq!(write_decimal(10), "10");
    assert_eq!(write_decimal(65535), "65535");
    assert_eq!(write_decimal(u64::MAX), "18446744073709551615");
}

#[test]
fn words_for_yes_and_no() {
    for word in ["1", "true", "yes", "on"] {
        assert_eq!(read_verify_ssl(word, "raw"), VerifySsl::On);
    }
    for word in ["0", "false", "no", "off"] {
        assert_eq!(read_verify_ssl(word, "raw"), VerifySsl::Off);
    }
    assert_eq!(read_verify_ssl("maybe", "Maybe "), VerifySsl::CaBundle(PathBuf::from("Maybe ")));
}

#[test]
fn command_line_errors_have_words() {
    assert_eq!(
        CliError::NoServerSpecified.message(),
        "either a command_or_url for a default server or at least one --named-server (or --named-server-config) must be provided for stdio mode"
    );
}

#[test]
fn white_space_is_trimmed_at_both_ends() {
    for text in ["", " ", " \t\r\n", "a", " a", "a ", " a b ", "\u{85}\u{a0}\u{1680}x\u{2028}\u{3000}"] {
        assert_eq!(trim(text), text.trim());
    }
    assert_eq!(trim("\u{2000}\u{fc} y\u{200a}"), "\u{fc} y");
    // No white space: the zero-width space and the byte-order mark.
    assert_eq!(trim("\u{200b}x\u{feff}"), "\u{200b}x\u{feff}");
    for n in 0..=0x3001 {
        if let Some(c) = char::from_u32(n) {
            let text = format!("{c}x{c}");
            assert_eq!(trim(&text), text.trim());
        }
    }
}

#[test]
fn tables_keep_their_order_when_a_key_leaves() {
    let mut table = Table::from_pairs(&vec![pair("a", "1"), pair("b", "2"), pair("c", "3")]);
    table.insert("b".to_string(), "4".to_string());
    assert_eq!(table.entry(1), (&"b".to_string(), &"4".to_string()));
    table.remove(&"a".to_string());
    assert_eq!(table.entry(0).0, "b");
    assert_eq!(table.entry(1).0, "c");
}

#[test]
fn session_id_is_exposed_by_default() {
    assert_eq!(DEFAULT_EXPOSE_HEADERS, ["mcp-session-id"]);
}
