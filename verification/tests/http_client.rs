//! The HTTP client: headers, certificates, tokens.

use mcp_proxy::cli::VerifySsl;
use mcp_proxy::headers::{
    bearer_header_map, build_header_map, is_header, read_header_names, read_header_values,
};
use mcp_proxy::http_client::{
    access_token_of, build_http_client, client_credentials_form, configure_http_client,
    log_masked_headers, mask_value, read_access_token, trust_bundle, with_bearer_token, HttpClientError,
};
use mcp_proxy::json::parse_json;
use mcp_proxy::table::Table;
use std::io::ErrorKind;
use std::path::PathBuf;

fn table(pairs: &[(&str, &str)]) -> Table<String, String> {
    let mut table = Table::new();
    for (name, value) in pairs {
        table.insert(name.to_string(), value.to_string());
    }
    table
}

fn logged(headers: &Table<String, String>, name: &str) -> String {
    log_masked_headers(headers).get(&name.to_string()).unwrap().clone()
}

#[test]
fn masks_sensitive_headers() {
    let headers = table(&[("Authorization", "Bearer secret"), ("X-Custom", "visible")]);
    let map = build_header_map(&headers);
    assert_eq!(map.len(), 2);
}

#[test]
fn skips_invalid_header_names() {
    let headers = table(&[("not a valid header name!", "value"), ("X-Valid", "value")]);
    let map = build_header_map(&headers);
    assert_eq!(map.len(), 1);
}

#[test]
fn build_client_with_no_options_succeeds() {
    let client = build_http_client(&Table::new(), None, None);
    assert!(client.is_ok());
}

#[test]
fn build_client_disables_verification() {
    let client = build_http_client(&Table::new(), Some(&VerifySsl::Off), None);
    assert!(client.is_ok());
}

#[test]
fn build_client_with_missing_ca_bundle_errors() {
    let client = build_http_client(
        &Table::new(),
        Some(&VerifySsl::CaBundle(PathBuf::from("/nonexistent/ca.pem"))),
        Some(Err(ErrorKind::NotFound.into())),
    );
    match client {
        Err(HttpClientError::ReadCaBundle { path, source }) => {
            assert_eq!(path, "/nonexistent/ca.pem");
            assert_eq!(source.kind(), ErrorKind::NotFound);
        }
        _ => panic!("the bundle was not missed"),
    }
}

#[test]
fn build_client_with_an_empty_ca_bundle_trusts_nobody() {
    // The bundle is taken as a certificate and found wanting when the client is
    // built.
    let client = build_http_client(
        &Table::new(),
        Some(&VerifySsl::CaBundle(PathBuf::from("ca.pem"))),
        Some(Ok(b"-----BEGIN CERTIFICATE-----\nnonsense".to_vec())),
    );
    assert!(matches!(client, Err(HttpClientError::Build(_))));
}

#[test]
fn bundles_that_are_no_certificate_are_errors() {
    let path = PathBuf::from("/etc/ca.pem");
    let builder = configure_http_client(&Table::new(), None, None).unwrap();
    let fault = reqwest::Client::new().get("no url").build().unwrap_err();
    let text = fault.to_string();
    match trust_bundle(builder, &path, Err(fault)) {
        Err(HttpClientError::ParseCaBundle { path, source }) => {
            assert_eq!(path, "/etc/ca.pem");
            assert_eq!(source.to_string(), text);
        }
        _ => panic!("the bundle was trusted"),
    }
}

#[test]
fn builder_holds_the_settings() {
    let headers = table(&[("X-Custom", "visible"), ("bad name", "x")]);
    let shown = format!("{:?}", configure_http_client(&headers, None, None).unwrap());
    assert!(shown.contains("\"x-custom\": \"visible\""), "{shown}");
    assert!(shown.contains("\"accept\": \"*/*\""), "{shown}");
    assert!(shown.contains("timeout: 30s"), "{shown}");
    assert!(!shown.contains("bad name"), "{shown}");
    assert!(!shown.contains("accept_invalid_certs: true"), "{shown}");

    let off = configure_http_client(&headers, Some(&VerifySsl::Off), None).unwrap();
    let shown = format!("{off:?}");
    assert!(shown.contains("accept_invalid_certs: true"), "{shown}");
}

#[test]
fn configured_accept_header_replaces_the_default() {
    let headers = table(&[("Accept", "text/event-stream")]);
    let shown = format!("{:?}", configure_http_client(&headers, None, None).unwrap());
    assert!(shown.contains("\"accept\": \"text/event-stream\""), "{shown}");
    assert!(!shown.contains("*/*"), "{shown}");
}

#[test]
fn header_names_are_put_into_lower_case() {
    let map = build_header_map(&table(&[("X-CuStOm", "Value")]));
    let (name, value) = map.iter().next().unwrap();
    assert_eq!(name.as_str(), "x-custom");
    assert_eq!(value.as_bytes(), b"Value");
}

#[test]
fn of_headers_that_differ_in_case_the_last_counts() {
    let map = build_header_map(&table(&[("X-A", "first"), ("x-a", "second")]));
    assert_eq!(map.len(), 1);
    assert_eq!(map.get("x-a").unwrap(), "second");
}

#[test]
fn invalid_headers_make_no_difference() {
    let with = build_header_map(&table(&[("A", "1"), ("b\n", "x"), ("C", "\u{0}"), ("D", "4")]));
    let without = build_header_map(&table(&[("A", "1"), ("D", "4")]));
    assert_eq!(with, without);
}

#[test]
fn header_values_may_hold_tabs_and_other_scripts() {
    assert!(is_header("X-A", "a\tb"));
    assert!(is_header("X-A", "gr\u{fc}n"));
    assert!(is_header("X-A", ""));
    assert!(!is_header("X-A", "a\nb"));
    assert!(!is_header("X-A", "a\u{7f}b"));
    let map = build_header_map(&table(&[("X-A", "gr\u{fc}n")]));
    assert_eq!(map.get("x-a").unwrap().as_bytes(), "gr\u{fc}n".as_bytes());
}

#[test]
fn header_names_are_tokens() {
    assert!(is_header("!#$%&'*+-.^_`|~09azAZ", "x"));
    assert!(!is_header("", "x"));
    assert!(!is_header("a b", "x"));
    assert!(!is_header("a:b", "x"));
    assert!(!is_header("gr\u{fc}n", "x"));
    assert!(is_header(&"n".repeat(65535), "x"));
    assert!(!is_header(&"n".repeat(65536), "x"));
}

#[test]
fn sensitive_headers_are_masked_in_any_case() {
    let headers = table(&[
        ("Authorization", "Bearer secret"),
        ("x-api-KEY", "secret"),
        ("COOKIE", "secret"),
        ("X-Custom", "visible"),
    ]);
    assert_eq!(logged(&headers, "Authorization"), "***MASKED***");
    assert_eq!(logged(&headers, "x-api-KEY"), "***MASKED***");
    assert_eq!(logged(&headers, "COOKIE"), "***MASKED***");
    assert_eq!(logged(&headers, "X-Custom"), "visible");
}

#[test]
fn masking_does_not_touch_the_headers() {
    let headers = table(&[("Cookie", "secret"), ("B", "b")]);
    let shown = log_masked_headers(&headers);
    assert_eq!(shown.len(), 2);
    assert_eq!(shown.entry(0).0, "Cookie");
    assert_eq!(shown.entry(1), (&"B".to_string(), &"b".to_string()));
    assert_eq!(headers.get(&"Cookie".to_string()).unwrap(), "secret");
}

#[test]
fn masked_values_look_alike() {
    assert_eq!(mask_value("cookie", "one"), mask_value("cookie", "another"));
    assert_eq!(mask_value("accept", "one"), "one");
    assert_eq!(mask_value("Cookie", "one"), "one");
}

#[test]
fn bearer_token_takes_the_place_of_an_authorization() {
    let headers = table(&[("Authorization", "Basic abc"), ("X-Custom", "visible")]);
    let builder = configure_http_client(&headers, None, None).unwrap();
    let shown = format!("{:?}", with_bearer_token(builder, "t0k3n").unwrap());
    assert!(shown.contains("\"authorization\": \"Bearer t0k3n\""), "{shown}");
    assert!(!shown.contains("Basic abc"), "{shown}");
    assert!(shown.contains("\"x-custom\": \"visible\""), "{shown}");
}

#[test]
fn bearer_token_has_to_be_a_header_value() {
    let builder = configure_http_client(&Table::new(), None, None).unwrap();
    assert!(matches!(
        with_bearer_token(builder, "two\nlines"),
        Err(HttpClientError::OAuth2MissingAccessToken)
    ));
    assert!(bearer_header_map("two\nlines").is_none());
    let map = bearer_header_map("abc").unwrap();
    assert_eq!(map.len(), 1);
    assert_eq!(map.get("authorization").unwrap(), "Bearer abc");
}

#[test]
fn grant_form_has_three_fields() {
    assert_eq!(
        client_credentials_form("me", "s3cret"),
        vec![
            ("grant_type".to_string(), "client_credentials".to_string()),
            ("client_id".to_string(), "me".to_string()),
            ("client_secret".to_string(), "s3cret".to_string()),
        ]
    );
}

#[test]
fn access_token_is_read_from_the_answer() {
    let body = serde_json::from_str(r#"{"access_token": "abc", "expires_in": 3600}"#).unwrap();
    assert_eq!(read_access_token(body).unwrap(), "abc");
}

#[test]
fn answers_without_an_access_token_are_errors() {
    for text in [r#"{"token": "abc"}"#, r#"{"access_token": 1}"#, r#"["access_token"]"#, "null"] {
        let body = serde_json::from_str(text).unwrap();
        assert!(matches!(
            read_access_token(body),
            Err(HttpClientError::OAuth2MissingAccessToken)
        ));
        assert_eq!(access_token_of(&parse_json(text).unwrap()), None);
    }
}

#[test]
fn lists_of_headers_keep_what_is_valid() {
    let list = vec!["X-Foo".to_string(), "not valid".to_string(), "Bar".to_string()];
    let names = read_header_names(&list);
    assert_eq!(names.len(), 2);
    assert_eq!(names[0].as_str(), "x-foo");
    assert_eq!(names[1].as_str(), "bar");

    let list = vec!["https://a.com".to_string(), "a\nb".to_string()];
    let values = read_header_values(&list);
    assert_eq!(values.len(), 1);
    assert_eq!(values[0].as_bytes(), b"https://a.com");
}

#[test]
fn client_errors_have_words() {
    let error = HttpClientError::ReadCaBundle {
        path: "ca.pem".to_string(),
        source: ErrorKind::NotFound.into(),
    };
    assert_eq!(error.message("gone"), "failed to read CA bundle at ca.pem: gone");
    let client = build_http_client(
        &Table::new(),
        Some(&VerifySsl::CaBundle(PathBuf::from("ca.pem"))),
        Some(Ok(b"-----BEGIN CERTIFICATE-----\nnonsense".to_vec())),
    );
    let error = client.err().unwrap();
    assert_eq!(error.message("why"), "failed to build HTTP client: why");
    let source = reqwest::Client::new().get("no url").build().unwrap_err();
    let error = HttpClientError::OAuth2Request(source);
    assert_eq!(error.message("why"), "OAuth2 token request failed: why");
    let source = reqwest::Client::new().get("no url").build().unwrap_err();
    let error = HttpClientError::ParseCaBundle { path: "ca.pem".to_string(), source };
    assert_eq!(error.message("why"), "invalid CA bundle at ca.pem: why");
    assert_eq!(
        HttpClientError::OAuth2MissingAccessToken.message("why"),
        "OAuth2 token response did not include an access_token"
    );
}
