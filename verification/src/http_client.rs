//! The HTTP client for the remote server: custom headers, certificate
//! verification, and the OAuth2 client-credentials grant.

use crate::cli::{authorized_last, VerifySsl, VerifySslModel};
use crate::files::{path_text, show_path};
use crate::headers::{
    bearer_header_map, build_header_map, header_entries, header_fields, is_header_name,
    is_header_value, law_header_fields_come_from_pairs, law_last_header_counts,
    lemma_header_fields_len, MAX_HEADERS,
};
use crate::json::{find_member, json_contents, json_of, member, members_of, Json, JsonModel};
use crate::table::{distinct_keys, lemma_collect_contains, pair_views, Table};
use crate::text::{
    all_ascii, ascii_lower, joined, lowercase, same_text, stands_at, to_lowercase,
};
use http::{HeaderMap, HeaderValue};
use reqwest::{Certificate, Client, ClientBuilder};
use std::path::PathBuf;
use vstd::prelude::*;
use vstd::string::*;
use vstd::utf8::encode_utf8;

verus! {

/// `reqwest::ClientBuilder`: the settings of a client to be.
#[verifier::external_type_specification]
#[verifier::external_body]
pub struct ExClientBuilder(ClientBuilder);

/// `reqwest::Client`: an HTTP client.
#[verifier::external_type_specification]
#[verifier::external_body]
pub struct ExClient(Client);

/// `reqwest::Certificate`: a certificate to trust.
#[verifier::external_type_specification]
#[verifier::external_body]
pub struct ExCertificate(Certificate);

/// `reqwest::Error`: why a request or a client failed.
#[verifier::external_type_specification]
#[verifier::external_body]
pub struct ExReqwestError(reqwest::Error);

/// What went wrong with the HTTP client or the OAuth2 grant.
#[allow(inconsistent_fields)]
#[derive(Debug)]
pub enum HttpClientError {
    ReadCaBundle { path: String, source: std::io::Error },
    ParseCaBundle { path: String, source: reqwest::Error },
    Build(reqwest::Error),
    OAuth2Request(reqwest::Error),
    OAuth2MissingAccessToken,
}

/// What an `HttpClientError` says, given what the error behind it says.
pub open spec fn http_error_text(error: HttpClientError, source: Seq<char>) -> Seq<char> {
    match error {
        HttpClientError::ReadCaBundle { path, source: _ } => "failed to read CA bundle at "@ + path@
            + ": "@ + source,
        HttpClientError::ParseCaBundle { path, source: _ } => "invalid CA bundle at "@ + path@
            + ": "@ + source,
        HttpClientError::Build(_) => "failed to build HTTP client: "@ + source,
        HttpClientError::OAuth2Request(_) => "OAuth2 token request failed: "@ + source,
        HttpClientError::OAuth2MissingAccessToken => {
            "OAuth2 token response did not include an access_token"@
        },
    }
}

impl HttpClientError {
    /// The error in words, given the words of the error behind it; where there is
    /// none, those do not matter.
    pub fn message(&self, source: &str) -> (text: String)
        ensures
            text@ == http_error_text(*self, source@),
    {
        match self {
            HttpClientError::ReadCaBundle { path, source: _ } => joined(
                "failed to read CA bundle at ",
                path.as_str(),
            ).concat(": ").concat(source),
            HttpClientError::ParseCaBundle { path, source: _ } => joined(
                "invalid CA bundle at ",
                path.as_str(),
            ).concat(": ").concat(source),
            HttpClientError::Build(_) => joined("failed to build HTTP client: ", source),
            HttpClientError::OAuth2Request(_) => joined("OAuth2 token request failed: ", source),
            HttpClientError::OAuth2MissingAccessToken => {
                "OAuth2 token response did not include an access_token".to_owned()
            },
        }
    }
}

/// The settings of a client that the proxy has a say in.
#[verifier::ext_equal]
pub struct ClientSettings {
    /// How long a request may take, in seconds.
    pub timeout: Option<nat>,
    /// Whether any certificate of the server is accepted.
    pub accept_invalid_certs: bool,
    /// The PEM texts of the certificates to trust.
    pub roots: Seq<Seq<u8>>,
    /// Whether only those certificates are trusted.
    pub roots_only: bool,
    /// The headers of every request: names with their values.
    pub headers: Map<Seq<char>, Seq<Seq<u8>>>,
}

/// The settings that a builder holds.
pub uninterp spec fn builder_settings(builder: ClientBuilder) -> ClientSettings;

/// The settings that a client was built with.
pub uninterp spec fn client_settings(client: Client) -> ClientSettings;

/// The PEM text that a certificate was made of.
pub uninterp spec fn certificate_pem(certificate: Certificate) -> Seq<u8>;

/// The settings that a client has where nothing is said: certificates are
/// verified against the system's roots, and anything is accepted as an answer.
pub open spec fn default_settings() -> ClientSettings {
    ClientSettings {
        timeout: None,
        accept_invalid_certs: false,
        roots: Seq::empty(),
        roots_only: false,
        headers: map!["accept"@ => seq![encode_utf8("*/*"@)]],
    }
}

/// `Client::builder`: a builder with the default settings.
#[verifier::external_body]
fn new_client_builder() -> (builder: ClientBuilder)
    ensures
        builder_settings(builder) == default_settings(),
{
    Client::builder()
}

/// `ClientBuilder::timeout`: sets how long a request may take.
#[verifier::external_body]
fn set_timeout(builder: ClientBuilder, seconds: u64) -> (result: ClientBuilder)
    ensures
        builder_settings(result) == (ClientSettings {
            timeout: Some(seconds as nat),
            ..builder_settings(builder)
        }),
{
    builder.timeout(std::time::Duration::from_secs(seconds))
}

/// `ClientBuilder::danger_accept_invalid_certs`: says whether any certificate of
/// the server is accepted.
#[verifier::external_body]
fn set_accept_invalid_certs(builder: ClientBuilder, accept: bool) -> (result: ClientBuilder)
    ensures
        builder_settings(result) == (ClientSettings {
            accept_invalid_certs: accept,
            ..builder_settings(builder)
        }),
{
    builder.danger_accept_invalid_certs(accept)
}

/// `Certificate::from_pem`: a certificate of a PEM text, which it keeps. With
/// rustls as the only backend every text is taken as it is, and looked into when
/// the client is built.
#[verifier::external_body]
fn read_certificate(pem: &Vec<u8>) -> (certificate: Result<Certificate, reqwest::Error>)
    ensures
        certificate is Ok,
        certificate_pem(certificate->Ok_0) == pem@,
{
    Certificate::from_pem(pem)
}

/// `ClientBuilder::tls_certs_only`: adds one certificate to trust, and trusts
/// none of the system's.
#[verifier::external_body]
fn trust_only(builder: ClientBuilder, certificate: Certificate) -> (result: ClientBuilder)
    ensures
        builder_settings(result) == (ClientSettings {
            roots: builder_settings(builder).roots.push(certificate_pem(certificate)),
            roots_only: true,
            ..builder_settings(builder)
        }),
{
    builder.tls_certs_only([certificate])
}

/// The headers with those of a header map in place of their own: of each name in
/// the map, the last value.
pub open spec fn overridden(
    headers: Map<Seq<char>, Seq<Seq<u8>>>,
    with: Map<Seq<char>, Seq<Seq<u8>>>,
) -> Map<Seq<char>, Seq<Seq<u8>>> {
    headers.union_prefer_right(with.map_values(|values: Seq<Seq<u8>>| seq![values.last()]))
}

/// `ClientBuilder::default_headers`: inserts the headers of a map, value by
/// value, into those of every request. The call panics where they get to be too
/// many for a header map, for which each value counts, also one of a name that is
/// there already.
#[verifier::external_body]
fn set_default_headers(builder: ClientBuilder, headers: HeaderMap<HeaderValue>) -> (result:
    ClientBuilder)
    requires
        builder_settings(builder).headers.len() + header_entries(headers).len() <= MAX_HEADERS + 1,
        forall|name: Seq<char>| #[trigger]
            header_entries(headers).contains_key(name) ==> header_entries(headers)[name].len() == 1,
    ensures
        builder_settings(result) == (ClientSettings {
            headers: overridden(builder_settings(builder).headers, header_entries(headers)),
            ..builder_settings(builder)
        }),
{
    builder.default_headers(headers)
}

/// `ClientBuilder::build`: a client with the builder's settings. Whether there
/// is one rests on the machine, its certificates among other things.
#[verifier::external_body]
fn build_client(builder: ClientBuilder) -> (client: Result<Client, reqwest::Error>)
    ensures
        client matches Ok(c) ==> client_settings(c) == builder_settings(builder),
{
    builder.build()
}

/// How long a request may take, in seconds.
pub const DEFAULT_TIMEOUT: u64 = 30;

/// The settings that the headers and the verification of certificates ask for,
/// given the certificate bundle's contents where there is one.
pub open spec fn settings_for(
    headers: Seq<(Seq<char>, Seq<char>)>,
    verify_ssl: Option<VerifySslModel>,
    ca_bundle: Seq<u8>,
) -> ClientSettings {
    ClientSettings {
        timeout: Some(DEFAULT_TIMEOUT as nat),
        accept_invalid_certs: verify_ssl == Some(VerifySslModel::Off),
        roots: if verify_ssl matches Some(VerifySslModel::CaBundle(_)) {
            seq![ca_bundle]
        } else {
            Seq::empty()
        },
        roots_only: verify_ssl matches Some(VerifySslModel::CaBundle(_)),
        headers: default_settings().headers.union_prefer_right(header_fields(headers)),
    }
}

/// Every name among the header fields has one value.
proof fn lemma_one_value_each(pairs: Seq<(Seq<char>, Seq<char>)>)
    ensures
        header_fields(pairs).map_values(|values: Seq<Seq<u8>>| seq![values.last()])
            == header_fields(pairs),
        forall|name: Seq<char>| #[trigger]
            header_fields(pairs).contains_key(name) ==> header_fields(pairs)[name].len() == 1,
    decreases pairs.len(),
{
    let fields = header_fields(pairs);
    let last = |values: Seq<Seq<u8>>| seq![values.last()];
    if pairs.len() > 0 {
        let rest = header_fields(pairs.drop_last());
        lemma_one_value_each(pairs.drop_last());
        assert forall|name: Seq<char>| fields.contains_key(name) implies #[trigger] fields.map_values(
            last,
        )[name] == fields[name] by {
            if rest.contains_key(name) {
                assert(rest.map_values(last)[name] == rest[name]);
                assert(seq![rest[name].last()] == rest[name]);
            }
            assert(seq![fields[name].last()] =~= fields[name]);
        }
    }
    assert(fields.map_values(last) =~= fields);
}

/// Overriding adds at most as many names as there are in the overriding map.
proof fn lemma_union_len<A, B>(one: Map<A, B>, other: Map<A, B>)
    requires
        one.dom().finite(),
        other.dom().finite(),
    ensures
        one.union_prefer_right(other).len() <= one.len() + other.len(),
{
    assert(one.union_prefer_right(other).dom() =~= one.dom().union(other.dom()));
    vstd::set_lib::lemma_set_union_finite_iff(one.dom(), other.dom());
    vstd::set_lib::lemma_len_union(one.dom(), other.dom());
}

/// The view of how certificates are to be verified.
pub open spec fn verify_ssl_view(verify_ssl: Option<&VerifySsl>) -> Option<VerifySslModel> {
    match verify_ssl {
        Some(verify) => Some(verify@),
        None => None,
    }
}

/// The path of a certificate bundle, as errors show it.
pub fn ca_bundle_path_string(path: &PathBuf) -> (text: String)
    ensures
        text@ == path_text(*path),
{
    show_path(path)
}

/// What comes of trusting the certificate of a bundle and no other.
pub open spec fn trusts(
    before: ClientSettings,
    path: PathBuf,
    certificate: Result<Certificate, reqwest::Error>,
    trusting: Result<ClientBuilder, HttpClientError>,
) -> bool {
    match certificate {
        Ok(c) => trusting matches Ok(result) && builder_settings(result) == (ClientSettings {
            roots: before.roots.push(certificate_pem(c)),
            roots_only: true,
            ..before
        }),
        Err(error) => trusting matches Err(HttpClientError::ParseCaBundle { path: p, source })
            && p@ == path_text(path) && source == error,
    }
}

/// Trusts the certificate of a bundle and no other, given what reading it as a
/// certificate came to.
pub fn trust_bundle(
    builder: ClientBuilder,
    path: &PathBuf,
    certificate: Result<Certificate, reqwest::Error>,
) -> (trusting: Result<ClientBuilder, HttpClientError>)
    ensures
        trusts(builder_settings(builder), *path, certificate, trusting),
        match certificate {
            Ok(c) => trusting matches Ok(result) && builder_settings(result) == (ClientSettings {
                roots: builder_settings(builder).roots.push(certificate_pem(c)),
                roots_only: true,
                ..builder_settings(builder)
            }),
            Err(error) => trusting matches Err(HttpClientError::ParseCaBundle { path: p, source })
                && p@ == path_text(*path) && source == error,
        },
{
    match certificate {
        Ok(certificate) => Ok(trust_only(builder, certificate)),
        Err(source) => Err(
            HttpClientError::ParseCaBundle { path: ca_bundle_path_string(path), source },
        ),
    }
}

/// Which settings the HTTP client gets, or why it gets none: a bundle that cannot
/// be read.
pub open spec fn configures(
    headers: Seq<(Seq<char>, Seq<char>)>,
    verify_ssl: Option<&VerifySsl>,
    ca_bundle: Option<Result<Vec<u8>, std::io::Error>>,
    settings: Result<ClientSettings, HttpClientError>,
) -> bool {
    match verify_ssl {
        Some(VerifySsl::CaBundle(path)) => match ca_bundle->Some_0 {
            Err(error) => settings matches Err(HttpClientError::ReadCaBundle { path: p, source })
                && p@ == path_text(*path) && source == error,
            Ok(pem) => settings == Ok::<_, HttpClientError>(
                settings_for(headers, Some(VerifySslModel::CaBundle(path_text(*path))), pem@),
            ),
        },
        Some(VerifySsl::Off) => settings == Ok::<_, HttpClientError>(
            settings_for(headers, Some(VerifySslModel::Off), Seq::empty()),
        ),
        Some(VerifySsl::On) => settings == Ok::<_, HttpClientError>(
            settings_for(headers, Some(VerifySslModel::On), Seq::empty()),
        ),
        None => settings == Ok::<_, HttpClientError>(settings_for(headers, None, Seq::empty())),
    }
}

/// Puts together the settings of the HTTP client. Certificates are verified
/// unless that is off; a certificate bundle, of which `ca_bundle` says what
/// reading it came to, takes the place of the system's certificates.
pub fn configure_http_client(
    headers: &Table<String, String>,
    verify_ssl: Option<&VerifySsl>,
    ca_bundle: Option<Result<Vec<u8>, std::io::Error>>,
) -> (configured: Result<ClientBuilder, HttpClientError>)
    requires
        headers.entries().len() <= MAX_HEADERS,
        verify_ssl matches Some(VerifySsl::CaBundle(_)) ==> ca_bundle is Some,
    ensures
        configures(
            headers.entries(),
            verify_ssl,
            ca_bundle,
            match configured {
                Ok(builder) => Ok(builder_settings(builder)),
                Err(error) => Err(error),
            },
        ),
        match verify_ssl {
            Some(VerifySsl::CaBundle(path)) => match ca_bundle->Some_0 {
                Err(error) => configured matches Err(HttpClientError::ReadCaBundle { path: p, source })
                    && p@ == path_text(*path) && source == error,
                Ok(pem) => configured matches Ok(builder) && builder_settings(builder)
                    == settings_for(headers.entries(), verify_ssl_view(verify_ssl), pem@),
            },
            _ => configured matches Ok(builder) && builder_settings(builder) == settings_for(
                headers.entries(),
                verify_ssl_view(verify_ssl),
                Seq::empty(),
            ),
        },
        configured matches Ok(builder) ==> builder_settings(builder).headers.len()
            <= headers.entries().len() + 1,
{
    let mut builder = set_timeout(new_client_builder(), DEFAULT_TIMEOUT);
    match verify_ssl {
        None | Some(VerifySsl::On) => {},
        Some(VerifySsl::Off) => {
            builder = set_accept_invalid_certs(builder, true);
        },
        Some(VerifySsl::CaBundle(path)) => {
            let pem = match ca_bundle {
                Some(Ok(pem)) => pem,
                Some(Err(source)) => return Err(
                    HttpClientError::ReadCaBundle { path: ca_bundle_path_string(path), source },
                ),
                None => {
                    assert(false);
                    Vec::new()
                },
            };
            builder = match trust_bundle(builder, path, read_certificate(&pem)) {
                Ok(trusting) => trusting,
                Err(error) => return Err(error),
            };
            assert(builder_settings(builder).roots =~= seq![pem@]);
        },
    }
    let ghost defaults = default_settings().headers;
    proof {
        lemma_header_fields_len(headers.entries());
        assert(defaults.len() == 1);
        lemma_union_len(defaults, header_fields(headers.entries()));
    }
    if !headers.is_empty() {
        proof {
            lemma_one_value_each(headers.entries());
        }
        builder = set_default_headers(builder, build_header_map(headers));
    } else {
        assert(defaults.union_prefer_right(header_fields(headers.entries())) =~= defaults);
    }
    Ok(builder)
}

/// Builds the HTTP client for the remote server (see `configure_http_client`).
pub fn build_http_client(
    headers: &Table<String, String>,
    verify_ssl: Option<&VerifySsl>,
    ca_bundle: Option<Result<Vec<u8>, std::io::Error>>,
) -> (built: Result<Client, HttpClientError>)
    requires
        headers.entries().len() <= MAX_HEADERS,
        verify_ssl matches Some(VerifySsl::CaBundle(_)) ==> ca_bundle is Some,
    ensures
        match built {
            Ok(client) => configures(
                headers.entries(),
                verify_ssl,
                ca_bundle,
                Ok(client_settings(client)),
            ),
            Err(error) => error is Build || configures(
                headers.entries(),
                verify_ssl,
                ca_bundle,
                Err(error),
            ),
        },
        match verify_ssl {
            Some(VerifySsl::CaBundle(path)) => match ca_bundle->Some_0 {
                Err(error) => built matches Err(HttpClientError::ReadCaBundle { path: p, source })
                    && p@ == path_text(*path) && source == error,
                Ok(pem) => match built {
                    Ok(client) => client_settings(client) == settings_for(
                        headers.entries(),
                        verify_ssl_view(verify_ssl),
                        pem@,
                    ),
                    Err(error) => error is Build,
                },
            },
            _ => match built {
                Ok(client) => client_settings(client) == settings_for(
                    headers.entries(),
                    verify_ssl_view(verify_ssl),
                    Seq::empty(),
                ),
                Err(error) => error is Build,
            },
        },
{
    match configure_http_client(headers, verify_ssl, ca_bundle) {
        Ok(builder) => match build_client(builder) {
            Ok(client) => Ok(client),
            Err(error) => Err(HttpClientError::Build(error)),
        },
        Err(error) => Err(error),
    }
}

/// The names, in lower case, of the headers whose values are never logged.
pub open spec fn is_sensitive(lowered: Seq<char>) -> bool {
    lowered == "authorization"@ || lowered == "x-api-key"@ || lowered == "cookie"@
}

/// What is logged of a header, given its name in lower case.
pub open spec fn masked(lowered: Seq<char>, value: Seq<char>) -> Seq<char> {
    if is_sensitive(lowered) {
        "***MASKED***"@
    } else {
        value
    }
}

/// Decides what is logged of a header, given its name in lower case.
pub fn mask_value(lowered: &str, value: &str) -> (logged: String)
    ensures
        logged@ == masked(lowered@, value@),
{
    if same_text(lowered, "authorization") || same_text(lowered, "x-api-key") || same_text(
        lowered,
        "cookie",
    ) {
        "***MASKED***".to_owned()
    } else {
        value.to_owned()
    }
}

/// What is logged of headers: the same names in the same order, each value masked
/// or as it is.
pub open spec fn logged_as(
    headers: Seq<(Seq<char>, Seq<char>)>,
    logged: Seq<(Seq<char>, Seq<char>)>,
) -> bool {
    &&& logged.len() == headers.len()
    &&& forall|i: int|
        0 <= i < headers.len() ==> (#[trigger] logged[i]).0 == headers[i].0 && logged[i].1
            == masked(lowercase(headers[i].0), headers[i].1)
    &&& forall|i: int|
        0 <= i < headers.len() && all_ascii(headers[i].0) ==> (#[trigger] logged[i]).1 == masked(
            ascii_lower(headers[i].0),
            headers[i].1,
        )
}

/// The headers as they are logged: the values of `Authorization`, `X-API-Key`
/// and `Cookie`, in whatever case, are masked.
pub fn log_masked_headers(headers: &Table<String, String>) -> (logged: Table<String, String>)
    ensures
        logged_as(headers.entries(), logged.entries()),
        logged.entries() == headers.entries().map_values(
            |e: (Seq<char>, Seq<char>)| (e.0, masked(lowercase(e.0), e.1)),
        ),
        forall|i: int|
            0 <= i < headers.entries().len() && all_ascii(headers.entries()[i].0) ==> (
            #[trigger] logged.entries()[i]).1 == masked(
                ascii_lower(headers.entries()[i].0),
                headers.entries()[i].1,
            ),
{
    let ghost entries = headers.entries();
    let ghost log = |e: (Seq<char>, Seq<char>)| (e.0, masked(lowercase(e.0), e.1));
    let mut logged: Table<String, String> = Table::new();
    let n: usize = headers.len();
    let mut i: usize = 0;
    while i < n
        invariant
            i <= n,
            n == entries.len(),
            entries == headers.entries(),
            distinct_keys(entries),
            log == (|e: (Seq<char>, Seq<char>)| (e.0, masked(lowercase(e.0), e.1))),
            logged.entries() == entries.take(i as int).map_values(log),
            forall|j: int|
                0 <= j < i && all_ascii(entries[j].0) ==> (#[trigger] logged.entries()[j]).1
                    == masked(ascii_lower(entries[j].0), entries[j].1),
        decreases n - i,
    {
        let (name, value) = headers.entry(i);
        let lowered = to_lowercase(name.as_str());
        let shown = mask_value(lowered.as_str(), value.as_str());
        let ghost before = logged.entries();
        proof {
            lemma_collect_contains(before, name@);
            assert forall|j: int| 0 <= j < before.len() implies (#[trigger] before[j]).0
                != name@ by {
                assert(before[j].0 == entries[j].0);
                assert(entries[j].0 != entries[i as int].0);
            }
        }
        logged.insert(name.clone(), shown);
        assert(entries.take(i + 1).map_values(log) =~= before.push(log(entries[i as int])));
        i = i + 1;
    }
    assert(entries.take(i as int) =~= entries);
    logged
}

/// The form of an OAuth2 client-credentials grant: field names and values.
pub open spec fn grant_form(client_id: Seq<char>, client_secret: Seq<char>) -> Seq<
    (Seq<char>, Seq<char>),
> {
    seq![
        ("grant_type"@, "client_credentials"@),
        ("client_id"@, client_id),
        ("client_secret"@, client_secret),
    ]
}

/// Fills in the form of an OAuth2 client-credentials grant.
pub fn client_credentials_form(client_id: &str, client_secret: &str) -> (form: Vec<
    (String, String),
>)
    ensures
        pair_views(form@) == grant_form(client_id@, client_secret@),
{
    let mut form: Vec<(String, String)> = Vec::new();
    form.push(("grant_type".to_owned(), "client_credentials".to_owned()));
    form.push(("client_id".to_owned(), client_id.to_owned()));
    form.push(("client_secret".to_owned(), client_secret.to_owned()));
    assert(pair_views(form@) =~= grant_form(client_id@, client_secret@));
    form
}

/// The access token in the answer to a grant: the text under `"access_token"`.
pub open spec fn access_token(body: JsonModel) -> Option<Seq<char>> {
    match members_of(body) {
        Some(members) => match member(members, "access_token"@) {
            Some(JsonModel::Text(token)) => Some(token),
            _ => None,
        },
        None => None,
    }
}

/// Finds the access token in the answer to a grant.
pub fn access_token_of(body: &Json) -> (token: Option<String>)
    ensures
        match token {
            Some(t) => access_token(body@) == Some(t@),
            None => access_token(body@) is None,
        },
{
    let members = match body.as_object() {
        Some(members) => members,
        None => return None,
    };
    match find_member(members, "access_token") {
        Some(value) => match value.as_text() {
            Some(token) => Some(token.clone()),
            None => None,
        },
        None => None,
    }
}

/// Reads the access token from the answer to a grant.
pub fn read_access_token(body: serde_json::Value) -> (token: Result<String, HttpClientError>)
    ensures
        match token {
            Ok(t) => access_token(json_contents(body)) == Some(t@),
            Err(error) => error is OAuth2MissingAccessToken && access_token(
                json_contents(body),
            ) is None,
        },
{
    match access_token_of(&json_of(body)) {
        Some(token) => Ok(token),
        None => Err(HttpClientError::OAuth2MissingAccessToken),
    }
}

/// What comes of setting the `Authorization` header to a bearer token.
pub open spec fn bears(
    before: ClientSettings,
    token: Seq<char>,
    result: Result<ClientBuilder, HttpClientError>,
) -> bool {
    if is_header_value("Bearer "@ + token) {
        result matches Ok(changed) && builder_settings(changed) == (ClientSettings {
            headers: before.headers.insert(
                "authorization"@,
                seq![encode_utf8("Bearer "@ + token)],
            ),
            ..before
        })
    } else {
        result matches Err(error) && error is OAuth2MissingAccessToken
    }
}

/// Sets the `Authorization` header of every request to a bearer token, in place
/// of one that was set before. Fails on a token that cannot stand in a header.
pub fn with_bearer_token(builder: ClientBuilder, token: &str) -> (result: Result<
    ClientBuilder,
    HttpClientError,
>)
    requires
        builder_settings(builder).headers.len() <= MAX_HEADERS,
    ensures
        bears(builder_settings(builder), token@, result),
        match result {
            Ok(changed) => {
                &&& is_header_value("Bearer "@ + token@)
                &&& builder_settings(changed) == (ClientSettings {
                    headers: builder_settings(builder).headers.insert(
                        "authorization"@,
                        seq![encode_utf8("Bearer "@ + token@)],
                    ),
                    ..builder_settings(builder)
                })
            },
            Err(error) => error is OAuth2MissingAccessToken && !is_header_value(
                "Bearer "@ + token@,
            ),
        },
{
    match bearer_header_map(token) {
        Some(map) => {
            let ghost fields = header_entries(map);
            let ghost before = builder_settings(builder).headers;
            assert(fields.len() == 1);
            let changed = set_default_headers(builder, map);
            assert(overridden(before, fields) =~= before.insert(
                "authorization"@,
                seq![encode_utf8("Bearer "@ + token@)],
            ));
            Ok(changed)
        },
        None => Err(HttpClientError::OAuth2MissingAccessToken),
    }
}

/// A token that was put into the headers last is the authorization that every
/// request carries, whatever other headers there are.
pub proof fn law_token_is_the_authorization(
    headers: Seq<(Seq<char>, Seq<char>)>,
    token: Seq<char>,
    verify_ssl: Option<VerifySslModel>,
    ca_bundle: Seq<u8>,
)
    requires
        authorized_last(headers, token),
        is_header_value("Bearer "@ + token),
    ensures
        settings_for(headers, verify_ssl, ca_bundle).headers.contains_key("authorization"@),
        settings_for(headers, verify_ssl, ca_bundle).headers["authorization"@]
            == seq![encode_utf8("Bearer "@ + token)],
{
    reveal_strlit("Authorization");
    reveal_strlit("authorization");
    assert(ascii_lower("Authorization"@) =~= "authorization"@);
    assert(is_header_name("Authorization"@));
    assert(header_fields(headers).contains_key("authorization"@));
}

/// A client verifies the server's certificate unless verification is off, and it
/// trusts the system's certificates unless it has a bundle of its own.
pub proof fn law_verification_is_the_default(
    headers: Seq<(Seq<char>, Seq<char>)>,
    verify_ssl: Option<VerifySslModel>,
    ca_bundle: Seq<u8>,
)
    ensures
        settings_for(headers, verify_ssl, ca_bundle).accept_invalid_certs <==> verify_ssl == Some(
            VerifySslModel::Off,
        ),
        settings_for(headers, verify_ssl, ca_bundle).roots_only <==> (verify_ssl matches Some(
            VerifySslModel::CaBundle(_),
        )),
        verify_ssl is None ==> settings_for(headers, verify_ssl, ca_bundle) == settings_for(
            headers,
            Some(VerifySslModel::On),
            ca_bundle,
        ),
{
}

/// The value of a sensitive header has no influence on what is logged.
pub proof fn law_masked_values_do_not_matter(
    lowered: Seq<char>,
    value: Seq<char>,
    other: Seq<char>,
)
    requires
        is_sensitive(lowered),
    ensures
        masked(lowered, value) == masked(lowered, other),
{
}

/// The form of a grant says which grant it is and holds the id and the secret,
/// each character for character under its own name and each once, and nothing
/// else; so different ids or secrets give different forms.
pub proof fn law_grant_forms_hold_id_and_secret(
    client_id: Seq<char>,
    client_secret: Seq<char>,
    other_id: Seq<char>,
    other_secret: Seq<char>,
)
    ensures
        ({
            let form = grant_form(client_id, client_secret);
            &&& form.len() == 3
            &&& form.contains(("grant_type"@, "client_credentials"@))
            &&& form.contains(("client_id"@, client_id))
            &&& form.contains(("client_secret"@, client_secret))
            &&& distinct_keys(form)
        }),
        grant_form(client_id, client_secret) == grant_form(other_id, other_secret) ==> client_id
            == other_id && client_secret == other_secret,
{
    reveal_strlit("grant_type");
    reveal_strlit("client_id");
    reveal_strlit("client_secret");
    let form = grant_form(client_id, client_secret);
    let other = grant_form(other_id, other_secret);
    assert(form[0] == ("grant_type"@, "client_credentials"@));
    assert(form[1] == ("client_id"@, client_id));
    assert(form[2] == ("client_secret"@, client_secret));
    assert(other[1] == ("client_id"@, other_id));
    assert(other[2] == ("client_secret"@, other_secret));
    assert("grant_type"@.len() == 10 && "client_id"@.len() == 9 && "client_secret"@.len() == 13);
}

/// The access token is the text under `"access_token"` of an object, character for
/// character; any other answer has none.
pub proof fn law_access_tokens_are_read_as_they_are(body: JsonModel, token: Seq<char>)
    ensures
        access_token(body) == Some(token) <==> (body matches JsonModel::Object(members) && member(
            members,
            "access_token"@,
        ) == Some(JsonModel::Text(token))),
{
}

/// The values of the three sensitive headers are hidden behind one mask, and the
/// value of any other header is shown character for character.
pub proof fn law_only_sensitive_values_are_masked(lowered: Seq<char>, value: Seq<char>)
    ensures
        lowered == "authorization"@ || lowered == "x-api-key"@ || lowered == "cookie"@ ==> masked(
            lowered,
            value,
        ) == "***MASKED***"@,
        lowered != "authorization"@ && lowered != "x-api-key"@ && lowered != "cookie"@ ==> masked(
            lowered,
            value,
        ) == value,
{
}

/// A client gives a request half a minute and trusts the bundle that it was given,
/// as it is, and no other; without a bundle it adds none.
pub proof fn law_clients_have_their_settings(
    headers: Seq<(Seq<char>, Seq<char>)>,
    verify_ssl: Option<VerifySslModel>,
    ca_bundle: Seq<u8>,
)
    ensures
        ({
            let settings = settings_for(headers, verify_ssl, ca_bundle);
            &&& settings.timeout == Some(30nat)
            &&& (verify_ssl matches Some(VerifySslModel::CaBundle(_))) ==> settings.roots.len() == 1
                && settings.roots[0] == ca_bundle
            &&& !(verify_ssl matches Some(VerifySslModel::CaBundle(_))) ==> settings.roots.len()
                == 0
        }),
{
}

/// A valid header that no later one overrides is sent with every request, as the
/// bytes of its value.
pub proof fn law_given_headers_are_sent(
    before: Seq<(Seq<char>, Seq<char>)>,
    pair: (Seq<char>, Seq<char>),
    after: Seq<(Seq<char>, Seq<char>)>,
    verify_ssl: Option<VerifySslModel>,
    ca_bundle: Seq<u8>,
)
    requires
        is_header_name(pair.0),
        is_header_value(pair.1),
        forall|i: int|
            0 <= i < after.len() ==> ascii_lower((#[trigger] after[i]).0) != ascii_lower(pair.0),
    ensures
        ({
            let sent = settings_for(before.push(pair) + after, verify_ssl, ca_bundle).headers;
            &&& sent.contains_key(ascii_lower(pair.0))
            &&& sent[ascii_lower(pair.0)] == seq![encode_utf8(pair.1)]
        }),
{
    law_last_header_counts(before, pair, after);
}

/// A header that is not given is not sent, but for the default to accept every
/// kind of answer.
pub proof fn law_other_headers_are_not_sent(
    given: Seq<(Seq<char>, Seq<char>)>,
    verify_ssl: Option<VerifySslModel>,
    ca_bundle: Seq<u8>,
    name: Seq<char>,
)
    requires
        forall|i: int| 0 <= i < given.len() ==> ascii_lower((#[trigger] given[i]).0) != name,
    ensures
        ({
            let sent = settings_for(given, verify_ssl, ca_bundle).headers;
            &&& sent.contains_key(name) <==> name == "accept"@
            &&& name == "accept"@ ==> sent[name] == seq![encode_utf8("*/*"@)]
        }),
{
    if header_fields(given).contains_key(name) {
        let i = law_header_fields_come_from_pairs(given, name);
        assert(ascii_lower(given[i].0) == name);
    }
}

/// Of the headers of a map, each name's last value takes the place of what was
/// there; the other headers stay.
pub proof fn law_overriding_headers(
    headers: Map<Seq<char>, Seq<Seq<u8>>>,
    with: Map<Seq<char>, Seq<Seq<u8>>>,
    name: Seq<char>,
)
    ensures
        overridden(headers, with).contains_key(name) <==> headers.contains_key(name)
            || with.contains_key(name),
        with.contains_key(name) ==> overridden(headers, with)[name].len() == 1 && overridden(
            headers,
            with,
        )[name][0] == with[name].last(),
        headers.contains_key(name) && !with.contains_key(name) ==> overridden(headers, with)[name]
            == headers[name],
{
}

/// A choice of how to verify is seen as that choice.
pub proof fn law_verify_ssl_view(verify: &VerifySsl)
    ensures
        verify_ssl_view(Some(verify)) == Some(verify@),
        verify_ssl_view(None) is None,
{
}

/// What an error says ends with what the error behind it says, and names the
/// bundle where one is at fault.
pub proof fn law_client_errors_name_their_source(error: HttpClientError, source: Seq<char>)
    ensures
        ({
            let text = http_error_text(error, source);
            match error {
                HttpClientError::ReadCaBundle { path, source: _ } => {
                    &&& stands_at(text, "failed to read CA bundle at "@, 0)
                    &&& stands_at(text, path@, 28)
                    &&& stands_at(text, ": "@, 28 + path@.len() as int)
                    &&& stands_at(text, source, 30 + path@.len() as int)
                    &&& text.len() == 30 + path@.len() + source.len()
                },
                HttpClientError::ParseCaBundle { path, source: _ } => {
                    &&& stands_at(text, "invalid CA bundle at "@, 0)
                    &&& stands_at(text, path@, 21)
                    &&& stands_at(text, ": "@, 21 + path@.len() as int)
                    &&& stands_at(text, source, 23 + path@.len() as int)
                    &&& text.len() == 23 + path@.len() + source.len()
                },
                HttpClientError::Build(_) => {
                    &&& stands_at(text, "failed to build HTTP client: "@, 0)
                    &&& stands_at(text, source, 29)
                    &&& text.len() == 29 + source.len()
                },
                HttpClientError::OAuth2Request(_) => {
                    &&& stands_at(text, "OAuth2 token request failed: "@, 0)
                    &&& stands_at(text, source, 29)
                    &&& text.len() == 29 + source.len()
                },
                HttpClientError::OAuth2MissingAccessToken => text
                    == "OAuth2 token response did not include an access_token"@,
            }
        }),
{
    reveal_strlit("failed to read CA bundle at ");
    reveal_strlit("invalid CA bundle at ");
    reveal_strlit("failed to build HTTP client: ");
    reveal_strlit("OAuth2 token request failed: ");
    reveal_strlit(": ");
}

/// Where nothing is said, certificates are verified, none is added, and a request
/// may take any time.
pub proof fn law_defaults_are_safe()
    ensures
        !default_settings().accept_invalid_certs,
        !default_settings().roots_only,
        default_settings().roots.len() == 0,
        default_settings().timeout is None,
{
}

/// What is logged has the same names in the same order. The values of the three
/// sensitive headers do not show, in whatever case of ASCII letters their names
/// are, and the value of any other header shows as it is.
pub proof fn law_logged_headers_hide_what_is_sensitive(
    headers: Seq<(Seq<char>, Seq<char>)>,
    logged: Seq<(Seq<char>, Seq<char>)>,
    i: int,
)
    requires
        logged_as(headers, logged),
        0 <= i < headers.len(),
    ensures
        logged.len() == headers.len(),
        logged[i].0 == headers[i].0,
        logged[i].1 == "***MASKED***"@ || logged[i].1 == headers[i].1,
        ({
            let name = if all_ascii(headers[i].0) {
                ascii_lower(headers[i].0)
            } else {
                lowercase(headers[i].0)
            };
            if name == "authorization"@ || name == "x-api-key"@ || name == "cookie"@ {
                logged[i].1 == "***MASKED***"@
            } else {
                logged[i].1 == headers[i].1
            }
        }),
{
    assert(logged[i].0 == headers[i].0);
}

/// A bearer token that can stand in a header is the authorization of every request,
/// whatever it was before, and changes no other setting; one that cannot is refused.
pub proof fn law_bearer_tokens_change_the_authorization_only(
    before: ClientSettings,
    token: Seq<char>,
    result: Result<ClientBuilder, HttpClientError>,
    name: Seq<char>,
)
    requires
        bears(before, token, result),
    ensures
        result is Ok <==> is_header_value("Bearer "@ + token),
        result matches Err(error) ==> error is OAuth2MissingAccessToken,
        result matches Ok(changed) ==> {
            let after = builder_settings(changed);
            &&& after.headers.contains_key("authorization"@)
            &&& after.headers["authorization"@] == seq![encode_utf8("Bearer "@ + token)]
            &&& name != "authorization"@ ==> {
                &&& after.headers.contains_key(name) <==> before.headers.contains_key(name)
                &&& before.headers.contains_key(name) ==> after.headers[name]
                    == before.headers[name]
            }
            &&& after.timeout == before.timeout
            &&& after.accept_invalid_certs == before.accept_invalid_certs
            &&& after.roots == before.roots
            &&& after.roots_only == before.roots_only
        },
{
}

/// A certificate that could be read is trusted, and none of the system's; one that
/// could not fails under the bundle's path, with its own error. Nothing else
/// changes.
pub proof fn law_bundles_are_trusted_or_reported(
    before: ClientSettings,
    path: PathBuf,
    certificate: Result<Certificate, reqwest::Error>,
    trusting: Result<ClientBuilder, HttpClientError>,
)
    requires
        trusts(before, path, certificate, trusting),
    ensures
        trusting is Ok <==> certificate is Ok,
        trusting matches Ok(result) ==> {
            let after = builder_settings(result);
            &&& after.roots_only
            &&& after.roots.len() == before.roots.len() + 1
            &&& after.roots.last() == certificate_pem(certificate->Ok_0)
            &&& after.roots.drop_last() == before.roots
            &&& after.timeout == before.timeout
            &&& after.accept_invalid_certs == before.accept_invalid_certs
            &&& after.headers == before.headers
        },
        certificate matches Err(error) ==> (trusting matches Err(
            HttpClientError::ParseCaBundle { path: p, source },
        ) && p@ == path_text(path) && source == error),
{
    if let Ok(result) = trusting {
        assert(builder_settings(result).roots.drop_last() =~= before.roots);
    }
}

/// The client is set up unless there is a bundle that could not be read, and then
/// fails under its path, with the error of reading it. It verifies certificates
/// unless that is off, trusts the bundle's contents alone where there is one, and
/// gives a request half a minute.
pub proof fn law_clients_are_set_up_or_report_their_bundle(
    headers: Seq<(Seq<char>, Seq<char>)>,
    verify_ssl: Option<&VerifySsl>,
    ca_bundle: Option<Result<Vec<u8>, std::io::Error>>,
    settings: Result<ClientSettings, HttpClientError>,
)
    requires
        configures(headers, verify_ssl, ca_bundle, settings),
        verify_ssl matches Some(VerifySsl::CaBundle(_)) ==> ca_bundle is Some,
    ensures
        settings is Err <==> (verify_ssl matches Some(VerifySsl::CaBundle(_))
            && ca_bundle->Some_0 is Err),
        settings matches Err(e) ==> (e matches HttpClientError::ReadCaBundle { path: p, source }
            && p@ == path_text(verify_ssl->Some_0->CaBundle_0) && source
            == ca_bundle->Some_0->Err_0),
        settings matches Ok(s) ==> {
            &&& s.timeout == Some(30nat)
            &&& s.accept_invalid_certs <==> (verify_ssl matches Some(VerifySsl::Off))
            &&& s.roots_only <==> (verify_ssl matches Some(VerifySsl::CaBundle(_)))
            &&& s.roots_only ==> s.roots == seq![ca_bundle->Some_0->Ok_0@]
            &&& !s.roots_only ==> s.roots.len() == 0
            &&& s.headers == settings_for(headers, None, Seq::empty()).headers
        },
{
}

} // verus!
