//! What the command line asks for.
//!
//! `Cli` holds the parsed flags; its methods say what they mean together.

use crate::files::{path_of, path_text};
use crate::table::{collect, pair_views, Table};
use crate::text::{
    all_ascii, ascii_lower, begins_with, copied, joined, lowercase, same_text, stands_at, texts,
    to_lowercase, trim, trimmed,
};
use std::path::PathBuf;
use vstd::prelude::*;
use vstd::string::*;

verus! {

/// The headers to expose to browsers where none are given.
pub const DEFAULT_EXPOSE_HEADERS: [&'static str; 1] = ["mcp-session-id"];

/// The transport that the client speaks.
#[derive(Debug, Clone, Copy, PartialEq, Eq, Structural)]
pub enum Transport {
    Streamablehttp,
}

/// How much to log.
#[derive(Debug, Clone, Copy, PartialEq, Eq, Structural)]
pub enum LogLevel {
    Debug,
    Info,
    Warning,
    Error,
    Critical,
}

/// How to verify the remote server's certificate.
#[derive(Debug, Clone, PartialEq, Eq)]
pub enum VerifySsl {
    On,
    Off,
    /// Trust the certificates in the PEM file at this path.
    CaBundle(PathBuf),
}

/// The model of a `VerifySsl`: a path by its text.
pub enum VerifySslModel {
    On,
    Off,
    CaBundle(Seq<char>),
}

impl View for VerifySsl {
    type V = VerifySslModel;

    open spec fn view(&self) -> VerifySslModel {
        match self {
            VerifySsl::On => VerifySslModel::On,
            VerifySsl::Off => VerifySslModel::Off,
            VerifySsl::CaBundle(path) => VerifySslModel::CaBundle(path_text(*path)),
        }
    }
}

/// The parsed command line.
#[derive(Debug)]
pub struct Cli {
    /// Command or URL to connect to.
    pub command_or_url: Option<String>,
    /// Headers for the remote server: keys and values in turn.
    pub headers: Vec<String>,
    /// The transport of the client.
    pub transport: Transport,
    /// OAuth2 client ID.
    pub client_id: Option<String>,
    /// OAuth2 client secret.
    pub client_secret: Option<String>,
    /// OAuth2 token URL.
    pub token_url: Option<String>,
    /// The value of `--verify-ssl`.
    pub verify_ssl: Option<String>,
    /// Whether `--no-verify-ssl` was given.
    pub no_verify_ssl: bool,
    /// Extra arguments of the default server's command.
    pub args: Vec<String>,
    /// Environment of the default server: keys and values in turn.
    pub env: Vec<String>,
    /// The working directory of the default server.
    pub cwd: Option<PathBuf>,
    /// Whether the servers inherit the whole environment.
    pub pass_environment: bool,
    /// The log level.
    pub log_level: LogLevel,
    /// Whether `--debug` was given.
    pub debug: bool,
    /// Named stdio servers: names and command strings in turn.
    pub named_server_definitions: Vec<String>,
    /// Path of a JSON configuration file of named stdio servers.
    pub named_server_config: Option<PathBuf>,
    /// Port to serve on; 0 for any.
    pub port: u16,
    /// Host to serve on.
    pub host: String,
    /// Whether the HTTP transport is stateless.
    pub stateless: bool,
    /// Allowed origins.
    pub allow_origin: Vec<String>,
    /// Headers to expose to browsers.
    pub expose_headers: Option<Vec<String>>,
    /// How many upstream connections to open in client mode.
    pub upstream_pool_size: usize,
    /// How long a forwarded request may take in client mode, in seconds.
    pub upstream_timeout_secs: u64,
}

/// What is wrong with a command line as a whole.
#[derive(Debug, Clone, Copy, PartialEq, Eq, Structural)]
pub enum CliError {
    NoServerSpecified,
}

impl CliError {
    /// The error in words.
    pub fn message(&self) -> (text: String)
        ensures
            text@
                == "either a command_or_url for a default server or at least one --named-server (or --named-server-config) must be provided for stdio mode"@,
    {
        "either a command_or_url for a default server or at least one --named-server (or --named-server-config) must be provided for stdio mode".to_owned()
    }
}

/// A text that begins like a URL of the web.
pub open spec fn is_url(text: Seq<char>) -> bool {
    "http://"@.is_prefix_of(text) || "https://"@.is_prefix_of(text)
}

/// Whether a text begins like a URL of the web.
pub fn looks_like_url(text: &str) -> (url: bool)
    ensures
        url == is_url(text@),
{
    begins_with(text, "http://") || begins_with(text, "https://")
}

/// The pairs of a flat list of keys and values in turn; a last key without a
/// value is dropped.
pub open spec fn pairs_of(flat: Seq<Seq<char>>) -> Seq<(Seq<char>, Seq<char>)> {
    Seq::new(flat.len() / 2, |i: int| (flat[2 * i], flat[2 * i + 1]))
}

/// The flat list of keys and values in turn of a list of pairs.
pub open spec fn flattened(pairs: Seq<(Seq<char>, Seq<char>)>) -> Seq<Seq<char>> {
    Seq::new(2 * pairs.len(), |i: int| if i % 2 == 0 {
        pairs[i / 2].0
    } else {
        pairs[i / 2].1
    })
}

/// Pairing up undoes flattening.
pub proof fn law_pairs_undo_flattening(pairs: Seq<(Seq<char>, Seq<char>)>)
    ensures
        pairs_of(flattened(pairs)) == pairs,
{
    assert(pairs_of(flattened(pairs)) =~= pairs);
}

/// Nothing of a flat list of even length is lost or reordered by pairing up.
pub proof fn law_flattening_undoes_pairs(flat: Seq<Seq<char>>)
    requires
        flat.len() % 2 == 0,
    ensures
        flattened(pairs_of(flat)) == flat,
{
    assert(flattened(pairs_of(flat)) =~= flat);
}

/// The headers with the authorization that a bearer token gives, in place of
/// an `Authorization` header that they had.
pub open spec fn with_authorization(
    headers: Map<Seq<char>, Seq<char>>,
    token: Option<Seq<char>>,
) -> Map<Seq<char>, Seq<char>> {
    match token {
        Some(token) => headers.insert("Authorization"@, "Bearer "@ + token),
        None => headers,
    }
}

/// The characters of an optional token.
pub open spec fn token_text(token: Option<&str>) -> Option<Seq<char>> {
    match token {
        Some(t) => Some(t@),
        None => None,
    }
}

/// The last header is the authorization that the token gives, so that it counts
/// even where another header's name differs from it in case only.
pub open spec fn authorized_last(
    entries: Seq<(Seq<char>, Seq<char>)>,
    token: Seq<char>,
) -> bool {
    entries.len() > 0 && entries.last() == ("Authorization"@, "Bearer "@ + token)
}

/// Puts the authorization that a bearer token gives into the headers, as the
/// last of them.
pub fn authorize(headers: &mut Table<String, String>, token: Option<&str>)
    ensures
        final(headers)@ == with_authorization(old(headers)@, token_text(token)),
        match token {
            Some(t) => {
                &&& final(headers).entries().len() <= old(headers).entries().len() + 1
                &&& authorized_last(final(headers).entries(), t@)
            },
            None => final(headers).entries() == old(headers).entries(),
        },
{
    if let Some(token) = token {
        let name = "Authorization".to_owned();
        headers.remove(&name);
        headers.insert(name, joined("Bearer ", token));
        assert(headers@ =~= old(headers)@.insert("Authorization"@, "Bearer "@ + token@));
    }
}

/// What a `--verify-ssl` value means, given its trimmed lower-case form: one of
/// the words for yes, one of the words for no, or else a path as it was given.
pub open spec fn verify_ssl_meaning(lowered: Seq<char>, raw: Seq<char>) -> VerifySslModel {
    if lowered == "1"@ || lowered == "true"@ || lowered == "yes"@ || lowered == "on"@ {
        VerifySslModel::On
    } else if lowered == "0"@ || lowered == "false"@ || lowered == "no"@ || lowered == "off"@ {
        VerifySslModel::Off
    } else {
        VerifySslModel::CaBundle(raw)
    }
}

/// Decides what a `--verify-ssl` value means, given its trimmed lower-case form.
pub fn read_verify_ssl(lowered: &str, raw: &str) -> (meaning: VerifySsl)
    ensures
        meaning@ == verify_ssl_meaning(lowered@, raw@),
{
    if same_text(lowered, "1") || same_text(lowered, "true") || same_text(lowered, "yes")
        || same_text(lowered, "on") {
        VerifySsl::On
    } else if same_text(lowered, "0") || same_text(lowered, "false") || same_text(lowered, "no")
        || same_text(lowered, "off") {
        VerifySsl::Off
    } else {
        VerifySsl::CaBundle(path_of(raw))
    }
}

impl Cli {
    /// A command line is valid if it names a server: a command or URL, a named
    /// server, or a configuration file.
    pub open spec fn validation(&self, valid: Result<(), CliError>) -> bool {
        valid == if self.command_or_url is None && self.named_server_definitions@.len() == 0
            && self.named_server_config is None {
            Err::<(), CliError>(CliError::NoServerSpecified)
        } else {
            Ok::<(), CliError>(())
        }
    }

    /// Checks that the command line names a server.
    pub fn validate(&self) -> (valid: Result<(), CliError>)
        ensures
            self.validation(valid),
    {
        if self.command_or_url.is_none() && self.named_server_definitions.len() == 0
            && self.named_server_config.is_none() {
            return Err(CliError::NoServerSpecified);
        }
        Ok(())
    }

    /// Client mode: the command line gives a URL.
    pub open spec fn client_mode(&self) -> bool {
        self.command_or_url matches Some(value) && is_url(value@)
    }

    /// Whether the proxy is to run as a client of a remote server.
    pub fn is_client_mode(&self) -> (client: bool)
        ensures
            client == self.client_mode(),
    {
        match &self.command_or_url {
            Some(value) => looks_like_url(value.as_str()),
            None => false,
        }
    }

    /// The log level that is in effect.
    pub open spec fn log_level_in_effect(&self) -> LogLevel {
        if self.debug {
            LogLevel::Debug
        } else {
            self.log_level
        }
    }

    /// The log level; `--debug` takes precedence over `--log-level`.
    pub fn effective_log_level(&self) -> (level: LogLevel)
        ensures
            level == self.log_level_in_effect(),
            level == if self.debug {
                LogLevel::Debug
            } else {
                self.log_level
            },
    {
        if self.debug {
            LogLevel::Debug
        } else {
            self.log_level
        }
    }

    /// Puts the keys and values of a flat list together again.
    pub fn pairs(flat: &Vec<String>) -> (pairs: Vec<(String, String)>)
        ensures
            pair_views(pairs@) == pairs_of(texts(flat@)),
    {
        let mut pairs: Vec<(String, String)> = Vec::new();
        let len: usize = flat.len();
        let n: usize = len / 2;
        let mut i: usize = 0;
        while i < n
            invariant
                i <= n,
                len == flat@.len(),
                n == len / 2,
                pairs@.len() == i,
                forall|j: int|
                    0 <= j < i ==> (#[trigger] pairs@[j]).0@ == flat@[2 * j]@ && pairs@[j].1@
                        == flat@[2 * j + 1]@,
            decreases n - i,
        {
            pairs.push((flat[2 * i].clone(), flat[2 * i + 1].clone()));
            i = i + 1;
        }
        assert(pair_views(pairs@) =~= pairs_of(texts(flat@)));
        pairs
    }

    /// The headers given on the command line.
    pub fn header_pairs(&self) -> (pairs: Vec<(String, String)>)
        ensures
            pair_views(pairs@) == pairs_of(texts(self.headers@)),
    {
        Self::pairs(&self.headers)
    }

    /// The environment given on the command line.
    pub fn env_pairs(&self) -> (pairs: Vec<(String, String)>)
        ensures
            pair_views(pairs@) == pairs_of(texts(self.env@)),
    {
        Self::pairs(&self.env)
    }

    /// The named servers given on the command line.
    pub fn named_server_pairs(&self) -> (pairs: Vec<(String, String)>)
        ensures
            pair_views(pairs@) == pairs_of(texts(self.named_server_definitions@)),
    {
        Self::pairs(&self.named_server_definitions)
    }

    /// The headers for the remote server in client mode. The value of
    /// `$API_ACCESS_TOKEN`, if it is set, overrides an `Authorization` header of
    /// the command line.
    pub fn effective_client_headers(&self, api_access_token: Option<&str>) -> (headers: Table<
        String,
        String,
    >)
        ensures
            headers@ == with_authorization(
                collect(pairs_of(texts(self.headers@))),
                token_text(api_access_token),
            ),
            api_access_token matches Some(token) ==> authorized_last(headers.entries(), token@),
            headers.entries().len() <= self.headers@.len() / 2 + 1,
    {
        let mut headers = Table::from_pairs(&self.header_pairs());
        authorize(&mut headers, api_access_token);
        headers
    }

    /// What the OAuth2 grant is made with, if there is to be one.
    pub open spec fn grants_with(&self, credentials: Option<(String, String, String)>) -> bool {
        match (self.client_id, self.client_secret, self.token_url) {
            (Some(id), Some(secret), Some(url)) => credentials matches Some(c) && (c.0@ == id@
                && c.1@ == secret@ && c.2@ == url@),
            _ => credentials is None,
        }
    }

    /// The OAuth2 client id, client secret and token URL, if all three are given.
    pub fn oauth2_client_credentials(&self) -> (credentials: Option<(String, String, String)>)
        ensures
            self.grants_with(credentials),
            match (self.client_id, self.client_secret, self.token_url) {
                (Some(id), Some(secret), Some(url)) => credentials matches Some(c) && (
                    c.0@ == id@ && c.1@ == secret@ && c.2@ == url@),
                _ => credentials is None,
            },
    {
        match (&self.client_id, &self.client_secret, &self.token_url) {
            (Some(id), Some(secret), Some(url)) => Some((id.clone(), secret.clone(), url.clone())),
            _ => None,
        }
    }

    /// What `--verify-ssl` and `--no-verify-ssl` mean together: the latter wins.
    /// A value of ASCII characters is read without regard to case; of others,
    /// Unicode's lower case decides.
    pub open spec fn asks_for(&self, verify: Option<VerifySsl>) -> bool {
        if self.no_verify_ssl {
            verify matches Some(v) && v@ == VerifySslModel::Off
        } else {
            match self.verify_ssl {
                None => verify is None,
                Some(raw) => verify matches Some(v) && {
                    &&& v@ == verify_ssl_meaning(lowercase(trimmed(raw@)), raw@)
                    &&& all_ascii(trimmed(raw@)) ==> v@ == verify_ssl_meaning(
                        ascii_lower(trimmed(raw@)),
                        raw@,
                    )
                },
            }
        }
    }

    /// What `--verify-ssl` and `--no-verify-ssl` mean together; `None` is the
    /// default, which is to verify.
    pub fn verify_ssl(&self) -> (verify: Option<VerifySsl>)
        ensures
            self.asks_for(verify),
    {
        if self.no_verify_ssl {
            return Some(VerifySsl::Off);
        }
        match &self.verify_ssl {
            None => None,
            Some(raw) => {
                let lowered = to_lowercase(trim(raw.as_str()));
                Some(read_verify_ssl(lowered.as_str(), raw.as_str()))
            },
        }
    }

    /// The headers to expose to browsers: those given, or the default ones.
    pub fn effective_expose_headers(&self) -> (headers: Vec<String>)
        ensures
            texts(headers@) == self.exposed_headers(),
    {
        if let Some(headers) = &self.expose_headers {
            if headers.len() > 0 {
                return copied(headers);
            }
        }
        let mut headers: Vec<String> = Vec::new();
        headers.push(DEFAULT_EXPOSE_HEADERS[0].to_owned());
        assert(texts(headers@) =~= seq![DEFAULT_EXPOSE_HEADERS[0]@]);
        headers
    }

    /// The headers to expose to browsers.
    pub open spec fn exposed_headers(&self) -> Seq<Seq<char>> {
        match self.expose_headers {
            Some(headers) if headers@.len() > 0 => texts(headers@),
            _ => seq![DEFAULT_EXPOSE_HEADERS[0]@],
        }
    }

    /// The origins that may use the server from a browser, if any.
    pub fn effective_allow_origins(&self) -> (origins: Option<Vec<String>>)
        ensures
            if self.allow_origin@.len() == 0 {
                origins is None
            } else {
                origins matches Some(list) && texts(list@) == texts(self.allow_origin@)
            },
    {
        if self.allow_origin.len() == 0 {
            None
        } else {
            Some(copied(&self.allow_origin))
        }
    }

    /// The host to serve on.
    pub fn effective_bind_host(&self) -> (host: &str)
        ensures
            host@ == self.host@,
    {
        self.host.as_str()
    }

    /// The port to serve on.
    pub fn effective_port(&self) -> (port: u16)
        ensures
            port == self.port,
    {
        self.port
    }

    /// The environment that every server process starts from: that of this
    /// process where it is passed on, and otherwise an empty one.
    pub fn base_env(&self, process_env: &Vec<(String, String)>) -> (env: Table<String, String>)
        ensures
            env@ == if self.pass_environment {
                collect(pair_views(process_env@))
            } else {
                Map::<Seq<char>, Seq<char>>::empty()
            },
    {
        if self.pass_environment {
            Table::from_pairs(process_env)
        } else {
            Table::new()
        }
    }
}

/// A later token overrides an earlier one, and no token touches another header.
pub proof fn law_last_token_counts(
    headers: Map<Seq<char>, Seq<char>>,
    earlier: Option<Seq<char>>,
    token: Seq<char>,
    name: Seq<char>,
)
    ensures
        with_authorization(with_authorization(headers, earlier), Some(token))
            == with_authorization(headers, Some(token)),
        with_authorization(headers, Some(token))["Authorization"@] == "Bearer "@ + token,
        name != "Authorization"@ ==> {
            &&& with_authorization(headers, Some(token)).contains_key(name)
                <==> headers.contains_key(name)
            &&& headers.contains_key(name) ==> with_authorization(headers, Some(token))[name]
                == headers[name]
        },
{
    assert(with_authorization(with_authorization(headers, earlier), Some(token))
        =~= with_authorization(headers, Some(token)));
}

/// `--no-verify-ssl` wins over every value of `--verify-ssl`.
pub proof fn law_no_verify_ssl_wins(cli: Cli, verify: Option<VerifySsl>)
    requires
        cli.no_verify_ssl,
        cli.asks_for(verify),
    ensures
        verify matches Some(v) && v@ == VerifySslModel::Off,
{
}

/// The words for yes and no are recognised without regard to the case of their
/// letters and to white space around them.
pub proof fn law_verify_ssl_ignores_case(
    cli: Cli,
    verify: Option<VerifySsl>,
    other: Cli,
    other_verify: Option<VerifySsl>,
)
    requires
        !cli.no_verify_ssl && cli.verify_ssl is Some && cli.asks_for(verify),
        !other.no_verify_ssl && other.verify_ssl is Some && other.asks_for(other_verify),
        all_ascii(trimmed(cli.verify_ssl->Some_0@)),
        all_ascii(trimmed(other.verify_ssl->Some_0@)),
        ascii_lower(trimmed(cli.verify_ssl->Some_0@)) == ascii_lower(
            trimmed(other.verify_ssl->Some_0@),
        ),
    ensures
        verify->Some_0@ == other_verify->Some_0@ || (verify->Some_0@ is CaBundle
            && other_verify->Some_0@ is CaBundle),
{
}

/// A URL of the web is a text that begins with `http://` or `https://`, and
/// whatever follows makes no difference.
pub proof fn law_urls_begin_like_urls(text: Seq<char>, rest: Seq<char>)
    ensures
        is_url("http://"@ + rest),
        is_url("https://"@ + rest),
        is_url(text) <==> stands_at(text, "http://"@, 0) || stands_at(text, "https://"@, 0),
        text.len() < 7 ==> !is_url(text),
{
    reveal_strlit("http://");
    reveal_strlit("https://");
    assert("http://"@.is_prefix_of("http://"@ + rest)) by {
        assert(("http://"@ + rest).subrange(0, 7) =~= "http://"@);
    }
    assert("https://"@.is_prefix_of("https://"@ + rest)) by {
        assert(("https://"@ + rest).subrange(0, 8) =~= "https://"@);
    }
    if stands_at(text, "http://"@, 0) {
        assert(text.subrange(0, 7) =~= "http://"@) by {
            assert forall|i: int| 0 <= i < 7 implies text[i] == "http://"@[i] by {
                assert(text[0 + i] == "http://"@[i]);
            }
        }
    }
    if stands_at(text, "https://"@, 0) {
        assert(text.subrange(0, 8) =~= "https://"@) by {
            assert forall|i: int| 0 <= i < 8 implies text[i] == "https://"@[i] by {
                assert(text[0 + i] == "https://"@[i]);
            }
        }
    }
}

/// Client mode is when the first argument is there and begins like a URL.
pub proof fn law_client_mode_is_for_urls(cli: Cli)
    ensures
        cli.command_or_url is None ==> !cli.client_mode(),
        cli.command_or_url matches Some(value) ==> (cli.client_mode() <==> stands_at(
            value@,
            "http://"@,
            0,
        ) || stands_at(value@, "https://"@, 0)),
{
    if let Some(value) = cli.command_or_url {
        law_urls_begin_like_urls(value@, Seq::empty());
    }
}

/// The pairs of a flat list are its keys and values in turn: each pair is made of
/// two neighbours, and two more of them make one more pair.
pub proof fn law_pairs_are_neighbours(flat: Seq<Seq<char>>, key: Seq<char>, value: Seq<char>)
    ensures
        pairs_of(flat).len() == flat.len() / 2,
        forall|i: int|
            0 <= i < flat.len() / 2 ==> (#[trigger] pairs_of(flat)[i]).0 == flat[2 * i]
                && pairs_of(flat)[i].1 == flat[2 * i + 1],
        flat.len() % 2 == 0 ==> pairs_of(flat.push(key).push(value)) == pairs_of(flat).push(
            (key, value),
        ),
        flat.len() % 2 == 0 ==> pairs_of(flat.push(key)) == pairs_of(flat),
{
    if flat.len() % 2 == 0 {
        assert(pairs_of(flat.push(key).push(value)) =~= pairs_of(flat).push((key, value)));
        assert(pairs_of(flat.push(key)) =~= pairs_of(flat));
    }
}

/// A token is sent as it is, behind the word `Bearer` and a blank, under the name
/// `Authorization`; without one the headers stay as they are.
pub proof fn law_tokens_are_sent_as_they_are(
    headers: Map<Seq<char>, Seq<char>>,
    token: &str,
    entries: Seq<(Seq<char>, Seq<char>)>,
)
    ensures
        token_text(Some(token)) == Some(token@),
        token_text(None) is None,
        with_authorization(headers, None) == headers,
        ({
            let sent = with_authorization(headers, token_text(Some(token)));
            &&& sent.contains_key("Authorization"@)
            &&& stands_at(sent["Authorization"@], "Bearer "@, 0)
            &&& stands_at(sent["Authorization"@], token@, 7)
            &&& sent["Authorization"@].len() == 7 + token@.len()
        }),
        authorized_last(entries, token@) ==> {
            &&& entries.len() > 0
            &&& entries.last().0 == "Authorization"@
            &&& stands_at(entries.last().1, "Bearer "@, 0)
            &&& stands_at(entries.last().1, token@, 7)
            &&& entries.last().1.len() == 7 + token@.len()
        },
{
    reveal_strlit("Bearer ");
}

/// The model of how to verify is the choice, with the path of the bundle.
pub proof fn law_verify_ssl_models(verify: VerifySsl)
    ensures
        verify is On <==> verify@ is On,
        verify is Off <==> verify@ is Off,
        verify matches VerifySsl::CaBundle(path) ==> verify@ == VerifySslModel::CaBundle(
            path_text(path),
        ),
{
}

/// Four words turn verification on, four turn it off, and anything else is the
/// path of a bundle, which is taken as it was given.
pub proof fn law_words_for_yes_and_no(lowered: Seq<char>, raw: Seq<char>)
    ensures
        verify_ssl_meaning(lowered, raw) is On <==> (lowered == "1"@ || lowered == "true"@
            || lowered == "yes"@ || lowered == "on"@),
        verify_ssl_meaning(lowered, raw) is Off <==> (lowered == "0"@ || lowered == "false"@
            || lowered == "no"@ || lowered == "off"@),
        verify_ssl_meaning(lowered, raw) is CaBundle ==> verify_ssl_meaning(lowered, raw)
            == VerifySslModel::CaBundle(raw),
{
    reveal_strlit("1");
    reveal_strlit("true");
    reveal_strlit("yes");
    reveal_strlit("on");
    reveal_strlit("0");
    reveal_strlit("false");
    reveal_strlit("no");
    reveal_strlit("off");
    assert("1"@.len() == 1 && "0"@.len() == 1 && "1"@[0] != "0"@[0]);
    assert("on"@.len() == 2 && "no"@.len() == 2 && "on"@[0] != "no"@[0]);
    assert("yes"@.len() == 3 && "off"@.len() == 3 && "yes"@[0] != "off"@[0]);
    assert("true"@.len() == 4 && "false"@.len() == 5);
}

/// Without `--no-verify-ssl`, nothing is asked for where `--verify-ssl` is not
/// given; a value that spells one of the words in any case, with white space
/// around it or not, asks for what the word means, and any other for the bundle at
/// the path that it is.
pub proof fn law_verify_ssl_is_read(cli: Cli, verify: Option<VerifySsl>)
    requires
        cli.asks_for(verify),
        !cli.no_verify_ssl,
    ensures
        cli.verify_ssl is None <==> verify is None,
        cli.verify_ssl matches Some(raw) ==> verify is Some && (all_ascii(trimmed(raw@)) ==> {
            let word = ascii_lower(trimmed(raw@));
            let asked = verify->Some_0@;
            &&& asked is On <==> (word == "1"@ || word == "true"@ || word == "yes"@ || word
                == "on"@)
            &&& asked is Off <==> (word == "0"@ || word == "false"@ || word == "no"@ || word
                == "off"@)
            &&& asked is CaBundle ==> asked == VerifySslModel::CaBundle(raw@)
        }),
        cli.verify_ssl matches Some(raw) ==> {
            let word = lowercase(trimmed(raw@));
            let asked = verify->Some_0@;
            &&& asked is On <==> (word == "1"@ || word == "true"@ || word == "yes"@ || word
                == "on"@)
            &&& asked is Off <==> (word == "0"@ || word == "false"@ || word == "no"@ || word
                == "off"@)
            &&& asked is CaBundle ==> asked == VerifySslModel::CaBundle(raw@)
        },
{
    if let Some(raw) = cli.verify_ssl {
        law_words_for_yes_and_no(ascii_lower(trimmed(raw@)), raw@);
        law_words_for_yes_and_no(lowercase(trimmed(raw@)), raw@);
    }
}

/// A command line is invalid exactly if it gives no command or URL, no named
/// server and no configuration file.
pub proof fn law_invalid_command_lines_name_no_server(cli: Cli, valid: Result<(), CliError>)
    requires
        cli.validation(valid),
    ensures
        valid is Ok <==> (cli.command_or_url is Some || cli.named_server_definitions@.len() > 0
            || cli.named_server_config is Some),
        valid is Err ==> valid->Err_0 == CliError::NoServerSpecified,
{
}

/// The headers to expose are those given, each as it was given; where none are,
/// `mcp-session-id` alone.
pub proof fn law_exposed_headers(cli: Cli)
    ensures
        cli.expose_headers matches Some(given) ==> (given@.len() > 0 ==> {
            &&& cli.exposed_headers().len() == given@.len()
            &&& forall|i: int|
                0 <= i < given@.len() ==> #[trigger] cli.exposed_headers()[i] == given@[i]@
        }),
        cli.expose_headers is None || cli.expose_headers->Some_0@.len() == 0
            ==> cli.exposed_headers() == seq!["mcp-session-id"@],
{
}

/// `--debug` takes precedence over every log level; without it the given level
/// counts.
pub proof fn law_debug_takes_precedence(cli: Cli)
    ensures
        cli.debug ==> cli.log_level_in_effect() == LogLevel::Debug,
        !cli.debug ==> cli.log_level_in_effect() == cli.log_level,
{
}

/// A grant is made exactly if id, secret and URL are all given, and with these,
/// character for character.
pub proof fn law_grants_need_all_three(cli: Cli, credentials: Option<(String, String, String)>)
    requires
        cli.grants_with(credentials),
    ensures
        credentials is Some <==> cli.client_id is Some && cli.client_secret is Some
            && cli.token_url is Some,
        credentials matches Some(c) ==> {
            &&& c.0@ == cli.client_id->Some_0@
            &&& c.1@ == cli.client_secret->Some_0@
            &&& c.2@ == cli.token_url->Some_0@
        },
{
}

} // verus!
