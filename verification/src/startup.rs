//! What the proxy sets up for a command line: the connections of client mode,
//! the servers of server mode.

use crate::cli::{
    authorize, authorized_last, is_url, law_urls_begin_like_urls, looks_like_url, pairs_of, token_text, with_authorization,
    Cli, CliError, LogLevel, VerifySsl,
};
use crate::config_loader::{
    config_error_text, file_outcome, law_configuration_models, load_named_server_configs_from_file, ConfigError, NamedServers,
    SkippedEntry, StdioServerConfig, StdioServerModel,
};
use crate::headers::{
    header_name_text, header_names, header_value_bytes, header_values, read_header_names,
    read_header_values,
};
use crate::table::{
    collect, law_collected_keys_occur, law_last_pair_counts, pair_views, Table,
};
use crate::text::{
    copied, decimal, decimal_value, joined, law_decimal_reads_back, same_text, stands_at, texts,
    write_decimal,
};
use http::{HeaderName, HeaderValue};
use vstd::prelude::*;
use vstd::string::*;
use vstd::utf8::{encode_utf8, encode_utf8_decode_utf8};

verus! {

/// `shell_words::ParseError`: a quote that is not closed.
#[verifier::external_type_specification]
#[verifier::external_body]
pub struct ExParseError(shell_words::ParseError);

/// The words of a command string, split as a Unix shell would; nothing, if a
/// quote is not closed.
pub uninterp spec fn shell_split(command: Seq<char>) -> Option<Seq<Seq<char>>>;

/// `shell_words::split`: splits a command string into words. What the words are,
/// and whether there are any, depends on the string alone.
#[verifier::external_body]
fn split_command(command: &str) -> (words: Result<Vec<String>, shell_words::ParseError>)
    ensures
        match words {
            Ok(list) => shell_split(command@) == Some(texts(list@)),
            Err(_) => shell_split(command@) is None,
        },
{
    shell_words::split(command)
}

/// `ParseError`'s `Display`: the one thing that can be wrong.
#[verifier::external_body]
fn parse_error_text(error: &shell_words::ParseError) -> (text: String)
    ensures
        text@ == "missing closing quote"@,
{
    error.to_string()
}

/// Why the named servers could not be determined.
#[allow(inconsistent_fields)]
#[derive(Debug)]
pub enum StartupError {
    /// The configuration file could not be loaded.
    Config(ConfigError),
    /// The command string of a named server has an unclosed quote.
    InvalidCommand { name: String, source: shell_words::ParseError },
    /// The command string of a named server has no words.
    EmptyCommand { name: String },
}

/// What is wrong with a command string.
pub enum CommandFault {
    UnclosedQuote,
    NoWords,
}

/// The server that the words of a command string define: the first word is the
/// command, the others are its arguments.
pub open spec fn words_config(
    words: Option<Seq<Seq<char>>>,
    env: Map<Seq<char>, Seq<char>>,
) -> Result<StdioServerModel, CommandFault> {
    match words {
        None => Err(CommandFault::UnclosedQuote),
        Some(list) => if list.len() == 0 {
            Err(CommandFault::NoWords)
        } else {
            Ok(StdioServerModel { command: list[0], args: list.skip(1), env, cwd: None })
        },
    }
}

/// The fault that an error reports, with the name of the server.
pub open spec fn reports(error: StartupError, name: Seq<char>, fault: CommandFault) -> bool {
    match fault {
        CommandFault::UnclosedQuote => error matches StartupError::InvalidCommand {
            name: n,
            source,
        } && n@ == name,
        CommandFault::NoWords => error matches StartupError::EmptyCommand { name: n } && n@ == name,
    }
}

/// Makes a server of the words of a command string.
pub fn config_from_words(
    name: &str,
    words: Result<Vec<String>, shell_words::ParseError>,
    base_env: &Table<String, String>,
) -> (config: Result<StdioServerConfig, StartupError>)
    ensures
        match words_config(
            match words {
                Ok(list) => Some(texts(list@)),
                Err(_) => None,
            },
            base_env@,
        ) {
            Ok(model) => config matches Ok(c) && c@ == model,
            Err(fault) => config matches Err(error) && reports(error, name@, fault),
        },
{
    let words = match words {
        Ok(words) => words,
        Err(source) => return Err(StartupError::InvalidCommand { name: name.to_owned(), source }),
    };
    if words.len() == 0 {
        return Err(StartupError::EmptyCommand { name: name.to_owned() });
    }
    let mut args: Vec<String> = Vec::new();
    let mut i: usize = 1;
    while i < words.len()
        invariant
            1 <= i <= words.len(),
            args.len() == i - 1,
            forall|j: int| 0 <= j < i - 1 ==> (#[trigger] args@[j])@ == words@[j + 1]@,
        decreases words.len() - i,
    {
        args.push(words[i].clone());
        i = i + 1;
    }
    assert(texts(args@) =~= texts(words@).skip(1));
    Ok(
        StdioServerConfig {
            command: words[0].clone(),
            args,
            env: base_env.duplicate(),
            cwd: None,
        },
    )
}

/// The servers that pairs of a name and a command string define, or the first
/// pair whose command string is at fault.
pub open spec fn pair_configs(
    pairs: Seq<(Seq<char>, Seq<char>)>,
    env: Map<Seq<char>, Seq<char>>,
) -> Result<Map<Seq<char>, StdioServerModel>, (Seq<char>, CommandFault)>
    decreases pairs.len(),
{
    if pairs.len() == 0 {
        Ok(Map::empty())
    } else {
        match pair_configs(pairs.drop_last(), env) {
            Err(fault) => Err(fault),
            Ok(configs) => match words_config(shell_split(pairs.last().1), env) {
                Ok(config) => Ok(configs.insert(pairs.last().0, config)),
                Err(fault) => Err((pairs.last().0, fault)),
            },
        }
    }
}

/// Once a pair is at fault, the pairs behind it do not matter.
proof fn lemma_first_fault(
    pairs: Seq<(Seq<char>, Seq<char>)>,
    env: Map<Seq<char>, Seq<char>>,
    n: int,
)
    requires
        0 <= n <= pairs.len(),
        pair_configs(pairs.take(n), env) is Err,
    ensures
        pair_configs(pairs, env) == pair_configs(pairs.take(n), env),
    decreases pairs.len() - n,
{
    if n == pairs.len() {
        assert(pairs.take(n) =~= pairs);
    } else {
        assert(pairs.take(n + 1).drop_last() =~= pairs.take(n));
        lemma_first_fault(pairs, env, n + 1);
    }
}

/// Makes servers of the pairs of a name and a command string.
pub fn configs_of_pairs(
    pairs: &Vec<(String, String)>,
    base_env: &Table<String, String>,
) -> (configs: Result<Table<String, StdioServerConfig>, StartupError>)
    ensures
        match pair_configs(pair_views(pairs@), base_env@) {
            Ok(models) => configs matches Ok(table) && table@ == models,
            Err((name, fault)) => configs matches Err(error) && reports(error, name, fault),
        },
{
    let ghost views = pair_views(pairs@);
    let mut configs: Table<String, StdioServerConfig> = Table::new();
    let mut i: usize = 0;
    while i < pairs.len()
        invariant
            i <= pairs.len(),
            views == pair_views(pairs@),
            pair_configs(views.take(i as int), base_env@) == Ok::<_, (Seq<char>, CommandFault)>(
                configs@,
            ),
        decreases pairs.len() - i,
    {
        let name = &pairs[i].0;
        let words = split_command(pairs[i].1.as_str());
        proof {
            assert(views.take(i + 1).drop_last() =~= views.take(i as int));
            assert(views.take(i + 1).last() == views[i as int]);
        }
        match config_from_words(name.as_str(), words, base_env) {
            Ok(config) => configs.insert(name.clone(), config),
            Err(error) => {
                proof {
                    lemma_first_fault(views, base_env@, i + 1);
                }
                return Err(error);
            },
        }
        i = i + 1;
    }
    assert(views.take(i as int) =~= views);
    Ok(configs)
}

/// The default server that a command line asks for: its command, unless that is
/// a URL.
pub open spec fn default_server(cli: Cli, base_env: Map<Seq<char>, Seq<char>>) -> Option<
    StdioServerModel,
> {
    match cli.command_or_url {
        Some(command) if !is_url(command@) => Some(
            StdioServerModel {
                command: command@,
                args: texts(cli.args@),
                env: base_env.union_prefer_right(collect(pairs_of(texts(cli.env@)))),
                cwd: cli.cwd,
            },
        ),
        _ => None,
    }
}

/// Determines the default server. The environment given on the command line is
/// laid over the base environment.
pub fn build_default_server_config(
    cli: &Cli,
    base_env: &Table<String, String>,
) -> (config: Option<StdioServerConfig>)
    ensures
        match default_server(*cli, base_env@) {
            Some(model) => config matches Some(c) && c@ == model,
            None => config is None,
        },
{
    let command = match &cli.command_or_url {
        Some(command) => command,
        None => return None,
    };
    if looks_like_url(command.as_str()) {
        return None;
    }
    let mut env = base_env.duplicate();
    env.extend(&cli.env_pairs());
    let cwd = match &cli.cwd {
        Some(path) => Some(path.clone()),
        None => None,
    };
    Some(StdioServerConfig { command: command.clone(), args: copied(&cli.args), env, cwd })
}

/// The named servers that a command line asks for: those of the configuration
/// file, of which `file` says what reading it came to, or else those of the
/// command line itself.
pub open spec fn named_outcome(
    cli: Cli,
    base_env: Map<Seq<char>, Seq<char>>,
    file: Option<Result<String, std::io::Error>>,
    built: Result<NamedServers, StartupError>,
) -> bool {
    match cli.named_server_config {
        Some(path) => match built {
            Ok(named) => file_outcome(path, file->Some_0, base_env, Ok(named)),
            Err(error) => error matches StartupError::Config(e) && file_outcome(
                path,
                file->Some_0,
                base_env,
                Err(e),
            ),
        },
        None => match pair_configs(pairs_of(texts(cli.named_server_definitions@)), base_env) {
            Ok(models) => built matches Ok(named) && named.configs@ == models
                && named.skipped@.len() == 0,
            Err((name, fault)) => built matches Err(error) && reports(error, name, fault),
        },
    }
}

/// Determines the named servers. A configuration file takes priority over the
/// pairs of the command line.
pub fn build_named_server_configs(
    cli: &Cli,
    base_env: &Table<String, String>,
    file: Option<Result<String, std::io::Error>>,
) -> (built: Result<NamedServers, StartupError>)
    requires
        cli.named_server_config is Some ==> file is Some,
    ensures
        named_outcome(*cli, base_env@, file, built),
{
    if let Some(path) = &cli.named_server_config {
        if let Some(contents) = file {
            return match load_named_server_configs_from_file(path, contents, base_env) {
                Ok(named) => Ok(named),
                Err(error) => Err(StartupError::Config(error)),
            };
        }
    }
    match configs_of_pairs(&cli.named_server_pairs(), base_env) {
        Ok(configs) => Ok(NamedServers { configs, skipped: Vec::new() }),
        Err(error) => Err(error),
    }
}

/// What a `StartupError` says, given what the error behind a failure of the
/// configuration file says.
pub open spec fn startup_error_text(error: StartupError, source: Seq<char>) -> Seq<char> {
    match error {
        StartupError::Config(error) => "failed to load named server config: "@
            + config_error_text(error, source),
        StartupError::InvalidCommand { name, source: _ } => {
            "invalid command string for --named-server '"@ + name@ + "': "@
                + "missing closing quote"@
        },
        StartupError::EmptyCommand { name } => "empty command string for --named-server '"@ + name@
            + "'"@,
    }
}

impl StartupError {
    /// The error in words, given the words of the error behind a failure of the
    /// configuration file; for the others, those do not matter.
    pub fn message(&self, source: &str) -> (text: String)
        ensures
            text@ == startup_error_text(*self, source@),
    {
        match self {
            StartupError::Config(error) => joined(
                "failed to load named server config: ",
                error.message(source).as_str(),
            ),
            StartupError::InvalidCommand { name, source: quote } => joined(
                "invalid command string for --named-server '",
                name.as_str(),
            ).concat("': ").concat(parse_error_text(quote).as_str()),
            StartupError::EmptyCommand { name } => joined(
                "empty command string for --named-server '",
                name.as_str(),
            ).concat("'"),
        }
    }
}

/// What client mode sets up: a pool of connections to one remote server.
#[derive(Debug)]
pub struct ClientPlan {
    /// The URL of the remote server.
    pub url: String,
    /// The headers of every request.
    pub headers: Table<String, String>,
    /// How to verify the server's certificate.
    pub verify_ssl: Option<VerifySsl>,
    /// How many connections to open.
    pub pool_size: usize,
    /// How long a forwarded request may take, in seconds.
    pub timeout_secs: u64,
}

/// What is set up in client mode, given the two tokens as far as there are any.
pub open spec fn client_planned(
    cli: Cli,
    api_access_token: Option<&str>,
    oauth2_token: Option<&str>,
    plan: ClientPlan,
) -> bool {
    &&& cli.command_or_url matches Some(url) && plan.url@ == url@
    &&& plan.headers@ == with_authorization(
        with_authorization(
            collect(pairs_of(texts(cli.headers@))),
            token_text(api_access_token),
        ),
        token_text(oauth2_token),
    )
    &&& oauth2_token matches Some(token) ==> authorized_last(plan.headers.entries(), token@)
    &&& oauth2_token is None ==> (api_access_token matches Some(token) ==> authorized_last(
        plan.headers.entries(),
        token@,
    ))
    &&& cli.asks_for(plan.verify_ssl)
    &&& plan.pool_size == if cli.upstream_pool_size == 0 {
        1
    } else {
        cli.upstream_pool_size
    }
    &&& plan.timeout_secs == cli.upstream_timeout_secs
}

/// Plans client mode, given the value of `$API_ACCESS_TOKEN` and the token that
/// the OAuth2 grant gave, as far as there are any. The OAuth2 token overrides the
/// other, and both override an `Authorization` header of the command line. At
/// least one connection is opened.
pub fn plan_client(
    cli: &Cli,
    api_access_token: Option<&str>,
    oauth2_token: Option<&str>,
) -> (plan: ClientPlan)
    requires
        cli.client_mode(),
    ensures
        client_planned(*cli, api_access_token, oauth2_token, plan),
        cli.command_or_url matches Some(url) && plan.url@ == url@,
        plan.headers@ == with_authorization(
            with_authorization(
                collect(pairs_of(texts(cli.headers@))),
                token_text(api_access_token),
            ),
            token_text(oauth2_token),
        ),
        match (oauth2_token, api_access_token) {
            (Some(token), _) => authorized_last(plan.headers.entries(), token@),
            (None, Some(token)) => authorized_last(plan.headers.entries(), token@),
            (None, None) => true,
        },
        plan.headers.entries().len() <= cli.headers@.len() / 2 + 2,
        cli.asks_for(plan.verify_ssl),
        plan.pool_size == if cli.upstream_pool_size == 0 {
            1
        } else {
            cli.upstream_pool_size
        },
        plan.timeout_secs == cli.upstream_timeout_secs,
{
    let url = match &cli.command_or_url {
        Some(url) => url.clone(),
        None => {
            assert(false);
            "".to_owned()
        },
    };
    let mut headers = cli.effective_client_headers(api_access_token);
    authorize(&mut headers, oauth2_token);
    let pool_size: usize = if cli.upstream_pool_size == 0 {
        1
    } else {
        cli.upstream_pool_size
    };
    ClientPlan {
        url,
        headers,
        verify_ssl: cli.verify_ssl(),
        pool_size,
        timeout_secs: cli.upstream_timeout_secs,
    }
}

/// The origins that may use the server from a browser.
#[derive(Debug)]
pub enum CorsOrigins {
    Any,
    List(Vec<HeaderValue>),
}

/// What browsers are told of cross-origin requests.
#[derive(Debug)]
pub struct Cors {
    pub origins: CorsOrigins,
    pub expose: Vec<HeaderName>,
}

/// What the origins and the headers to expose come to: any origin, if one of
/// them is `*`, or else those that can stand in a header; the headers to expose
/// as far as their names are valid.
pub open spec fn cors_for(origins: Seq<Seq<char>>, expose: Seq<Seq<char>>, cors: Cors) -> bool {
    &&& match cors.origins {
        CorsOrigins::Any => origins.contains("*"@),
        CorsOrigins::List(list) => !origins.contains("*"@) && list@.map_values(
            |v: HeaderValue| header_value_bytes(v),
        ) == header_values(origins),
    }
    &&& cors.expose@.map_values(|n: HeaderName| header_name_text(n)) == header_names(expose)
}

/// Decides what browsers are told; nothing, where no origin is allowed.
pub fn plan_cors(cli: &Cli) -> (cors: Option<Cors>)
    ensures
        match cors {
            Some(c) => cli.allow_origin@.len() > 0 && cors_for(
                texts(cli.allow_origin@),
                cli.exposed_headers(),
                c,
            ),
            None => cli.allow_origin@.len() == 0,
        },
{
    let origins = match cli.effective_allow_origins() {
        Some(origins) => origins,
        None => return None,
    };
    let expose = read_header_names(&cli.effective_expose_headers());
    let ghost all = texts(origins@);
    let mut i: usize = 0;
    while i < origins.len()
        invariant
            i <= origins.len(),
            all == texts(origins@),
            all == texts(cli.allow_origin@),
            cli.allow_origin@.len() > 0,
            expose@.map_values(|n: HeaderName| header_name_text(n)) == header_names(
                cli.exposed_headers(),
            ),
            forall|j: int| 0 <= j < i ==> #[trigger] all[j] != "*"@,
        decreases origins.len() - i,
    {
        if same_text(origins[i].as_str(), "*") {
            assert(all[i as int] == "*"@);
            return Some(Cors { origins: CorsOrigins::Any, expose });
        }
        i = i + 1;
    }
    Some(Cors { origins: CorsOrigins::List(read_header_values(&origins)), expose })
}

/// Without a `*` among the origins, none of the listed header values is one.
pub proof fn law_listed_origins_are_no_wildcard(origins: Seq<Seq<char>>)
    requires
        !origins.contains("*"@),
    ensures
        !header_values(origins).contains(encode_utf8("*"@)),
    decreases origins.len(),
{
    if origins.len() > 0 {
        let rest = origins.drop_last();
        assert forall|i: int| 0 <= i < rest.len() implies rest[i] != "*"@ by {
            assert(rest[i] == origins[i]);
        }
        law_listed_origins_are_no_wildcard(rest);
        assert(origins[origins.len() - 1] != "*"@);
        encode_utf8_decode_utf8("*"@);
        encode_utf8_decode_utf8(origins.last());
        let values = header_values(origins);
        assert forall|i: int| 0 <= i < values.len() implies values[i] != encode_utf8("*"@) by {
            if i < header_values(rest).len() {
                assert(values[i] == header_values(rest)[i]);
            }
        }
    }
}

/// What server mode sets up: local servers, served over HTTP.
#[derive(Debug)]
pub struct ServerPlan {
    /// The server under `/mcp`.
    pub default_server: Option<StdioServerConfig>,
    /// The servers under their names.
    pub named_servers: NamedServers,
    /// Whether the HTTP transport is stateless.
    pub stateless: bool,
    /// The host and port to listen on.
    pub address: String,
    /// What browsers are told.
    pub cors: Option<Cors>,
}

/// The environment that the servers of a command line start from.
pub open spec fn base_environment(cli: Cli, process_env: Seq<(String, String)>) -> Map<
    Seq<char>,
    Seq<char>,
> {
    if cli.pass_environment {
        collect(pair_views(process_env))
    } else {
        Map::empty()
    }
}

/// What is set up in server mode, given the environment of the process and what
/// reading the configuration file came to.
pub open spec fn server_planned(
    cli: Cli,
    process_env: Seq<(String, String)>,
    file: Option<Result<String, std::io::Error>>,
    plan: ServerPlan,
) -> bool {
    let base_env = base_environment(cli, process_env);
    &&& default_server(cli, base_env) matches Some(model) ==> (plan.default_server matches Some(c)
        && c@ == model)
    &&& default_server(cli, base_env) is None ==> plan.default_server is None
    &&& named_outcome(cli, base_env, file, Ok(plan.named_servers))
    &&& plan.stateless == cli.stateless
    &&& plan.address@ == cli.host@ + ":"@ + decimal(cli.port as nat)
    &&& cli.allow_origin@.len() == 0 ==> plan.cors is None
    &&& cli.allow_origin@.len() > 0 ==> (plan.cors matches Some(c) && cors_for(
        texts(cli.allow_origin@),
        cli.exposed_headers(),
        c,
    ))
}

/// Plans server mode, given the environment of this process and what reading the
/// configuration file, if there is one, came to.
pub fn plan_server(
    cli: &Cli,
    process_env: &Vec<(String, String)>,
    file: Option<Result<String, std::io::Error>>,
) -> (planned: Result<ServerPlan, StartupError>)
    requires
        cli.named_server_config is Some ==> file is Some,
    ensures
        planned matches Ok(plan) ==> server_planned(*cli, process_env@, file, plan),
        match planned {
            Ok(plan) => {
                let base_env = base_environment(*cli, process_env@);
                &&& match default_server(*cli, base_env) {
                    Some(model) => plan.default_server matches Some(c) && c@ == model,
                    None => plan.default_server is None,
                }
                &&& named_outcome(*cli, base_env, file, Ok(plan.named_servers))
                &&& plan.stateless == cli.stateless
                &&& plan.address@ == cli.host@ + ":"@ + decimal(cli.port as nat)
                &&& match plan.cors {
                    Some(c) => cli.allow_origin@.len() > 0 && cors_for(
                        texts(cli.allow_origin@),
                        cli.exposed_headers(),
                        c,
                    ),
                    None => cli.allow_origin@.len() == 0,
                }
            },
            Err(error) => named_outcome(
                *cli,
                base_environment(*cli, process_env@),
                file,
                Err(error),
            ),
        },
{
    let base_env = cli.base_env(process_env);
    let default_server = build_default_server_config(cli, &base_env);
    let named_servers = match build_named_server_configs(cli, &base_env, file) {
        Ok(named) => named,
        Err(error) => return Err(error),
    };
    let address = joined(cli.effective_bind_host(), ":").concat(
        write_decimal(cli.effective_port() as u64).as_str(),
    );
    Ok(
        ServerPlan {
            default_server,
            named_servers,
            stateless: cli.stateless,
            address,
            cors: plan_cors(cli),
        },
    )
}

/// Where a named server is mounted.
pub fn mount_path(name: &str) -> (path: String)
    ensures
        path@ == "/servers/"@ + name@,
{
    joined("/servers/", name)
}

/// The URLs under which the servers are reached at an address.
pub open spec fn endpoints_at(
    address: Seq<char>,
    has_default: bool,
    names: Seq<Seq<char>>,
) -> Seq<Seq<char>> {
    let base = "http://"@ + address;
    (if has_default {
        seq![base + "/mcp"@]
    } else {
        Seq::empty()
    }) + names.map_values(|name: Seq<char>| base + ("/servers/"@ + name) + "/mcp"@)
}

impl ServerPlan {
    /// The names of the named servers, in order.
    pub open spec fn names(&self) -> Seq<Seq<char>> {
        self.named_servers.configs.entries().map_values(
            |e: (Seq<char>, StdioServerModel)| e.0,
        )
    }

    /// The URLs under which the servers are reached, given the address that the
    /// listener was bound to.
    pub fn endpoints(&self, address: &str) -> (urls: Vec<String>)
        ensures
            texts(urls@) == endpoints_at(address@, self.default_server is Some, self.names()),
    {
        let base = joined("http://", address);
        let configs = &self.named_servers.configs;
        let ghost entries = configs.entries();
        let ghost names = self.names();
        let ghost has_default = self.default_server is Some;
        let mut urls: Vec<String> = Vec::new();
        if self.default_server.is_some() {
            urls.push(joined(base.as_str(), "/mcp"));
        }
        assert(texts(urls@) =~= endpoints_at(address@, has_default, names.take(0)));
        let n: usize = configs.len();
        let mut i: usize = 0;
        while i < n
            invariant
                i <= n,
                n == entries.len(),
                entries == configs.entries(),
                names == entries.map_values(|e: (Seq<char>, StdioServerModel)| e.0),
                base@ == "http://"@ + address@,
                texts(urls@) == endpoints_at(address@, has_default, names.take(i as int)),
            decreases n - i,
        {
            let ghost before = urls@;
            let (name, _) = configs.entry(i);
            let url = joined(base.as_str(), mount_path(name.as_str()).as_str()).concat("/mcp");
            urls.push(url);
            assert(texts(urls@) =~= texts(before).push(url@));
            assert(texts(urls@) =~= endpoints_at(address@, has_default, names.take(i + 1)));
            i = i + 1;
        }
        assert(names.take(i as int) =~= names);
        urls
    }
}

/// How long a request to a local server may take, in seconds.
pub const STDIO_TIMEOUT_SECS: u64 = 30;

/// How severe a message has to be to be logged.
#[derive(Debug, Clone, Copy, PartialEq, Eq, Structural)]
pub enum Severity {
    Debug,
    Info,
    Warn,
    Error,
}

/// The severity of a log level; there is none above an error.
pub fn severity(level: LogLevel) -> (severity: Severity)
    ensures
        severity == match level {
            LogLevel::Debug => Severity::Debug,
            LogLevel::Info => Severity::Info,
            LogLevel::Warning => Severity::Warn,
            LogLevel::Error | LogLevel::Critical => Severity::Error,
        },
{
    match level {
        LogLevel::Debug => Severity::Debug,
        LogLevel::Info => Severity::Info,
        LogLevel::Warning => Severity::Warn,
        LogLevel::Error | LogLevel::Critical => Severity::Error,
    }
}

/// How severe it is that an entry of the configuration file was skipped: a
/// warning, whatever the reason.
pub fn skipped_severity(reason: SkippedEntry) -> (severity: Severity)
    ensures
        severity == Severity::Warn,
{
    match reason {
        SkippedEntry::NotAnObject | SkippedEntry::Disabled | SkippedEntry::InvalidCommand
        | SkippedEntry::NonTextArgument | SkippedEntry::ArgsNotAList => Severity::Warn,
    }
}

/// A command line runs a default server exactly if it gives a command and not a
/// URL; in client mode there is none.
pub proof fn law_default_server_or_client(cli: Cli, base_env: Map<Seq<char>, Seq<char>>)
    ensures
        cli.client_mode() ==> default_server(cli, base_env) is None,
        cli.command_or_url is Some ==> (cli.client_mode() <==> default_server(
            cli,
            base_env,
        ) is None),
        cli.command_or_url is None ==> default_server(cli, base_env) is None,
{
}

/// A valid command line outside client mode has a server to run or a place that
/// names some.
pub proof fn law_valid_command_line_has_servers(
    cli: Cli,
    valid: Result<(), CliError>,
    base_env: Map<Seq<char>, Seq<char>>,
)
    requires
        valid is Ok,
        cli.validation(valid),
        !cli.client_mode(),
    ensures
        default_server(cli, base_env) is Some || cli.named_server_definitions@.len() > 0
            || cli.named_server_config is Some,
{
}

/// With a configuration file, the named servers of the command line itself do
/// not matter.
pub proof fn law_configuration_file_has_priority(
    cli: Cli,
    other: Cli,
    base_env: Map<Seq<char>, Seq<char>>,
    file: Option<Result<String, std::io::Error>>,
    built: Result<NamedServers, StartupError>,
)
    requires
        cli.named_server_config is Some,
        cli.named_server_config == other.named_server_config,
    ensures
        named_outcome(cli, base_env, file, built) <==> named_outcome(other, base_env, file, built),
{
}

/// The default server's environment is the base environment with that of the
/// command line laid over it.
pub proof fn law_command_line_env_overlays_base(
    cli: Cli,
    base_env: Map<Seq<char>, Seq<char>>,
    name: Seq<char>,
)
    requires
        default_server(cli, base_env) is Some,
    ensures
        ({
            let given = collect(pairs_of(texts(cli.env@)));
            let env = default_server(cli, base_env)->Some_0.env;
            if given.contains_key(name) {
                env.contains_key(name) && env[name] == given[name]
            } else {
                &&& env.contains_key(name) <==> base_env.contains_key(name)
                &&& base_env.contains_key(name) ==> env[name] == base_env[name]
            }
        }),
{
}

/// If no command string is at fault, every pair's name is a server that starts
/// from the base environment, and every server has the name of a pair.
pub proof fn law_pairs_name_the_servers(
    pairs: Seq<(Seq<char>, Seq<char>)>,
    env: Map<Seq<char>, Seq<char>>,
    name: Seq<char>,
)
    requires
        pair_configs(pairs, env) is Ok,
    ensures
        ({
            let configs = pair_configs(pairs, env)->Ok_0;
            &&& configs.contains_key(name) <==> exists|i: int|
                0 <= i < pairs.len() && (#[trigger] pairs[i]).0 == name
            &&& configs.contains_key(name) ==> configs[name].env == env && configs[name].cwd is None
        }),
    decreases pairs.len(),
{
    if pairs.len() > 0 {
        let rest = pairs.drop_last();
        law_pairs_name_the_servers(rest, env, name);
        if exists|i: int| 0 <= i < rest.len() && (#[trigger] rest[i]).0 == name {
            let i = choose|i: int| 0 <= i < rest.len() && (#[trigger] rest[i]).0 == name;
            assert(pairs[i].0 == name);
        }
        if exists|i: int| 0 <= i < pairs.len() && (#[trigger] pairs[i]).0 == name {
            let i = choose|i: int| 0 <= i < pairs.len() && (#[trigger] pairs[i]).0 == name;
            if i < rest.len() {
                assert(rest[i].0 == name);
            }
        }
        assert(pairs[pairs.len() - 1] == pairs.last());
    }
}

/// Servers with distinct names are reached under distinct URLs, and the default
/// server under yet another.
pub proof fn law_endpoints_are_distinct(
    address: Seq<char>,
    has_default: bool,
    names: Seq<Seq<char>>,
)
    requires
        names.no_duplicates(),
    ensures
        endpoints_at(address, has_default, names).no_duplicates(),
{
    reveal_strlit("/servers/");
    reveal_strlit("/mcp");
    let urls = endpoints_at(address, has_default, names);
    let base = "http://"@ + address;
    let first: int = if has_default {
        1
    } else {
        0
    };
    assert forall|i: int, j: int| 0 <= i < urls.len() && 0 <= j < urls.len() && i
        != j implies urls[i] != urls[j] by {
        lemma_endpoint_lengths(address, has_default, names, i);
        lemma_endpoint_lengths(address, has_default, names, j);
        if i >= first && j >= first && urls[i] == urls[j] {
            let a = names[i - first];
            let b = names[j - first];
            assert(a.len() == b.len());
            assert forall|k: int| 0 <= k < a.len() implies a[k] == b[k] by {
                assert(urls[i][base.len() + 9 + k] == a[k]);
                assert(urls[j][base.len() + 9 + k] == b[k]);
            }
            assert(a =~= b);
        }
    }
}

/// How long the URLs are.
proof fn lemma_endpoint_lengths(
    address: Seq<char>,
    has_default: bool,
    names: Seq<Seq<char>>,
    i: int,
)
    requires
        0 <= i < endpoints_at(address, has_default, names).len(),
    ensures
        ({
            let url = endpoints_at(address, has_default, names)[i];
            let base = "http://"@ + address;
            let first: int = if has_default {
                1
            } else {
                0
            };
            if i < first {
                url.len() == base.len() + 4
            } else {
                &&& url == base + ("/servers/"@ + names[i - first]) + "/mcp"@
                &&& url.len() == base.len() + 9 + names[i - first].len() + 4
            }
        }),
{
    reveal_strlit("/servers/");
    reveal_strlit("/mcp");
}

/// A default server is exactly what the command line says: its command, its
/// arguments in their order, its working directory, whatever the other options
/// are.
pub proof fn law_default_server_is_what_was_given(cli: Cli, base_env: Map<Seq<char>, Seq<char>>)
    requires
        default_server(cli, base_env) is Some,
    ensures
        ({
            let server = default_server(cli, base_env)->Some_0;
            &&& cli.command_or_url is Some
            &&& server.command == cli.command_or_url->Some_0@
            &&& server.args.len() == cli.args@.len()
            &&& forall|i: int|
                0 <= i < cli.args@.len() ==> #[trigger] server.args[i] == cli.args@[i]@
            &&& server.cwd == cli.cwd
        }),
{
}

/// A command that does not begin like a URL gives a default server.
pub proof fn law_commands_give_default_servers(cli: Cli, base_env: Map<Seq<char>, Seq<char>>)
    ensures
        cli.command_or_url matches Some(command) ==> (default_server(cli, base_env) is Some <==> !(
        stands_at(command@, "http://"@, 0) || stands_at(command@, "https://"@, 0))),
        cli.command_or_url is None ==> default_server(cli, base_env) is None,
{
    if let Some(command) = cli.command_or_url {
        law_urls_begin_like_urls(command@, Seq::empty());
    }
}

/// The default server's environment gives each name that occurs in the command
/// line's the value that stands last beside it.
pub proof fn law_last_variable_counts(
    cli: Cli,
    base_env: Map<Seq<char>, Seq<char>>,
    i: int,
)
    requires
        default_server(cli, base_env) is Some,
        0 <= i < cli.env@.len() / 2,
        forall|j: int| i < j < cli.env@.len() / 2 ==> #[trigger] cli.env@[2 * j]@ != cli.env@[2
            * i]@,
    ensures
        default_server(cli, base_env)->Some_0.env.contains_key(cli.env@[2 * i]@),
        default_server(cli, base_env)->Some_0.env[cli.env@[2 * i]@] == cli.env@[2 * i + 1]@,
{
    let pairs = pairs_of(texts(cli.env@));
    assert(pairs[i] == (cli.env@[2 * i]@, cli.env@[2 * i + 1]@));
    assert forall|j: int| i < j < pairs.len() implies (#[trigger] pairs[j]).0 != pairs[i].0 by {
        assert(pairs[j].0 == cli.env@[2 * j]@);
    }
    law_last_pair_counts(pairs, i);
}

/// A name that does not occur in the command line's environment is what the base
/// environment says.
pub proof fn law_other_variables_are_the_base(
    cli: Cli,
    base_env: Map<Seq<char>, Seq<char>>,
    name: Seq<char>,
)
    requires
        default_server(cli, base_env) is Some,
        forall|j: int| 0 <= j < cli.env@.len() / 2 ==> #[trigger] cli.env@[2 * j]@ != name,
    ensures
        default_server(cli, base_env)->Some_0.env.contains_key(name) <==> base_env.contains_key(
            name,
        ),
        base_env.contains_key(name) ==> default_server(cli, base_env)->Some_0.env[name]
            == base_env[name],
{
    let pairs = pairs_of(texts(cli.env@));
    if collect(pairs).contains_key(name) {
        let j = law_collected_keys_occur(pairs, name);
        assert(pairs[j].0 == cli.env@[2 * j]@);
    }
}

/// The words of a command string are the server's command and its arguments, none
/// lost and in their order; a string without words, or with an unclosed quote,
/// gives none.
pub proof fn law_words_are_command_and_arguments(
    words: Option<Seq<Seq<char>>>,
    env: Map<Seq<char>, Seq<char>>,
)
    ensures
        words is None <==> words_config(words, env) == Err::<StdioServerModel, _>(
            CommandFault::UnclosedQuote,
        ),
        (words matches Some(list) && list.len() == 0) <==> words_config(words, env) == Err::<
            StdioServerModel,
            _,
        >(CommandFault::NoWords),
        words matches Some(list) ==> (list.len() > 0 ==> (words_config(words, env) matches Ok(
            server,
        ) && {
            &&& seq![server.command] + server.args == list
            &&& server.env == env
            &&& server.cwd is None
        })),
{
    if let Some(list) = words {
        if list.len() > 0 {
            assert(seq![list[0]] + list.skip(1) =~= list);
        }
    }
}

/// An error reports a fault of a command string under the name of its server, and
/// as what it is.
pub proof fn law_faults_are_reported_by_name(
    error: StartupError,
    name: Seq<char>,
    fault: CommandFault,
)
    requires
        reports(error, name, fault),
    ensures
        fault is UnclosedQuote <==> error is InvalidCommand,
        fault is NoWords <==> error is EmptyCommand,
        error matches StartupError::InvalidCommand { name: n, source } ==> n@ == name,
        error matches StartupError::EmptyCommand { name: n } ==> n@ == name,
{
}

/// A named server is what the words of its last command string say.
pub proof fn law_last_command_string_counts(
    pairs: Seq<(Seq<char>, Seq<char>)>,
    env: Map<Seq<char>, Seq<char>>,
    i: int,
)
    requires
        pair_configs(pairs, env) is Ok,
        0 <= i < pairs.len(),
        forall|j: int| i < j < pairs.len() ==> (#[trigger] pairs[j]).0 != pairs[i].0,
    ensures
        pair_configs(pairs, env)->Ok_0.contains_key(pairs[i].0),
        words_config(shell_split(pairs[i].1), env) == Ok::<_, CommandFault>(
            pair_configs(pairs, env)->Ok_0[pairs[i].0],
        ),
    decreases pairs.len(),
{
    if i < pairs.len() - 1 {
        let rest = pairs.drop_last();
        assert(pairs[pairs.len() - 1].0 != pairs[i].0);
        assert forall|j: int| i < j < rest.len() implies (#[trigger] rest[j]).0 != rest[i].0 by {
            assert(rest[j] == pairs[j]);
        }
        law_last_command_string_counts(rest, env, i);
    }
}

/// The named servers are determined exactly if no command string is at fault;
/// otherwise the first that is, is reported.
pub proof fn law_first_fault_is_reported(
    pairs: Seq<(Seq<char>, Seq<char>)>,
    env: Map<Seq<char>, Seq<char>>,
    i: int,
)
    requires
        0 <= i < pairs.len(),
        words_config(shell_split(pairs[i].1), env) is Err,
        forall|j: int|
            0 <= j < i ==> words_config(shell_split((#[trigger] pairs[j]).1), env) is Ok,
    ensures
        pair_configs(pairs, env) == Err::<Map<Seq<char>, StdioServerModel>, _>(
            (pairs[i].0, words_config(shell_split(pairs[i].1), env)->Err_0),
        ),
{
    let upto = pairs.take(i + 1);
    assert(upto.drop_last() =~= pairs.take(i));
    law_sound_pairs_are_servers(pairs.take(i), env);
    lemma_first_fault(pairs, env, i + 1);
}

/// If no command string is at fault, there are named servers.
pub proof fn law_sound_pairs_are_servers(
    pairs: Seq<(Seq<char>, Seq<char>)>,
    env: Map<Seq<char>, Seq<char>>,
)
    requires
        forall|j: int|
            0 <= j < pairs.len() ==> words_config(shell_split((#[trigger] pairs[j]).1), env) is Ok,
    ensures
        pair_configs(pairs, env) is Ok,
    decreases pairs.len(),
{
    if pairs.len() > 0 {
        let rest = pairs.drop_last();
        assert forall|j: int| 0 <= j < rest.len() implies words_config(
            shell_split((#[trigger] rest[j]).1),
            env,
        ) is Ok by {
            assert(rest[j] == pairs[j]);
        }
        law_sound_pairs_are_servers(rest, env);
        assert(pairs[pairs.len() - 1] == pairs.last());
    }
}

/// Without a configuration file, the named servers are those of the command line's
/// pairs of a name and a command string, and no entry is reported as skipped; a
/// fault in a pair fails the whole.
pub proof fn law_named_servers_of_the_command_line(
    cli: Cli,
    base_env: Map<Seq<char>, Seq<char>>,
    file: Option<Result<String, std::io::Error>>,
    built: Result<NamedServers, StartupError>,
    i: int,
)
    requires
        cli.named_server_config is None,
        named_outcome(cli, base_env, file, built),
        0 <= i < cli.named_server_definitions@.len() / 2,
        forall|j: int|
            i < j < cli.named_server_definitions@.len() / 2
                ==> #[trigger] cli.named_server_definitions@[2 * j]@
                != cli.named_server_definitions@[2 * i]@,
    ensures
        ({
            let name = cli.named_server_definitions@[2 * i]@;
            let words = shell_split(cli.named_server_definitions@[2 * i + 1]@);
            &&& built matches Ok(named) ==> {
                &&& named.skipped@.len() == 0
                &&& named.configs@.contains_key(name)
                &&& words is Some
                &&& seq![named.configs@[name].command] + named.configs@[name].args == words->Some_0
                &&& named.configs@[name].env == base_env
                &&& named.configs@[name].cwd is None
            }
            &&& words is None || words->Some_0.len() == 0 ==> built is Err
            &&& built matches Err(error) ==> !(error is Config)
        }),
{
    let pairs = pairs_of(texts(cli.named_server_definitions@));
    let name = cli.named_server_definitions@[2 * i]@;
    let words = shell_split(cli.named_server_definitions@[2 * i + 1]@);
    assert(pairs[i] == (name, cli.named_server_definitions@[2 * i + 1]@));
    if built is Ok {
        assert forall|j: int| i < j < pairs.len() implies (#[trigger] pairs[j]).0 != pairs[i].0 by {
            assert(pairs[j].0 == cli.named_server_definitions@[2 * j]@);
        }
        law_last_command_string_counts(pairs, base_env, i);
        law_words_are_command_and_arguments(words, base_env);
    }
}

/// With a configuration file, the outcome is that of the file: its servers as they
/// are, or its error.
pub proof fn law_named_servers_of_the_file(
    cli: Cli,
    base_env: Map<Seq<char>, Seq<char>>,
    contents: Result<String, std::io::Error>,
    built: Result<NamedServers, StartupError>,
)
    requires
        cli.named_server_config is Some,
        named_outcome(cli, base_env, Some(contents), built),
    ensures
        built matches Ok(named) ==> file_outcome(
            cli.named_server_config->Some_0,
            contents,
            base_env,
            Ok(named),
        ),
        built matches Err(error) ==> (error matches StartupError::Config(e) && file_outcome(
            cli.named_server_config->Some_0,
            contents,
            base_env,
            Err(e),
        )),
{
}

/// What a startup error says: of the configuration file, what the file's error
/// says, behind words of its own; of a command string, the name of its server
/// between words of its own.
pub proof fn law_startup_errors_name_their_source(error: StartupError, source: Seq<char>)
    ensures
        ({
            let text = startup_error_text(error, source);
            match error {
                StartupError::Config(inner) => {
                    &&& stands_at(text, "failed to load named server config: "@, 0)
                    &&& stands_at(text, config_error_text(inner, source), 36)
                    &&& text.len() == 36 + config_error_text(inner, source).len()
                },
                StartupError::InvalidCommand { name, source: _ } => {
                    &&& stands_at(text, "invalid command string for --named-server '"@, 0)
                    &&& stands_at(text, name@, 43)
                    &&& stands_at(text, "': missing closing quote"@, 43 + name@.len() as int)
                    &&& text.len() == 43 + name@.len() + 24
                },
                StartupError::EmptyCommand { name } => {
                    &&& stands_at(text, "empty command string for --named-server '"@, 0)
                    &&& stands_at(text, name@, 41)
                    &&& stands_at(text, "'"@, 41 + name@.len() as int)
                    &&& text.len() == 42 + name@.len()
                },
            }
        }),
{
    reveal_strlit("failed to load named server config: ");
    reveal_strlit("invalid command string for --named-server '");
    reveal_strlit("': missing closing quote");
    reveal_strlit("': ");
    reveal_strlit("missing closing quote");
    reveal_strlit("empty command string for --named-server '");
    reveal_strlit("'");
}

/// Any origin is allowed exactly if one of those given is `*`; otherwise the list
/// has the bytes of those that can stand in a header, and no others. The exposed
/// headers are those whose names are valid.
pub proof fn law_cors_lists_what_is_valid(
    origins: Seq<Seq<char>>,
    expose: Seq<Seq<char>>,
    cors: Cors,
)
    requires
        cors_for(origins, expose, cors),
    ensures
        cors.origins is Any <==> exists|i: int| 0 <= i < origins.len() && #[trigger] origins[i]
            == "*"@,
        cors.origins matches CorsOrigins::List(list) ==> {
            &&& list@.len() == header_values(origins).len()
            &&& forall|i: int|
                0 <= i < list@.len() ==> header_value_bytes(#[trigger] list@[i]) == header_values(
                    origins,
                )[i]
        },
        cors.expose@.len() == header_names(expose).len(),
        forall|i: int|
            0 <= i < cors.expose@.len() ==> header_name_text(#[trigger] cors.expose@[i])
                == header_names(expose)[i],
{
    if let CorsOrigins::List(list) = cors.origins {
        let bytes = list@.map_values(|v: HeaderValue| header_value_bytes(v));
        assert(bytes.len() == list@.len());
        assert forall|i: int| 0 <= i < list@.len() implies header_value_bytes(#[trigger] list@[i])
            == header_values(origins)[i] by {
            assert(bytes[i] == header_value_bytes(list@[i]));
        }
    }
    let names = cors.expose@.map_values(|n: HeaderName| header_name_text(n));
    assert(names.len() == cors.expose@.len());
    assert forall|i: int| 0 <= i < cors.expose@.len() implies header_name_text(
        #[trigger] cors.expose@[i],
    ) == header_names(expose)[i] by {
        assert(names[i] == header_name_text(cors.expose@[i]));
    }
}

/// The environment that servers start from is that of the process, variable by
/// variable, where it is passed on, and otherwise has no variables at all.
pub proof fn law_environment_is_passed_on_or_empty(
    cli: Cli,
    process_env: Seq<(String, String)>,
    i: int,
    name: Seq<char>,
)
    ensures
        !cli.pass_environment ==> !base_environment(cli, process_env).contains_key(name),
        cli.pass_environment && 0 <= i < process_env.len() && (forall|j: int|
            i < j < process_env.len() ==> (#[trigger] process_env[j]).0@ != process_env[i].0@) ==> {
            &&& base_environment(cli, process_env).contains_key(process_env[i].0@)
            &&& base_environment(cli, process_env)[process_env[i].0@] == process_env[i].1@
        },
        (forall|j: int| 0 <= j < process_env.len() ==> (#[trigger] process_env[j]).0@ != name)
            ==> !base_environment(cli, process_env).contains_key(name),
{
    let pairs = pair_views(process_env);
    if cli.pass_environment {
        if 0 <= i < process_env.len() && (forall|j: int|
            i < j < process_env.len() ==> (#[trigger] process_env[j]).0@ != process_env[i].0@) {
            assert forall|j: int| i < j < pairs.len() implies (#[trigger] pairs[j]).0
                != pairs[i].0 by {
                assert(pairs[j].0 == process_env[j].0@);
            }
            law_last_pair_counts(pairs, i);
        }
        if collect(pairs).contains_key(name) {
            let j = law_collected_keys_occur(pairs, name);
            assert(pairs[j].0 == process_env[j].0@);
        }
    }
}

/// The URLs are the default server's, if there is one, and one for each name in
/// order: the address behind `http://`, and the server's path behind that.
pub proof fn law_endpoints_have_address_and_path(
    address: Seq<char>,
    has_default: bool,
    names: Seq<Seq<char>>,
    name: Seq<char>,
)
    ensures
        endpoints_at(address, false, Seq::empty()).len() == 0,
        endpoints_at(address, true, Seq::empty()) == seq!["http://"@ + address + "/mcp"@],
        endpoints_at(address, has_default, names.push(name)) == endpoints_at(
            address,
            has_default,
            names,
        ).push("http://"@ + address + "/servers/"@ + name + "/mcp"@),
{
    assert(endpoints_at(address, true, Seq::empty()) =~= seq!["http://"@ + address + "/mcp"@]);
    let base = "http://"@ + address;
    assert(base + ("/servers/"@ + name) + "/mcp"@ =~= "http://"@ + address + "/servers/"@ + name
        + "/mcp"@);
    assert(endpoints_at(address, has_default, names.push(name)) =~= endpoints_at(
        address,
        has_default,
        names,
    ).push("http://"@ + address + "/servers/"@ + name + "/mcp"@));
}

/// The names of a plan are those of its named servers, all of them.
pub proof fn law_plans_name_their_servers(plan: ServerPlan)
    ensures
        plan.names().len() == plan.named_servers.configs.entries().len(),
        forall|i: int|
            0 <= i < plan.names().len() ==> #[trigger] plan.names()[i]
                == plan.named_servers.configs.entries()[i].0,
{
}

/// Without a configuration file, command strings that all have words give the
/// named servers, and no server has a name that the command line does not give.
pub proof fn law_sound_command_lines_give_their_servers(
    cli: Cli,
    base_env: Map<Seq<char>, Seq<char>>,
    file: Option<Result<String, std::io::Error>>,
    built: Result<NamedServers, StartupError>,
)
    requires
        cli.named_server_config is None,
        named_outcome(cli, base_env, file, built),
    ensures
        (forall|i: int|
            0 <= i < cli.named_server_definitions@.len() / 2 ==> {
                let words = shell_split(#[trigger] cli.named_server_definitions@[2 * i + 1]@);
                words is Some && words->Some_0.len() > 0
            }) ==> built is Ok,
        built matches Ok(named) ==> forall|name: Seq<char>| #[trigger]
            named.configs@.contains_key(name) ==> exists|i: int|
                0 <= i < cli.named_server_definitions@.len() / 2
                    && #[trigger] cli.named_server_definitions@[2 * i]@ == name,
{
    let pairs = pairs_of(texts(cli.named_server_definitions@));
    if forall|i: int|
        0 <= i < cli.named_server_definitions@.len() / 2 ==> {
            let words = shell_split(#[trigger] cli.named_server_definitions@[2 * i + 1]@);
            words is Some && words->Some_0.len() > 0
        } {
        assert forall|j: int| 0 <= j < pairs.len() implies words_config(
            shell_split((#[trigger] pairs[j]).1),
            base_env,
        ) is Ok by {
            assert(pairs[j].1 == cli.named_server_definitions@[2 * j + 1]@);
        }
        law_sound_pairs_are_servers(pairs, base_env);
    }
    if let Ok(named) = built {
        assert forall|name: Seq<char>| #[trigger] named.configs@.contains_key(name) implies exists|
            i: int,
        |
            0 <= i < cli.named_server_definitions@.len() / 2
                && #[trigger] cli.named_server_definitions@[2 * i]@ == name by {
            law_pairs_name_the_servers(pairs, base_env, name);
            let i = choose|i: int| 0 <= i < pairs.len() && (#[trigger] pairs[i]).0 == name;
            assert(cli.named_server_definitions@[2 * i]@ == name);
        }
    }
}

/// Without a configuration file, the first command string that is at fault is
/// reported under its name: as an unclosed quote, or as having no words.
pub proof fn law_first_faulty_command_string_is_reported(
    cli: Cli,
    base_env: Map<Seq<char>, Seq<char>>,
    file: Option<Result<String, std::io::Error>>,
    built: Result<NamedServers, StartupError>,
    i: int,
)
    requires
        cli.named_server_config is None,
        named_outcome(cli, base_env, file, built),
        0 <= i < cli.named_server_definitions@.len() / 2,
        ({
            let words = shell_split(cli.named_server_definitions@[2 * i + 1]@);
            words is None || words->Some_0.len() == 0
        }),
        forall|j: int|
            0 <= j < i ==> {
                let words = shell_split(#[trigger] cli.named_server_definitions@[2 * j + 1]@);
                words is Some && words->Some_0.len() > 0
            },
    ensures
        shell_split(cli.named_server_definitions@[2 * i + 1]@) is None ==> (built matches Err(
            StartupError::InvalidCommand { name, source },
        ) && name@ == cli.named_server_definitions@[2 * i]@),
        shell_split(cli.named_server_definitions@[2 * i + 1]@) is Some ==> (built matches Err(
            StartupError::EmptyCommand { name },
        ) && name@ == cli.named_server_definitions@[2 * i]@),
{
    let pairs = pairs_of(texts(cli.named_server_definitions@));
    assert(pairs[i] == (
        cli.named_server_definitions@[2 * i]@,
        cli.named_server_definitions@[2 * i + 1]@,
    ));
    assert forall|j: int| 0 <= j < i implies words_config(
        shell_split((#[trigger] pairs[j]).1),
        base_env,
    ) is Ok by {
        assert(pairs[j].1 == cli.named_server_definitions@[2 * j + 1]@);
    }
    law_first_fault_is_reported(pairs, base_env, i);
}

/// Client mode connects to the URL given, over as many connections as asked for
/// but at least one, and gives requests as long as asked for.
pub proof fn law_client_plans_follow_the_command_line(
    cli: Cli,
    api_access_token: Option<&str>,
    oauth2_token: Option<&str>,
    plan: ClientPlan,
)
    requires
        client_planned(cli, api_access_token, oauth2_token, plan),
    ensures
        cli.command_or_url is Some,
        plan.url@ == cli.command_or_url->Some_0@,
        plan.pool_size >= 1,
        cli.upstream_pool_size >= 1 ==> plan.pool_size == cli.upstream_pool_size,
        cli.upstream_pool_size == 0 ==> plan.pool_size == 1,
        plan.timeout_secs == cli.upstream_timeout_secs,
        cli.asks_for(plan.verify_ssl),
{
}

/// In client mode the token of the grant is the authorization, or else the access
/// token of the environment; every header of the command line is sent with the
/// value that stands last beside its name, the authorization only without a token.
pub proof fn law_client_headers_follow_the_command_line(
    cli: Cli,
    api_access_token: Option<&str>,
    oauth2_token: Option<&str>,
    plan: ClientPlan,
    i: int,
)
    requires
        client_planned(cli, api_access_token, oauth2_token, plan),
    ensures
        oauth2_token matches Some(token) ==> {
            &&& plan.headers@.contains_key("Authorization"@)
            &&& plan.headers@["Authorization"@] == "Bearer "@ + token@
            &&& plan.headers.entries().len() > 0
            &&& plan.headers.entries().last() == ("Authorization"@, "Bearer "@ + token@)
        },
        oauth2_token is None ==> (api_access_token matches Some(token) ==> {
            &&& plan.headers@.contains_key("Authorization"@)
            &&& plan.headers@["Authorization"@] == "Bearer "@ + token@
            &&& plan.headers.entries().len() > 0
            &&& plan.headers.entries().last() == ("Authorization"@, "Bearer "@ + token@)
        }),
        0 <= i < cli.headers@.len() / 2 && (forall|j: int|
            i < j < cli.headers@.len() / 2 ==> #[trigger] cli.headers@[2 * j]@ != cli.headers@[2
                * i]@) && (cli.headers@[2 * i]@ != "Authorization"@ || (oauth2_token is None
            && api_access_token is None)) ==> {
            &&& plan.headers@.contains_key(cli.headers@[2 * i]@)
            &&& plan.headers@[cli.headers@[2 * i]@] == cli.headers@[2 * i + 1]@
        },
{
    let pairs = pairs_of(texts(cli.headers@));
    if 0 <= i < cli.headers@.len() / 2 && (forall|j: int|
        i < j < cli.headers@.len() / 2 ==> #[trigger] cli.headers@[2 * j]@ != cli.headers@[2
            * i]@) {
        assert(pairs[i] == (cli.headers@[2 * i]@, cli.headers@[2 * i + 1]@));
        assert forall|j: int| i < j < pairs.len() implies (#[trigger] pairs[j]).0 != pairs[i].0 by {
            assert(pairs[j].0 == cli.headers@[2 * j]@);
        }
        law_last_pair_counts(pairs, i);
    }
}

/// In client mode no header is sent that neither the command line nor a token
/// gives.
pub proof fn law_clients_send_no_other_headers(
    cli: Cli,
    api_access_token: Option<&str>,
    oauth2_token: Option<&str>,
    plan: ClientPlan,
    name: Seq<char>,
)
    requires
        client_planned(cli, api_access_token, oauth2_token, plan),
        forall|j: int| 0 <= j < cli.headers@.len() / 2 ==> #[trigger] cli.headers@[2 * j]@ != name,
    ensures
        plan.headers@.contains_key(name) ==> name == "Authorization"@ && (oauth2_token is Some
            || api_access_token is Some),
{
    let pairs = pairs_of(texts(cli.headers@));
    if collect(pairs).contains_key(name) {
        let j = law_collected_keys_occur(pairs, name);
        assert(pairs[j].0 == cli.headers@[2 * j]@);
    }
}

/// Server mode listens on the host given and the port given, runs the default
/// server that was given, as it was given, and is stateless exactly if asked to be.
pub proof fn law_server_plans_follow_the_command_line(
    cli: Cli,
    process_env: Seq<(String, String)>,
    file: Option<Result<String, std::io::Error>>,
    plan: ServerPlan,
)
    requires
        server_planned(cli, process_env, file, plan),
    ensures
        plan.stateless == cli.stateless,
        stands_at(plan.address@, cli.host@, 0),
        stands_at(plan.address@, ":"@, cli.host@.len() as int),
        decimal_value(plan.address@.skip(cli.host@.len() as int + 1)) == cli.port,
        plan.address@.len() > cli.host@.len() + 1,
        plan.address@[cli.host@.len() as int + 1] == '0' ==> cli.port == 0,
        forall|i: int|
            cli.host@.len() + 1 <= i < plan.address@.len() ==> '0' <= #[trigger] plan.address@[i]
                <= '9',
        plan.cors is Some <==> cli.allow_origin@.len() > 0,
        plan.default_server matches Some(server) ==> {
            &&& cli.command_or_url is Some
            &&& server.command@ == cli.command_or_url->Some_0@
            &&& server.args@.len() == cli.args@.len()
            &&& forall|i: int|
                0 <= i < cli.args@.len() ==> (#[trigger] server.args@[i])@ == cli.args@[i]@
            &&& server.cwd == cli.cwd
        },
        plan.default_server is Some <==> cli.command_or_url is Some && !cli.client_mode(),
        named_outcome(
            cli,
            base_environment(cli, process_env),
            file,
            Ok(plan.named_servers),
        ),
{
    reveal_strlit(":");
    law_decimal_reads_back(cli.port as nat);
    assert(plan.address@.skip(cli.host@.len() as int + 1) =~= decimal(cli.port as nat));
    assert forall|i: int| cli.host@.len() + 1 <= i < plan.address@.len() implies '0'
        <= #[trigger] plan.address@[i] <= '9' by {
        assert(plan.address@[i] == decimal(cli.port as nat)[i - cli.host@.len() - 1]);
    }
    let base_env = base_environment(cli, process_env);
    law_default_server_or_client(cli, base_env);
    if let Some(server) = plan.default_server {
        law_default_server_is_what_was_given(cli, base_env);
        law_configuration_models(server);
        assert forall|i: int| 0 <= i < cli.args@.len() implies (#[trigger] server.args@[i])@
            == cli.args@[i]@ by {
            assert(server@.args[i] == server.args@[i]@);
        }
    }
}

} // verus!
