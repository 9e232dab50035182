//! Named stdio MCP server definitions, read from a JSON document.
//!
//! Expected shape:
//! ```json
//! { "mcpServers": { "name": { "command": "...", "args": [...], "env": {...}, "enabled": true } } }
//! ```

use crate::files::{path_text, show_path};
use crate::json::{
    distinct_names, find_member, json_document, lemma_list_model, lemma_member_distinct_names,
    member, member_models, members_of, parse_json, Json, JsonModel,
};
use crate::table::{distinct_keys, Table};
use crate::text::{joined, stands_at, texts};
use std::path::PathBuf;
use vstd::prelude::*;
use vstd::string::*;

verus! {

/// How to start a stdio MCP server.
#[derive(Debug, Clone, PartialEq, Eq)]
pub struct StdioServerConfig {
    pub command: String,
    pub args: Vec<String>,
    pub env: Table<String, String>,
    pub cwd: Option<PathBuf>,
}

/// The model of a `StdioServerConfig`.
pub struct StdioServerModel {
    pub command: Seq<char>,
    pub args: Seq<Seq<char>>,
    pub env: Map<Seq<char>, Seq<char>>,
    pub cwd: Option<PathBuf>,
}

impl View for StdioServerConfig {
    type V = StdioServerModel;

    open spec fn view(&self) -> StdioServerModel {
        StdioServerModel {
            command: self.command@,
            args: texts(self.args@),
            env: self.env@,
            cwd: self.cwd,
        }
    }
}

/// Why an entry of the document names no server.
#[derive(Debug, Clone, Copy, PartialEq, Eq, Structural)]
pub enum SkippedEntry {
    /// The entry is not an object.
    NotAnObject,
    /// The entry says `"enabled": false`.
    Disabled,
    /// `"command"` is missing or not a text.
    InvalidCommand,
    /// `"args"` holds something other than texts.
    NonTextArgument,
    /// `"args"` is not a list.
    ArgsNotAList,
}

/// Why a configuration file could not be loaded.
#[allow(inconsistent_fields)]
#[derive(Debug)]
pub enum ConfigError {
    Io { path: PathBuf, source: std::io::Error },
    Json { path: PathBuf, source: serde_json::Error },
    MissingMcpServers { path: PathBuf },
}

/// What a `ConfigError` says, given what the error behind it says.
pub open spec fn config_error_text(error: ConfigError, source: Seq<char>) -> Seq<char> {
    match error {
        ConfigError::Io { path, source: _ } => "failed to read config file "@ + path_text(path)
            + ": "@ + source,
        ConfigError::Json { path, source: _ } => "invalid JSON in config file "@ + path_text(path)
            + ": "@ + source,
        ConfigError::MissingMcpServers { path } => "config file "@ + path_text(path)
            + " is missing a top-level \"mcpServers\" object"@,
    }
}

impl ConfigError {
    /// The error in words, given the words of the error behind it; where there is
    /// none, those do not matter.
    pub fn message(&self, source: &str) -> (text: String)
        ensures
            text@ == config_error_text(*self, source@),
    {
        match self {
            ConfigError::Io { path, source: _ } => joined(
                "failed to read config file ",
                show_path(path).as_str(),
            ).concat(": ").concat(source),
            ConfigError::Json { path, source: _ } => joined(
                "invalid JSON in config file ",
                show_path(path).as_str(),
            ).concat(": ").concat(source),
            ConfigError::MissingMcpServers { path } => joined(
                "config file ",
                show_path(path).as_str(),
            ).concat(" is missing a top-level \"mcpServers\" object"),
        }
    }
}

/// An entry is enabled unless its `"enabled"` is the truth value `false`.
pub open spec fn entry_enabled(members: Seq<(Seq<char>, JsonModel)>) -> bool {
    member(members, "enabled"@) != Some(JsonModel::Bool(false))
}

/// The arguments that `"args"` gives: none where it is absent.
pub open spec fn entry_args(args: Option<JsonModel>) -> Result<Seq<Seq<char>>, SkippedEntry> {
    match args {
        None => Ok(Seq::empty()),
        Some(JsonModel::List(items)) => if forall|i: int|
            0 <= i < items.len() ==> (#[trigger] items[i]) is Text {
            Ok(items.map_values(|item: JsonModel| item->Text_0))
        } else {
            Err(SkippedEntry::NonTextArgument)
        },
        Some(_) => Err(SkippedEntry::ArgsNotAList),
    }
}

/// The base environment with the texts among the members laid over it.
pub open spec fn overlaid(
    base: Map<Seq<char>, Seq<char>>,
    members: Seq<(Seq<char>, JsonModel)>,
) -> Map<Seq<char>, Seq<char>>
    decreases members.len(),
{
    if members.len() == 0 {
        base
    } else {
        match members.last().1 {
            JsonModel::Text(text) => overlaid(base, members.drop_last()).insert(
                members.last().0,
                text,
            ),
            _ => overlaid(base, members.drop_last()),
        }
    }
}

/// The environment that `"env"` gives; it counts only where it is an object.
pub open spec fn entry_env(
    base: Map<Seq<char>, Seq<char>>,
    env: Option<JsonModel>,
) -> Map<Seq<char>, Seq<char>> {
    match env {
        Some(JsonModel::Object(members)) => overlaid(base, members),
        _ => base,
    }
}

/// The server that an entry defines, or why it defines none.
pub open spec fn server_entry(
    entry: JsonModel,
    base_env: Map<Seq<char>, Seq<char>>,
) -> Result<StdioServerModel, SkippedEntry> {
    match members_of(entry) {
        None => Err(SkippedEntry::NotAnObject),
        Some(members) => if !entry_enabled(members) {
            Err(SkippedEntry::Disabled)
        } else {
            match member(members, "command"@) {
                Some(JsonModel::Text(command)) => match entry_args(member(members, "args"@)) {
                    Ok(args) => Ok(
                        StdioServerModel {
                            command,
                            args,
                            env: entry_env(base_env, member(members, "env"@)),
                            cwd: None,
                        },
                    ),
                    Err(skipped) => Err(skipped),
                },
                _ => Err(SkippedEntry::InvalidCommand),
            }
        },
    }
}

/// Reads the arguments of an entry.
fn parse_args(args: Option<&Json>) -> (parsed: Result<Vec<String>, SkippedEntry>)
    ensures
        match args {
            Some(json) => match parsed {
                Ok(list) => entry_args(Some(json@)) == Ok::<_, SkippedEntry>(texts(list@)),
                Err(skipped) => entry_args(Some(json@)) == Err::<Seq<Seq<char>>, _>(skipped),
            },
            None => parsed matches Ok(list) && texts(list@) == Seq::<Seq<char>>::empty(),
        },
{
    let json = match args {
        None => {
            let none: Vec<String> = Vec::new();
            assert(texts(none@) =~= Seq::<Seq<char>>::empty());
            return Ok(none);
        },
        Some(json) => json,
    };
    match json {
        Json::List(items) => {
            proof {
                lemma_list_model(*items);
            }
            let ghost models = items@.map_values(|item: Json| item@);
            let mut list: Vec<String> = Vec::new();
            let mut i: usize = 0;
            while i < items.len()
                invariant
                    i <= items.len(),
                    models == items@.map_values(|item: Json| item@),
                    args == Some(json),
                    json@ == JsonModel::List(models),
                    list.len() == i,
                    forall|j: int|
                        0 <= j < i ==> #[trigger] models[j] == JsonModel::Text(list@[j]@),
                decreases items.len() - i,
            {
                assert(models[i as int] == items@[i as int]@);
                match items[i].as_text() {
                    Some(text) => list.push(text.clone()),
                    None => {
                        assert(!(models[i as int] is Text));
                        return Err(SkippedEntry::NonTextArgument);
                    },
                }
                i = i + 1;
            }
            assert(texts(list@) =~= models.map_values(|item: JsonModel| item->Text_0));
            Ok(list)
        },
        _ => Err(SkippedEntry::ArgsNotAList),
    }
}

/// Lays the texts among the members over an environment.
fn overlay_env(env: &mut Table<String, String>, members: &Vec<(String, Json)>)
    ensures
        final(env)@ == overlaid(old(env)@, member_models(members@)),
{
    let ghost base = env@;
    let ghost models = member_models(members@);
    let mut i: usize = 0;
    while i < members.len()
        invariant
            i <= members.len(),
            models == member_models(members@),
            env@ == overlaid(base, models.take(i as int)),
        decreases members.len() - i,
    {
        assert(models.take(i + 1).drop_last() =~= models.take(i as int));
        assert(models.take(i + 1).last() == models[i as int]);
        match members[i].1.as_text() {
            Some(text) => env.insert(members[i].0.clone(), text.clone()),
            None => {},
        }
        i = i + 1;
    }
    assert(models.take(i as int) =~= models);
}

/// Reads one entry of `"mcpServers"`.
///
/// A problem with the entry (it is not an object, it is disabled, its command
/// is missing, its arguments are not a list of texts) makes it a skipped entry.
pub fn parse_server_entry(
    entry: &Json,
    base_env: &Table<String, String>,
) -> (parsed: Result<StdioServerConfig, SkippedEntry>)
    ensures
        match parsed {
            Ok(config) => server_entry(entry@, base_env@) == Ok::<_, SkippedEntry>(config@),
            Err(skipped) => server_entry(entry@, base_env@) == Err::<StdioServerModel, _>(skipped),
        },
{
    let members = match entry.as_object() {
        Some(members) => members,
        None => return Err(SkippedEntry::NotAnObject),
    };
    let enabled: bool = match find_member(members, "enabled") {
        Some(value) => match value.as_bool() {
            Some(enabled) => enabled,
            None => true,
        },
        None => true,
    };
    if !enabled {
        return Err(SkippedEntry::Disabled);
    }
    let command = match find_member(members, "command") {
        Some(value) => match value.as_text() {
            Some(command) => command,
            None => return Err(SkippedEntry::InvalidCommand),
        },
        None => return Err(SkippedEntry::InvalidCommand),
    };
    let args = match parse_args(find_member(members, "args")) {
        Ok(args) => args,
        Err(skipped) => return Err(skipped),
    };
    let mut env = base_env.duplicate();
    match find_member(members, "env") {
        Some(value) => match value.as_object() {
            Some(entry_env) => overlay_env(&mut env, entry_env),
            None => {},
        },
        None => {},
    }
    Ok(StdioServerConfig { command: command.clone(), args, env, cwd: None })
}

/// What a document defines: the servers, by name, and the entries that define
/// none, each with the reason, in the order in which they were read.
#[derive(Debug)]
pub struct NamedServers {
    pub configs: Table<String, StdioServerConfig>,
    pub skipped: Vec<(String, SkippedEntry)>,
}

/// The entries under the top-level `"mcpServers"`, where that is an object.
pub open spec fn server_entries(document: JsonModel) -> Option<Seq<(Seq<char>, JsonModel)>> {
    match members_of(document) {
        Some(members) => match member(members, "mcpServers"@) {
            Some(servers) => members_of(servers),
            None => None,
        },
        None => None,
    }
}

/// The servers that a list of entries defines.
pub open spec fn server_configs(
    entries: Seq<(Seq<char>, JsonModel)>,
    base_env: Map<Seq<char>, Seq<char>>,
) -> Map<Seq<char>, StdioServerModel>
    decreases entries.len(),
{
    if entries.len() == 0 {
        Map::empty()
    } else {
        let rest = server_configs(entries.drop_last(), base_env);
        match server_entry(entries.last().1, base_env) {
            Ok(config) => rest.insert(entries.last().0, config),
            Err(_) => rest,
        }
    }
}

/// The entries of a list that define no server, each with the reason.
pub open spec fn skipped_entries(
    entries: Seq<(Seq<char>, JsonModel)>,
    base_env: Map<Seq<char>, Seq<char>>,
) -> Seq<(Seq<char>, SkippedEntry)>
    decreases entries.len(),
{
    if entries.len() == 0 {
        Seq::empty()
    } else {
        let rest = skipped_entries(entries.drop_last(), base_env);
        match server_entry(entries.last().1, base_env) {
            Ok(_) => rest,
            Err(reason) => rest.push((entries.last().0, reason)),
        }
    }
}

/// The names and reasons of a list of skipped entries.
pub open spec fn skipped_models(skipped: Seq<(String, SkippedEntry)>) -> Seq<
    (Seq<char>, SkippedEntry),
> {
    skipped.map_values(|s: (String, SkippedEntry)| (s.0@, s.1))
}

/// Reads the servers that a JSON document defines; `None` where it has no
/// `"mcpServers"` object.
pub fn servers_of_document(document: &Json, base_env: &Table<String, String>) -> (servers: Option<
    NamedServers,
>)
    ensures
        match servers {
            Some(named) => server_entries(document@) matches Some(entries) && {
                &&& named.configs@ == server_configs(entries, base_env@)
                &&& skipped_models(named.skipped@) == skipped_entries(entries, base_env@)
            },
            None => server_entries(document@) is None,
        },
{
    let members = match document.as_object() {
        Some(members) => members,
        None => return None,
    };
    let entries = match find_member(members, "mcpServers") {
        Some(servers) => match servers.as_object() {
            Some(entries) => entries,
            None => return None,
        },
        None => return None,
    };
    let ghost models = member_models(entries@);
    let mut configs: Table<String, StdioServerConfig> = Table::new();
    let mut skipped: Vec<(String, SkippedEntry)> = Vec::new();
    assert(skipped_models(skipped@) =~= skipped_entries(models.take(0), base_env@));
    let mut i: usize = 0;
    while i < entries.len()
        invariant
            i <= entries.len(),
            models == member_models(entries@),
            configs@ == server_configs(models.take(i as int), base_env@),
            skipped_models(skipped@) == skipped_entries(models.take(i as int), base_env@),
        decreases entries.len() - i,
    {
        let ghost before = skipped@;
        assert(models.take(i + 1).drop_last() =~= models.take(i as int));
        assert(models.take(i + 1).last() == models[i as int]);
        match parse_server_entry(&entries[i].1, base_env) {
            Ok(config) => configs.insert(entries[i].0.clone(), config),
            Err(reason) => {
                skipped.push((entries[i].0.clone(), reason));
                assert(skipped_models(skipped@) =~= skipped_models(before).push(
                    (entries@[i as int].0@, reason),
                ));
            },
        }
        i = i + 1;
    }
    assert(models.take(i as int) =~= models);
    Some(NamedServers { configs, skipped })
}

/// What loading a configuration file comes to, given what reading it came to.
pub open spec fn file_outcome(
    path: PathBuf,
    contents: Result<String, std::io::Error>,
    base_env: Map<Seq<char>, Seq<char>>,
    loaded: Result<NamedServers, ConfigError>,
) -> bool {
    match contents {
        Err(error) => loaded == Err::<NamedServers, _>(ConfigError::Io { path, source: error }),
        Ok(text) => match json_document(text@) {
            Err(error) => loaded == Err::<NamedServers, _>(
                ConfigError::Json { path, source: error },
            ),
            Ok(document) => match server_entries(document) {
                None => loaded == Err::<NamedServers, _>(ConfigError::MissingMcpServers { path }),
                Some(entries) => loaded matches Ok(named) && {
                    &&& distinct_names(document)
                    &&& named.configs@ == server_configs(entries, base_env)
                    &&& skipped_models(named.skipped@) == skipped_entries(entries, base_env)
                },
            },
        },
    }
}

/// Loads the named servers of a configuration file, given what reading the file
/// at `config_file_path` came to.
///
/// Problems with single entries are reported as skipped entries. Only a file
/// that could not be read, that is not JSON, or that has no `"mcpServers"`
/// object fails as a whole.
pub fn load_named_server_configs_from_file(
    config_file_path: &PathBuf,
    contents: Result<String, std::io::Error>,
    base_env: &Table<String, String>,
) -> (loaded: Result<NamedServers, ConfigError>)
    ensures
        file_outcome(*config_file_path, contents, base_env@, loaded),
{
    let text = match contents {
        Ok(text) => text,
        Err(source) => return Err(ConfigError::Io { path: config_file_path.clone(), source }),
    };
    let document = match parse_json(text.as_str()) {
        Ok(document) => document,
        Err(source) => return Err(ConfigError::Json { path: config_file_path.clone(), source }),
    };
    match servers_of_document(&document, base_env) {
        Some(named) => Ok(named),
        None => Err(ConfigError::MissingMcpServers { path: config_file_path.clone() }),
    }
}

/// An entry's fields other than `"enabled"`, `"command"`, `"args"` and `"env"`
/// are ignored: two objects that agree on these four define the same server.
pub proof fn law_other_fields_are_ignored(
    one: Seq<(Seq<char>, JsonModel)>,
    other: Seq<(Seq<char>, JsonModel)>,
    base_env: Map<Seq<char>, Seq<char>>,
)
    requires
        member(one, "enabled"@) == member(other, "enabled"@),
        member(one, "command"@) == member(other, "command"@),
        member(one, "args"@) == member(other, "args"@),
        member(one, "env"@) == member(other, "env"@),
    ensures
        server_entry(JsonModel::Object(one), base_env) == server_entry(
            JsonModel::Object(other),
            base_env,
        ),
{
}

/// An entry without `"enabled"` is enabled.
pub proof fn law_enabled_by_default(members: Seq<(Seq<char>, JsonModel)>)
    requires
        member(members, "enabled"@) is None,
    ensures
        entry_enabled(members),
{
}

/// An entry that defines no server has no influence on the servers that the
/// other entries define, wherever it stands.
pub proof fn law_skipped_entries_do_not_matter(
    before: Seq<(Seq<char>, JsonModel)>,
    entry: (Seq<char>, JsonModel),
    after: Seq<(Seq<char>, JsonModel)>,
    base_env: Map<Seq<char>, Seq<char>>,
)
    requires
        server_entry(entry.1, base_env) is Err,
    ensures
        server_configs(before.push(entry) + after, base_env) == server_configs(
            before + after,
            base_env,
        ),
    decreases after.len(),
{
    if after.len() == 0 {
        assert(before.push(entry) + after =~= before.push(entry));
        assert(before + after =~= before);
        assert(before.push(entry).drop_last() =~= before);
    } else {
        assert((before.push(entry) + after).drop_last() =~= before.push(entry) + after.drop_last());
        assert((before + after).drop_last() =~= before + after.drop_last());
        law_skipped_entries_do_not_matter(before, entry, after.drop_last(), base_env);
    }
}

/// Of entries with distinct names, each is a server or is reported.
proof fn lemma_entry_accounted_for(
    entries: Seq<(Seq<char>, JsonModel)>,
    base_env: Map<Seq<char>, Seq<char>>,
    i: int,
)
    requires
        distinct_keys(entries),
        0 <= i < entries.len(),
    ensures
        match server_entry(entries[i].1, base_env) {
            Ok(config) => {
                &&& server_configs(entries, base_env).contains_key(entries[i].0)
                &&& server_configs(entries, base_env)[entries[i].0] == config
            },
            Err(reason) => {
                &&& !server_configs(entries, base_env).contains_key(entries[i].0)
                &&& skipped_entries(entries, base_env).contains((entries[i].0, reason))
            },
        },
    decreases entries.len(),
{
    let rest = entries.drop_last();
    assert(distinct_keys(rest));
    if i < rest.len() {
        lemma_entry_accounted_for(rest, base_env, i);
        assert(rest[i] == entries[i]);
        assert(entries[i].0 != entries[entries.len() - 1].0);
        if let Err(reason) = server_entry(entries[i].1, base_env) {
            let skipped = skipped_entries(rest, base_env);
            let at = choose|k: int| 0 <= k < skipped.len() && skipped[k] == (entries[i].0, reason);
            assert(skipped_entries(entries, base_env)[at] == (entries[i].0, reason));
        }
    } else {
        lemma_names_of_configs(rest, base_env, entries[i].0);
        if server_entry(entries[i].1, base_env) is Err {
            assert(skipped_entries(entries, base_env).last().0 == entries[i].0);
        }
    }
}

/// Every entry of a document is accounted for: it is a server under its own name
/// if it defines one, and otherwise that name is no server and the entry is
/// reported with its reason.
pub proof fn law_every_entry_is_accounted_for(
    document: JsonModel,
    base_env: Map<Seq<char>, Seq<char>>,
    i: int,
)
    requires
        distinct_names(document),
        server_entries(document) is Some,
        0 <= i < server_entries(document)->Some_0.len(),
    ensures
        ({
            let entries = server_entries(document)->Some_0;
            match server_entry(entries[i].1, base_env) {
                Ok(config) => {
                    &&& server_configs(entries, base_env).contains_key(entries[i].0)
                    &&& server_configs(entries, base_env)[entries[i].0] == config
                },
                Err(reason) => {
                    &&& !server_configs(entries, base_env).contains_key(entries[i].0)
                    &&& skipped_entries(entries, base_env).contains((entries[i].0, reason))
                },
            }
        }),
{
    lemma_member_distinct_names(members_of(document)->Some_0, "mcpServers"@);
    lemma_entry_accounted_for(server_entries(document)->Some_0, base_env, i);
}

/// Servers have the names of entries.
proof fn lemma_names_of_configs(
    entries: Seq<(Seq<char>, JsonModel)>,
    base_env: Map<Seq<char>, Seq<char>>,
    name: Seq<char>,
)
    requires
        forall|i: int| 0 <= i < entries.len() ==> (#[trigger] entries[i]).0 != name,
    ensures
        !server_configs(entries, base_env).contains_key(name),
    decreases entries.len(),
{
    if entries.len() > 0 {
        lemma_names_of_configs(entries.drop_last(), base_env, name);
        assert(entries[entries.len() - 1].0 != name);
    }
}

/// An overlaid name has the member's value, every other name keeps what the base
/// says of it.
proof fn lemma_overlaid(
    base: Map<Seq<char>, Seq<char>>,
    members: Seq<(Seq<char>, JsonModel)>,
    name: Seq<char>,
)
    requires
        distinct_keys(members),
    ensures
        ({
            let env = entry_env(base, Some(JsonModel::Object(members)));
            match member(members, name) {
                Some(JsonModel::Text(text)) => env.contains_key(name) && env[name] == text,
                _ => {
                    &&& env.contains_key(name) <==> base.contains_key(name)
                    &&& base.contains_key(name) ==> env[name] == base[name]
                },
            }
        }),
    decreases members.len(),
{
    if members.len() > 0 {
        let rest = members.drop_last();
        assert(distinct_keys(rest));
        lemma_overlaid(base, rest, name);
        if members.last().0 == name {
            assert forall|i: int| 0 <= i < rest.len() implies (#[trigger] rest[i]).0 != name by {
                assert(members[i].0 != members[members.len() - 1].0);
            }
            lemma_no_member(rest, name);
        }
    }
}

/// A server's environment is the base environment with the texts of the entry's
/// `"env"` object laid over it: an overlaid name has the entry's value, every
/// other name keeps what the base says of it.
pub proof fn law_entry_env_overlays_base(
    entry: JsonModel,
    base: Map<Seq<char>, Seq<char>>,
    name: Seq<char>,
)
    requires
        distinct_names(entry),
        server_entry(entry, base) is Ok,
    ensures
        ({
            let env = server_entry(entry, base)->Ok_0.env;
            match member(members_of(entry)->Some_0, "env"@) {
                Some(JsonModel::Object(members)) => match member(members, name) {
                    Some(JsonModel::Text(text)) => env.contains_key(name) && env[name] == text,
                    _ => {
                        &&& env.contains_key(name) <==> base.contains_key(name)
                        &&& base.contains_key(name) ==> env[name] == base[name]
                    },
                },
                _ => env == base,
            }
        }),
{
    let fields = members_of(entry)->Some_0;
    lemma_member_distinct_names(fields, "env"@);
    if let Some(JsonModel::Object(members)) = member(fields, "env"@) {
        lemma_overlaid(base, members, name);
    }
}

/// A name that no member has is the name of no member.
proof fn lemma_no_member(members: Seq<(Seq<char>, JsonModel)>, name: Seq<char>)
    requires
        forall|i: int| 0 <= i < members.len() ==> (#[trigger] members[i]).0 != name,
    ensures
        member(members, name) is None,
    decreases members.len(),
{
    if members.len() > 0 {
        assert(members[members.len() - 1].0 != name);
        lemma_no_member(members.drop_last(), name);
    }
}

/// The model of a configuration holds what the configuration holds.
pub proof fn law_configuration_models(config: StdioServerConfig)
    ensures
        config@.command == config.command@,
        config@.args.len() == config.args@.len(),
        forall|i: int| 0 <= i < config.args@.len() ==> #[trigger] config@.args[i] == config.args@[i]@,
        config@.env == config.env@,
        config@.cwd == config.cwd,
{
}

/// A server that an entry defines has the entry's command and as many arguments as
/// the entry lists, each the text of the item at its place; it has no working
/// directory, and its entry is not disabled.
pub proof fn law_servers_have_what_their_entries_say(
    entry: JsonModel,
    base_env: Map<Seq<char>, Seq<char>>,
)
    requires
        server_entry(entry, base_env) is Ok,
    ensures
        ({
            let config = server_entry(entry, base_env)->Ok_0;
            entry matches JsonModel::Object(fields) && {
                &&& member(fields, "command"@) == Some(JsonModel::Text(config.command))
                &&& member(fields, "enabled"@) != Some(JsonModel::Bool(false))
                &&& config.cwd is None
                &&& match member(fields, "args"@) {
                    None => config.args.len() == 0,
                    Some(JsonModel::List(items)) => {
                        &&& config.args.len() == items.len()
                        &&& forall|i: int|
                            0 <= i < items.len() ==> #[trigger] items[i] == JsonModel::Text(
                                config.args[i],
                            )
                    },
                    Some(_) => false,
                }
            }
        }),
{
    let config = server_entry(entry, base_env)->Ok_0;
    let fields = members_of(entry)->Some_0;
    if let Some(JsonModel::List(items)) = member(fields, "args"@) {
        assert forall|i: int| 0 <= i < items.len() implies #[trigger] items[i] == JsonModel::Text(
            config.args[i],
        ) by {
            assert(items[i] is Text);
        }
    }
}

/// An object that is not disabled, whose command is a text and whose arguments, if
/// it has any, are a list of texts defines a server.
pub proof fn law_sound_entries_define_servers(
    fields: Seq<(Seq<char>, JsonModel)>,
    base_env: Map<Seq<char>, Seq<char>>,
)
    requires
        member(fields, "enabled"@) != Some(JsonModel::Bool(false)),
        member(fields, "command"@) matches Some(JsonModel::Text(_)),
        member(fields, "args"@) matches Some(args) ==> (args matches JsonModel::List(items)
            && forall|i: int| 0 <= i < items.len() ==> #[trigger] items[i] is Text),
    ensures
        server_entry(JsonModel::Object(fields), base_env) is Ok,
{
}

/// An entry that defines no server is skipped for the first thing that is wrong
/// with it: its shape, then that it is disabled, then its command, then its
/// arguments.
pub proof fn law_skipped_entries_have_their_reason(
    entry: JsonModel,
    base_env: Map<Seq<char>, Seq<char>>,
)
    ensures
        !(entry is Object) <==> server_entry(entry, base_env) == Err::<StdioServerModel, _>(
            SkippedEntry::NotAnObject,
        ),
        entry matches JsonModel::Object(fields) ==> {
            let disabled = member(fields, "enabled"@) == Some(JsonModel::Bool(false));
            let command = member(fields, "command"@) matches Some(JsonModel::Text(_));
            &&& disabled <==> server_entry(entry, base_env) == Err::<StdioServerModel, _>(
                SkippedEntry::Disabled,
            )
            &&& !disabled && !command <==> server_entry(entry, base_env) == Err::<
                StdioServerModel,
                _,
            >(SkippedEntry::InvalidCommand)
            &&& (!disabled && command && (member(fields, "args"@) matches Some(args) && !(
            args is List))) <==> server_entry(entry, base_env) == Err::<StdioServerModel, _>(
                SkippedEntry::ArgsNotAList,
            )
            &&& (!disabled && command && (member(fields, "args"@) matches Some(
                JsonModel::List(items),
            ) && exists|i: int| 0 <= i < items.len() && !(#[trigger] items[i] is Text)))
                <==> server_entry(entry, base_env) == Err::<StdioServerModel, _>(
                SkippedEntry::NonTextArgument,
            )
        },
{
}

/// The entries of a document are the members of the object that stands under its
/// `"mcpServers"`; any other document has none.
pub proof fn law_entries_stand_under_mcp_servers(
    document: JsonModel,
    entries: Seq<(Seq<char>, JsonModel)>,
)
    ensures
        server_entries(document) == Some(entries) <==> (document matches JsonModel::Object(members)
            && member(members, "mcpServers"@) == Some(JsonModel::Object(entries))),
{
}

/// Nothing comes of no entries; one entry is a server or is reported.
pub proof fn law_one_entry(
    name: Seq<char>,
    entry: JsonModel,
    base_env: Map<Seq<char>, Seq<char>>,
)
    ensures
        server_configs(Seq::empty(), base_env) == Map::<Seq<char>, StdioServerModel>::empty(),
        skipped_entries(Seq::empty(), base_env).len() == 0,
        match server_entry(entry, base_env) {
            Ok(config) => {
                &&& server_configs(seq![(name, entry)], base_env) == map![name => config]
                &&& skipped_entries(seq![(name, entry)], base_env).len() == 0
            },
            Err(reason) => {
                &&& server_configs(seq![(name, entry)], base_env) == Map::<
                    Seq<char>,
                    StdioServerModel,
                >::empty()
                &&& skipped_entries(seq![(name, entry)], base_env) == seq![(name, reason)]
            },
        },
{
    let one = seq![(name, entry)];
    assert(one.drop_last() =~= Seq::empty());
    reveal_with_fuel(server_configs, 2);
    reveal_with_fuel(skipped_entries, 2);
    assert(skipped_entries(Seq::empty(), base_env) =~= Seq::empty());
}

/// What comes of two lists of entries, one after the other, is what comes of each
/// of them: a later server takes the place of an earlier one of its name, and the
/// reports follow each other.
pub proof fn law_entries_add_up(
    one: Seq<(Seq<char>, JsonModel)>,
    other: Seq<(Seq<char>, JsonModel)>,
    base_env: Map<Seq<char>, Seq<char>>,
)
    ensures
        server_configs(one + other, base_env) == server_configs(one, base_env).union_prefer_right(
            server_configs(other, base_env),
        ),
        skipped_entries(one + other, base_env) == skipped_entries(one, base_env) + skipped_entries(
            other,
            base_env,
        ),
    decreases other.len(),
{
    if other.len() == 0 {
        assert(one + other =~= one);
        assert(server_configs(one, base_env).union_prefer_right(server_configs(other, base_env))
            =~= server_configs(one, base_env));
        assert(skipped_entries(one, base_env) + skipped_entries(other, base_env)
            =~= skipped_entries(one, base_env));
    } else {
        let rest = other.drop_last();
        law_entries_add_up(one, rest, base_env);
        assert((one + other).drop_last() =~= one + rest);
        assert((one + other).last() == other.last());
        assert(server_configs(one + other, base_env) =~= server_configs(
            one,
            base_env,
        ).union_prefer_right(server_configs(other, base_env)));
        assert(skipped_entries(one + other, base_env) =~= skipped_entries(one, base_env)
            + skipped_entries(other, base_env));
    }
}

/// Every server has the name of an entry that defines it.
pub proof fn law_servers_have_entries(
    entries: Seq<(Seq<char>, JsonModel)>,
    base_env: Map<Seq<char>, Seq<char>>,
    name: Seq<char>,
) -> (i: int)
    requires
        server_configs(entries, base_env).contains_key(name),
    ensures
        0 <= i < entries.len(),
        entries[i].0 == name,
        server_entry(entries[i].1, base_env) == Ok::<_, SkippedEntry>(
            server_configs(entries, base_env)[name],
        ),
    decreases entries.len(),
{
    if entries.last().0 == name && server_entry(entries.last().1, base_env) is Ok {
        entries.len() - 1
    } else {
        law_servers_have_entries(entries.drop_last(), base_env, name)
    }
}

/// Every report has the name of an entry that is skipped for its reason.
pub proof fn law_reports_have_entries(
    entries: Seq<(Seq<char>, JsonModel)>,
    base_env: Map<Seq<char>, Seq<char>>,
    k: int,
) -> (i: int)
    requires
        0 <= k < skipped_entries(entries, base_env).len(),
    ensures
        0 <= i < entries.len(),
        entries[i].0 == skipped_entries(entries, base_env)[k].0,
        server_entry(entries[i].1, base_env) == Err::<StdioServerModel, _>(
            skipped_entries(entries, base_env)[k].1,
        ),
    decreases entries.len(),
{
    let rest = skipped_entries(entries.drop_last(), base_env);
    if k < rest.len() {
        law_reports_have_entries(entries.drop_last(), base_env, k)
    } else {
        entries.len() - 1
    }
}

/// The reports of a list have the name and the reason of each, in order.
pub proof fn law_skipped_models(skipped: Seq<(String, SkippedEntry)>)
    ensures
        skipped_models(skipped).len() == skipped.len(),
        forall|i: int|
            0 <= i < skipped.len() ==> (#[trigger] skipped_models(skipped)[i]).0 == skipped[i].0@
                && skipped_models(skipped)[i].1 == skipped[i].1,
{
}

/// A file that could not be read, or that is not JSON, fails as such, and keeps its
/// error; one without a `"mcpServers"` object fails as such; every other file
/// loads.
pub proof fn law_files_load_or_fail(
    path: PathBuf,
    contents: Result<String, std::io::Error>,
    base_env: Map<Seq<char>, Seq<char>>,
    loaded: Result<NamedServers, ConfigError>,
)
    requires
        file_outcome(path, contents, base_env, loaded),
    ensures
        contents matches Err(error) ==> loaded == Err::<NamedServers, _>(
            ConfigError::Io { path, source: error },
        ),
        contents matches Ok(text) ==> (json_document(text@) matches Err(error) ==> loaded == Err::<
            NamedServers,
            _,
        >(ConfigError::Json { path, source: error })),
        contents matches Ok(text) ==> (json_document(text@) matches Ok(document) ==> {
            let servers = document matches JsonModel::Object(members) && (member(
                members,
                "mcpServers"@,
            ) matches Some(JsonModel::Object(_)));
            &&& servers <==> loaded is Ok
            &&& !servers ==> loaded == Err::<NamedServers, _>(
                ConfigError::MissingMcpServers { path },
            )
        }),
{
}

/// Of a file that loads, every entry that defines a server is that server, every
/// other is reported with its reason, and there is no other server.
pub proof fn law_loaded_servers_are_the_sound_entries(
    path: PathBuf,
    text: String,
    document: JsonModel,
    members: Seq<(Seq<char>, JsonModel)>,
    entries: Seq<(Seq<char>, JsonModel)>,
    base_env: Map<Seq<char>, Seq<char>>,
    named: NamedServers,
)
    requires
        file_outcome(path, Ok(text), base_env, Ok(named)),
        json_document(text@) == Ok::<_, serde_json::Error>(document),
        document == JsonModel::Object(members),
        member(members, "mcpServers"@) == Some(JsonModel::Object(entries)),
    ensures
        forall|i: int|
            0 <= i < entries.len() ==> match server_entry((#[trigger] entries[i]).1, base_env) {
                Ok(config) => named.configs@.contains_key(entries[i].0)
                    && named.configs@[entries[i].0] == config,
                Err(reason) => !named.configs@.contains_key(entries[i].0) && exists|k: int|
                    0 <= k < named.skipped@.len() && (#[trigger] named.skipped@[k]).0@
                        == entries[i].0 && named.skipped@[k].1 == reason,
            },
        forall|name: Seq<char>| #[trigger]
            named.configs@.contains_key(name) ==> exists|i: int|
                0 <= i < entries.len() && (#[trigger] entries[i]).0 == name && server_entry(
                    entries[i].1,
                    base_env,
                ) is Ok,
        forall|k: int|
            0 <= k < named.skipped@.len() ==> exists|i: int|
                0 <= i < entries.len() && (#[trigger] entries[i]).0 == (
                #[trigger] named.skipped@[k]).0@ && server_entry(entries[i].1, base_env) == Err::<
                    StdioServerModel,
                    _,
                >(named.skipped@[k].1),
{
    assert forall|k: int| 0 <= k < named.skipped@.len() implies exists|i: int|
        0 <= i < entries.len() && (#[trigger] entries[i]).0 == (#[trigger] named.skipped@[k]).0@
            && server_entry(entries[i].1, base_env) == Err::<StdioServerModel, _>(
            named.skipped@[k].1,
        ) by {
        let i = law_reports_have_entries(entries, base_env, k);
        assert(entries[i].0 == skipped_models(named.skipped@)[k].0);
    }
    assert forall|i: int| 0 <= i < entries.len() implies match server_entry(
        (#[trigger] entries[i]).1,
        base_env,
    ) {
        Ok(config) => named.configs@.contains_key(entries[i].0) && named.configs@[entries[i].0]
            == config,
        Err(reason) => !named.configs@.contains_key(entries[i].0) && exists|k: int|
            0 <= k < named.skipped@.len() && (#[trigger] named.skipped@[k]).0@ == entries[i].0
                && named.skipped@[k].1 == reason,
    } by {
        law_every_entry_is_accounted_for(document, base_env, i);
        if let Err(reason) = server_entry(entries[i].1, base_env) {
            let skipped = skipped_models(named.skipped@);
            let k = choose|k: int| 0 <= k < skipped.len() && skipped[k] == (entries[i].0, reason);
            assert(named.skipped@[k].0@ == entries[i].0);
        }
    }
    assert forall|name: Seq<char>| #[trigger] named.configs@.contains_key(name) implies exists|
        i: int,
    |
        0 <= i < entries.len() && (#[trigger] entries[i]).0 == name && server_entry(
            entries[i].1,
            base_env,
        ) is Ok by {
        let i = law_servers_have_entries(entries, base_env, name);
        assert(entries[i].0 == name);
    }
}

/// What an error says names the file and ends with what the error behind it says.
pub proof fn law_errors_name_the_file(error: ConfigError, source: Seq<char>)
    ensures
        ({
            let text = config_error_text(error, source);
            match error {
                ConfigError::Io { path, source: _ } => {
                    let shown = path_text(path);
                    &&& stands_at(text, "failed to read config file "@, 0)
                    &&& stands_at(text, shown, 27)
                    &&& stands_at(text, ": "@, 27 + shown.len() as int)
                    &&& stands_at(text, source, 29 + shown.len() as int)
                    &&& text.len() == 29 + shown.len() + source.len()
                },
                ConfigError::Json { path, source: _ } => {
                    let shown = path_text(path);
                    &&& stands_at(text, "invalid JSON in config file "@, 0)
                    &&& stands_at(text, shown, 28)
                    &&& stands_at(text, ": "@, 28 + shown.len() as int)
                    &&& stands_at(text, source, 30 + shown.len() as int)
                    &&& text.len() == 30 + shown.len() + source.len()
                },
                ConfigError::MissingMcpServers { path } => {
                    let shown = path_text(path);
                    let end = " is missing a top-level \"mcpServers\" object"@;
                    &&& stands_at(text, "config file "@, 0)
                    &&& stands_at(text, shown, 12)
                    &&& stands_at(text, end, 12 + shown.len() as int)
                    &&& text.len() == 12 + shown.len() + end.len()
                },
            }
        }),
{
    reveal_strlit("failed to read config file ");
    reveal_strlit("invalid JSON in config file ");
    reveal_strlit("config file ");
    reveal_strlit(": ");
}

} // verus!
