//! Declarative agents: the YAML agent configuration with its defaults, tool and
//! plugin registration by name, building an agent from a configuration, and
//! discovery of agent files.
use vstd::prelude::*;
use vstd::utf8::encode_utf8;
use crate::json::Json;
use crate::paths::{bytes_lt, join_path, lemma_bytes_lt_order, name_lt, spec_extension, spec_join, extension};
use crate::text::{owned, concat2, str_eq};

verus! {

broadcast use vstd::seq_lib::group_seq_properties;

/// Default maximum reasoning iterations.
pub fn default_max_iterations() -> (r: u32)
    ensures
        r == 10,
{
    10
}

/// Default maximum number of history messages kept.
pub fn default_max_history() -> (r: usize)
    ensures
        r == 20,
{
    20
}

/// Default working directory.
pub fn default_working_dir() -> (r: String)
    ensures
        r@ == "."@,
{
    owned(".")
}

/// A YAML agent definition.
#[derive(Debug)]
pub struct YamlAgentConfig {
    /// Agent identifier.
    pub name: String,
    /// LLM provider id to use.
    pub llm: String,
    /// Maximum reasoning iterations (10 when not given).
    pub max_iterations: u32,
    /// Maximum history messages to keep (20 when not given).
    pub max_history_messages: usize,
    /// Inline system prompt.
    pub system: Option<String>,
    /// Files whose contents are appended to the system prompt.
    pub system_files: Option<Vec<String>>,
    /// Tool names to register.
    pub tools: Vec<String>,
    /// Per-tool parameters, keyed by tool name.
    pub tool_configs: Option<Json>,
    /// Plugin names to register.
    pub plugins: Option<Vec<String>>,
    /// Working directory ("." when not given).
    pub working_dir: String,
}

/// Errors of YAML agent operations.
#[derive(Debug)]
pub enum YamlAgentError {
    /// The YAML text could not be read as an agent definition.
    YamlError(String),
    /// A file or directory could not be read.
    Io(String),
    /// The configured LLM provider is not registered.
    LlmNotFound(String),
    /// A tool name that no tool answers to.
    UnknownTool(String),
    /// A plugin name that no plugin answers to.
    UnknownPlugin(String),
}

/// The message an error displays.
pub open spec fn error_message(e: YamlAgentError) -> Seq<char> {
    match e {
        YamlAgentError::YamlError(m) => "YAML parse error: "@ + m@,
        YamlAgentError::Io(m) => "IO error: "@ + m@,
        YamlAgentError::LlmNotFound(id) => "LLM provider not found: "@ + id@,
        YamlAgentError::UnknownTool(n) => "Unknown tool: "@ + n@,
        YamlAgentError::UnknownPlugin(n) => "Unknown plugin: "@ + n@,
    }
}

impl YamlAgentError {
    /// The message this error displays.
    pub fn message(&self) -> (s: String)
        ensures
            s@ == error_message(*self),
    {
        match self {
            YamlAgentError::YamlError(m) => concat2("YAML parse error: ", m.as_str()),
            YamlAgentError::Io(m) => concat2("IO error: ", m.as_str()),
            YamlAgentError::LlmNotFound(id) => concat2("LLM provider not found: ", id.as_str()),
            YamlAgentError::UnknownTool(n) => concat2("Unknown tool: ", n.as_str()),
            YamlAgentError::UnknownPlugin(n) => concat2("Unknown plugin: ", n.as_str()),
        }
    }
}

/// The built-in tools an agent definition can name.
#[derive(Clone, Copy, Debug, PartialEq, Eq, Structural)]
pub enum ToolKind {
    Read,
    Write,
    Edit,
    Glob,
    Grep,
    Bash,
    WebSearch,
    WebFetch,
}

/// The tool a name stands for.
pub open spec fn tool_kind(name: Seq<char>) -> Option<ToolKind> {
    if name == "read"@ {
        Some(ToolKind::Read)
    } else if name == "write"@ {
        Some(ToolKind::Write)
    } else if name == "edit"@ {
        Some(ToolKind::Edit)
    } else if name == "glob"@ {
        Some(ToolKind::Glob)
    } else if name == "grep"@ {
        Some(ToolKind::Grep)
    } else if name == "bash"@ {
        Some(ToolKind::Bash)
    } else if name == "web_search"@ {
        Some(ToolKind::WebSearch)
    } else if name == "web_fetch"@ {
        Some(ToolKind::WebFetch)
    } else {
        None
    }
}

fn tool_kind_of(name: &str) -> (r: Option<ToolKind>)
    ensures
        r == tool_kind(name@),
{
    if str_eq(name, "read") {
        Some(ToolKind::Read)
    } else if str_eq(name, "write") {
        Some(ToolKind::Write)
    } else if str_eq(name, "edit") {
        Some(ToolKind::Edit)
    } else if str_eq(name, "glob") {
        Some(ToolKind::Glob)
    } else if str_eq(name, "grep") {
        Some(ToolKind::Grep)
    } else if str_eq(name, "bash") {
        Some(ToolKind::Bash)
    } else if str_eq(name, "web_search") {
        Some(ToolKind::WebSearch)
    } else if str_eq(name, "web_fetch") {
        Some(ToolKind::WebFetch)
    } else {
        None
    }
}

/// The tools an agent is given, in registration order.
#[derive(Debug)]
pub struct ToolRegistry {
    pub tools: Vec<ToolKind>,
}

impl ToolRegistry {
    /// An empty registry.
    pub fn new() -> (r: Self)
        ensures
            r.tools@.len() == 0,
    {
        ToolRegistry { tools: Vec::new() }
    }
}

/// Whether the providers of the web tools could be built from their configuration
/// (the search provider from the API key, the fetch provider from its settings).
#[derive(Clone, Copy, Debug, PartialEq, Eq, Structural)]
pub struct ProviderSetup {
    pub web_search: bool,
    pub web_fetch: bool,
}

/// What registering the tool `name` adds: its tool, except that web search is
/// skipped without an API key or when its provider could not be built, and web
/// fetch is skipped when its provider could not be built; `None` for an unknown
/// name.
pub open spec fn tool_added(name: Seq<char>, web_search_key: Seq<char>, providers: ProviderSetup) -> Option<Seq<ToolKind>> {
    match tool_kind(name) {
        None => None,
        Some(ToolKind::WebSearch) => if web_search_key.len() == 0 || !providers.web_search {
            Some(Seq::empty())
        } else {
            Some(seq![ToolKind::WebSearch])
        },
        Some(ToolKind::WebFetch) => if !providers.web_fetch {
            Some(Seq::empty())
        } else {
            Some(seq![ToolKind::WebFetch])
        },
        Some(k) => Some(seq![k]),
    }
}

/// Register a tool by name: read, write, edit, glob, grep, bash, web_search (only
/// with a non-empty API key, `web_search_key`, from the tool configuration, and a
/// provider built from it) and web_fetch (only when its provider was built). A
/// skipped web tool is no error. An unknown name is an error and registers nothing.
pub fn register_tool_by_name(registry: &mut ToolRegistry, name: &str, web_search_key: &str, providers: ProviderSetup) -> (r: Result<(), YamlAgentError>)
    ensures
        match tool_added(name@, web_search_key@, providers) {
            Some(added) => r is Ok && final(registry).tools@ == old(registry).tools@ + added,
            None => (r matches Err(YamlAgentError::UnknownTool(n)) && n@ == name@)
                && final(registry).tools@ == old(registry).tools@,
        },
{
    match tool_kind_of(name) {
        None => Err(YamlAgentError::UnknownTool(owned(name))),
        Some(ToolKind::WebSearch) => {
            if web_search_key.unicode_len() == 0 || !providers.web_search {
                assert(old(registry).tools@ + Seq::<ToolKind>::empty() =~= old(registry).tools@);
                Ok(())
            } else {
                registry.tools.push(ToolKind::WebSearch);
                assert(registry.tools@ =~= old(registry).tools@ + seq![ToolKind::WebSearch]);
                Ok(())
            }
        },
        Some(ToolKind::WebFetch) => {
            if !providers.web_fetch {
                assert(old(registry).tools@ + Seq::<ToolKind>::empty() =~= old(registry).tools@);
                Ok(())
            } else {
                registry.tools.push(ToolKind::WebFetch);
                assert(registry.tools@ =~= old(registry).tools@ + seq![ToolKind::WebFetch]);
                Ok(())
            }
        },
        Some(k) => {
            registry.tools.push(k);
            assert(registry.tools@ =~= old(registry).tools@ + seq![k]);
            Ok(())
        },
    }
}

/// The first name in `names` that no tool answers to.
pub open spec fn first_unknown_tool(names: Seq<String>) -> Option<Seq<char>>
    decreases names.len(),
{
    if names.len() == 0 {
        None
    } else if tool_kind(names[0]@) is None {
        Some(names[0]@)
    } else {
        first_unknown_tool(names.drop_first())
    }
}

/// What registering `names` in order adds, up to the first unknown name.
pub open spec fn tools_added(names: Seq<String>, web_search_key: Seq<char>, providers: ProviderSetup) -> Seq<ToolKind>
    decreases names.len(),
{
    if names.len() == 0 {
        Seq::empty()
    } else {
        match tool_added(names[0]@, web_search_key, providers) {
            Some(added) => added + tools_added(names.drop_first(), web_search_key, providers),
            None => Seq::empty(),
        }
    }
}

/// Register several tools by name, in order, stopping at the first unknown name;
/// the tools before it stay registered.
pub fn register_tools_by_name(
    registry: &mut ToolRegistry,
    names: &[String],
    web_search_key: &str,
    providers: ProviderSetup,
) -> (r: Result<(), YamlAgentError>)
    ensures
        final(registry).tools@ == old(registry).tools@ + tools_added(names@, web_search_key@, providers),
        match first_unknown_tool(names@) {
            Some(n) => (r matches Err(YamlAgentError::UnknownTool(m)) && m@ == n),
            None => r is Ok,
        },
{
    let mut i: usize = 0;
    while i < names.len()
        invariant
            i <= names@.len(),
            first_unknown_tool(names@.take(i as int)) is None,
            first_unknown_tool(names@) == first_unknown_tool(names@.skip(i as int)),
            registry.tools@ + tools_added(names@.skip(i as int), web_search_key@, providers)
                == old(registry).tools@ + tools_added(names@, web_search_key@, providers),
        decreases names.len() - i,
    {
        let ghost rest = names@.skip(i as int);
        assert(rest.drop_first() =~= names@.skip(i + 1));
        assert(rest[0] == names@[i as int]);
        let ghost before = registry.tools@;
        match register_tool_by_name(registry, names[i].as_str(), web_search_key, providers) {
            Ok(()) => {
                assert(first_unknown_tool(names@.take(i + 1)) is None) by {
                    lemma_first_unknown_prefix(names@, i as int);
                }
                proof {
                    let added = tool_added(names@[i as int]@, web_search_key@, providers).unwrap();
                    assert(registry.tools@ + tools_added(names@.skip(i + 1), web_search_key@, providers)
                        =~= before + (added + tools_added(names@.skip(i + 1), web_search_key@, providers)));
                }
            },
            Err(e) => {
                proof {
                    assert(tools_added(rest, web_search_key@, providers) =~= Seq::empty());
                    assert(registry.tools@ =~= before + Seq::<ToolKind>::empty());
                }
                return Err(e);
            },
        }
        i = i + 1;
    }
    proof {
        assert(names@.skip(names@.len() as int) =~= Seq::<String>::empty());
        assert(registry.tools@ + Seq::<ToolKind>::empty() =~= registry.tools@);
    }
    Ok(())
}

proof fn lemma_first_unknown_prefix(names: Seq<String>, i: int)
    requires
        0 <= i < names.len(),
        first_unknown_tool(names.take(i)) is None,
        tool_kind(names[i]@) is Some,
    ensures
        first_unknown_tool(names.take(i + 1)) is None,
    decreases i,
{
    if i > 0 {
        assert(names.take(i).drop_first() =~= names.drop_first().take(i - 1));
        assert(names.take(i + 1).drop_first() =~= names.drop_first().take(i));
        lemma_first_unknown_prefix(names.drop_first(), i - 1);
    } else {
        assert(names.take(1).drop_first() =~= Seq::<String>::empty());
    }
}

/// The plugins an agent definition can name.
#[derive(Clone, Copy, Debug, PartialEq, Eq, Structural)]
pub enum PluginKind {
    /// Writes a JSONL log under the working directory.
    Logger,
}

/// The plugins an agent is given, each with the working directory it was set up
/// for, in registration order.
#[derive(Debug)]
pub struct PluginRegistry {
    pub plugins: Vec<(PluginKind, String)>,
}

impl PluginRegistry {
    /// An empty registry.
    pub fn new() -> (r: Self)
        ensures
            r.plugins@.len() == 0,
    {
        PluginRegistry { plugins: Vec::new() }
    }
}

/// Plugins as values.
pub open spec fn plugin_views(ps: Seq<(PluginKind, String)>) -> Seq<(PluginKind, Seq<char>)> {
    ps.map_values(|p: (PluginKind, String)| (p.0, p.1@))
}

/// Register a plugin by name: `logger`, writing under `working_dir`. An unknown
/// name is an error and registers nothing.
pub fn register_plugin_by_name(registry: &mut PluginRegistry, name: &str, working_dir: &str) -> (r: Result<(), YamlAgentError>)
    ensures
        name@ == "logger"@ ==> r is Ok && plugin_views(final(registry).plugins@)
            == plugin_views(old(registry).plugins@).push((PluginKind::Logger, working_dir@)),
        name@ != "logger"@ ==> (r matches Err(YamlAgentError::UnknownPlugin(n)) && n@ == name@)
            && final(registry).plugins@ == old(registry).plugins@,
{
    if str_eq(name, "logger") {
        registry.plugins.push((PluginKind::Logger, owned(working_dir)));
        assert(plugin_views(registry.plugins@) =~= plugin_views(old(registry).plugins@).push((PluginKind::Logger, working_dir@)));
        Ok(())
    } else {
        Err(YamlAgentError::UnknownPlugin(owned(name)))
    }
}

/// The first name in `names` that is not a plugin.
pub open spec fn first_unknown_plugin(names: Seq<String>) -> Option<Seq<char>>
    decreases names.len(),
{
    if names.len() == 0 {
        None
    } else if names[0]@ != "logger"@ {
        Some(names[0]@)
    } else {
        first_unknown_plugin(names.drop_first())
    }
}

/// How many names lead `names` before the first that is not a plugin.
pub open spec fn known_plugin_prefix(names: Seq<String>) -> nat
    decreases names.len(),
{
    if names.len() == 0 || names[0]@ != "logger"@ {
        0
    } else {
        1 + known_plugin_prefix(names.drop_first())
    }
}

/// Register several plugins by name, in order, stopping at the first unknown name;
/// the plugins before it stay registered.
pub fn register_plugins_by_name(registry: &mut PluginRegistry, names: &[String], working_dir: &str) -> (r: Result<(), YamlAgentError>)
    ensures
        plugin_views(final(registry).plugins@) == plugin_views(old(registry).plugins@)
            + Seq::new(known_plugin_prefix(names@), |i: int| (PluginKind::Logger, working_dir@)),
        match first_unknown_plugin(names@) {
            Some(n) => (r matches Err(YamlAgentError::UnknownPlugin(m)) && m@ == n),
            None => r is Ok,
        },
{
    let mut i: usize = 0;
    while i < names.len()
        invariant
            i <= names@.len(),
            known_plugin_prefix(names@) == i + known_plugin_prefix(names@.skip(i as int)),
            first_unknown_plugin(names@) == first_unknown_plugin(names@.skip(i as int)),
            plugin_views(registry.plugins@) == plugin_views(old(registry).plugins@)
                + Seq::new(i as nat, |k: int| (PluginKind::Logger, working_dir@)),
        decreases names.len() - i,
    {
        let ghost rest = names@.skip(i as int);
        assert(rest.drop_first() =~= names@.skip(i + 1));
        assert(rest[0] == names@[i as int]);
        let ghost before = plugin_views(registry.plugins@);
        match register_plugin_by_name(registry, names[i].as_str(), working_dir) {
            Ok(()) => {
                assert(plugin_views(registry.plugins@) =~= plugin_views(old(registry).plugins@)
                    + Seq::new((i + 1) as nat, |k: int| (PluginKind::Logger, working_dir@)));
            },
            Err(e) => {
                assert(Seq::new(known_plugin_prefix(names@), |k: int| (PluginKind::Logger, working_dir@))
                    =~= Seq::new(i as nat, |k: int| (PluginKind::Logger, working_dir@)));
                return Err(e);
            },
        }
        i = i + 1;
    }
    assert(names@.skip(names@.len() as int).len() == 0);
    Ok(())
}

/// What building an agent yields: its settings and the tools and plugins it gets.
#[derive(Debug)]
pub struct AgentPlan {
    pub name: String,
    pub llm: String,
    pub max_iterations: u32,
    pub max_history_messages: usize,
    pub system: Option<String>,
    pub system_files: Vec<String>,
    pub tools: ToolRegistry,
    pub plugins: PluginRegistry,
    pub working_dir: String,
}

/// Builds an agent from a YAML agent definition.
#[derive(Debug)]
pub struct YamlAgentBuilder {
    /// The definition.
    pub config: YamlAgentConfig,
    /// Ids of the registered LLM providers, once a registry is given.
    pub llm_providers: Option<Vec<String>>,
}

/// Whether `id` is one of `ids`.
pub open spec fn has_id(ids: Seq<String>, id: Seq<char>) -> bool {
    exists|i: int| 0 <= i < ids.len() && #[trigger] ids[i]@ == id
}

/// Whether `id` names a registered provider.
pub open spec fn provider_known(providers: Option<Vec<String>>, id: Seq<char>) -> bool {
    match providers {
        Some(ids) => has_id(ids@, id),
        None => false,
    }
}

/// The plugin names of a definition (none when not given).
pub open spec fn plugin_names(c: YamlAgentConfig) -> Seq<String> {
    match c.plugins {
        Some(p) => p@,
        None => Seq::empty(),
    }
}

fn contains_id(ids: &Vec<String>, id: &str) -> (r: bool)
    ensures
        r == has_id(ids@, id@),
{
    let mut i: usize = 0;
    while i < ids.len()
        invariant
            i <= ids@.len(),
            forall|j: int| 0 <= j < i ==> ids@[j]@ != id@,
        decreases ids.len() - i,
    {
        if str_eq(ids[i].as_str(), id) {
            return true;
        }
        i = i + 1;
    }
    false
}

impl YamlAgentBuilder {
    /// A builder for a definition, with no LLM registry yet.
    pub fn from_config(config: YamlAgentConfig) -> (b: Self)
        ensures
            b.config == config,
            b.llm_providers is None,
    {
        YamlAgentBuilder { config, llm_providers: None }
    }

    /// A builder for the definition read from a file: `parsed` is what reading and
    /// parsing the file gave.
    pub fn from_file(parsed: Result<YamlAgentConfig, YamlAgentError>) -> (r: Result<Self, YamlAgentError>)
        ensures
            match parsed {
                Ok(c) => (r matches Ok(b) && b.config == c && b.llm_providers is None),
                Err(e) => r == Err::<Self, YamlAgentError>(e),
            },
    {
        match parsed {
            Ok(c) => Ok(Self::from_config(c)),
            Err(e) => Err(e),
        }
    }

    /// The definition.
    pub fn config(&self) -> (c: &YamlAgentConfig)
        ensures
            *c == self.config,
    {
        &self.config
    }

    /// Give the builder the ids of the registered LLM providers.
    pub fn with_llm_registry(self, providers: Vec<String>) -> (b: Self)
        ensures
            b.config == self.config,
            b.llm_providers == Some(providers),
    {
        YamlAgentBuilder { config: self.config, llm_providers: Some(providers) }
    }

    /// Build the agent: the LLM provider must be registered, then the tools and
    /// the plugins are registered by name, in order; the first failure is the error.
    /// Web search needs an API key from the tool configuration and is skipped here;
    /// web fetch is registered when `providers` says its provider could be built.
    pub fn build(self, providers: ProviderSetup) -> (r: Result<AgentPlan, YamlAgentError>)
        ensures
            !provider_known(self.llm_providers, self.config.llm@) ==> (r matches Err(YamlAgentError::LlmNotFound(id))
                && id@ == self.config.llm@),
            provider_known(self.llm_providers, self.config.llm@) ==> match first_unknown_tool(self.config.tools@) {
                Some(n) => (r matches Err(YamlAgentError::UnknownTool(m)) && m@ == n),
                None => match first_unknown_plugin(plugin_names(self.config)) {
                    Some(n) => (r matches Err(YamlAgentError::UnknownPlugin(m)) && m@ == n),
                    None => (r matches Ok(plan) && {
                        &&& plan.name == self.config.name
                        &&& plan.llm == self.config.llm
                        &&& plan.max_iterations == self.config.max_iterations
                        &&& plan.max_history_messages == self.config.max_history_messages
                        &&& plan.system == self.config.system
                        &&& plan.system_files@ == (match self.config.system_files {
                            Some(f) => f@,
                            None => Seq::empty(),
                        })
                        &&& plan.tools.tools@ == tools_added(self.config.tools@, Seq::empty(), providers)
                        &&& plugin_views(plan.plugins.plugins@) == Seq::new(
                            plugin_names(self.config).len(),
                            |i: int| (PluginKind::Logger, self.config.working_dir@),
                        )
                        &&& plan.working_dir == self.config.working_dir
                    }),
                },
            },
    {
        let YamlAgentBuilder { config, llm_providers } = self;
        let known = match &llm_providers {
            Some(ids) => contains_id(ids, config.llm.as_str()),
            None => false,
        };
        if !known {
            return Err(YamlAgentError::LlmNotFound(config.llm));
        }
        let mut tools = ToolRegistry::new();
        match register_tools_by_name(&mut tools, config.tools.as_slice(), "", providers) {
            Ok(()) => {},
            Err(e) => {
                return Err(e);
            },
        }
        proof {
            reveal_strlit("");
            assert(""@ =~= Seq::<char>::empty());
            assert(Seq::<ToolKind>::empty() + tools_added(config.tools@, ""@, providers) =~= tools_added(config.tools@, ""@, providers));
            assert(tools.tools@ =~= tools_added(config.tools@, Seq::empty(), providers));
        }
        let mut plugins = PluginRegistry::new();
        let empty: Vec<String> = Vec::new();
        let names: &Vec<String> = match &config.plugins {
            Some(p) => p,
            None => &empty,
        };
        match register_plugins_by_name(&mut plugins, names.as_slice(), config.working_dir.as_str()) {
            Ok(()) => {},
            Err(e) => {
                return Err(e);
            },
        }
        proof {
            lemma_known_plugin_prefix(names@);
            assert(plugin_views(plugins.plugins@) =~= Seq::new(
                plugin_names(config).len(),
                |i: int| (PluginKind::Logger, config.working_dir@),
            ));
        }
        let system_files = match config.system_files {
            Some(f) => f,
            None => Vec::new(),
        };
        Ok(AgentPlan {
            name: config.name,
            llm: config.llm,
            max_iterations: config.max_iterations,
            max_history_messages: config.max_history_messages,
            system: config.system,
            system_files,
            tools,
            plugins,
            working_dir: config.working_dir,
        })
    }
}

proof fn lemma_known_plugin_prefix(names: Seq<String>)
    ensures
        known_plugin_prefix(names) <= names.len(),
        first_unknown_plugin(names) is None ==> known_plugin_prefix(names) == names.len(),
    decreases names.len(),
{
    if names.len() > 0 {
        lemma_known_plugin_prefix(names.drop_first());
    }
}

/// The directory agent definitions are discovered in: `{working_dir}/.agent/agents`.
pub open spec fn spec_agents_dir(working_dir: Seq<char>) -> Seq<char> {
    spec_join(spec_join(working_dir, ".agent"@), "agents"@)
}

/// The directory agent definitions are discovered in.
pub fn agents_dir(working_dir: &str) -> (r: String)
    ensures
        r@ == spec_agents_dir(working_dir@),
{
    let d = join_path(working_dir, ".agent");
    join_path(d.as_str(), "agents")
}

/// An entry of a directory listing.
#[derive(Clone, Debug)]
pub struct DirEntryInfo {
    /// The entry's path.
    pub path: String,
    /// The entry's file name.
    pub file_name: String,
    /// Whether it is a regular file.
    pub is_file: bool,
}

/// What listing a directory gave.
#[derive(Debug)]
pub enum DirListing {
    /// The directory does not exist.
    Missing,
    /// The directory could not be read.
    Failed(String),
    /// The entries that could be read.
    Entries(Vec<DirEntryInfo>),
}

/// A file name and path.
pub type NamedPath = (Seq<char>, Seq<char>);

/// Whether a listed entry is an agent file: a regular file whose extension is
/// `yaml`.
pub open spec fn is_agent_file(e: DirEntryInfo) -> bool {
    e.is_file && spec_extension(e.file_name@) == Some("yaml"@)
}

/// The agent files of a listing, in listing order: regular files whose extension is
/// `yaml`, by name and path.
pub open spec fn agent_files(es: Seq<DirEntryInfo>) -> Seq<NamedPath>
    decreases es.len(),
{
    if es.len() == 0 {
        Seq::empty()
    } else {
        let prev = agent_files(es.drop_last());
        let e = es.last();
        if is_agent_file(e) {
            prev.push((e.file_name@, e.path@))
        } else {
            prev
        }
    }
}

/// Whether name `a` sorts before name `b` (by UTF-8 bytes).
pub open spec fn name_before(a: Seq<char>, b: Seq<char>) -> bool {
    bytes_lt(encode_utf8(a), encode_utf8(b))
}

/// Where `name` goes in `s`: before the first entry whose name sorts after it.
pub open spec fn insert_pos(s: Seq<NamedPath>, name: Seq<char>) -> int
    decreases s.len(),
{
    if s.len() == 0 {
        0
    } else if name_before(name, s[0].0) {
        0
    } else {
        1 + insert_pos(s.drop_first(), name)
    }
}

/// Entries ordered by name, entries of equal names in their original order.
pub open spec fn sort_by_name(s: Seq<NamedPath>) -> Seq<NamedPath>
    decreases s.len(),
{
    if s.len() == 0 {
        Seq::empty()
    } else {
        let sorted = sort_by_name(s.drop_last());
        sorted.insert(insert_pos(sorted, s.last().0), s.last())
    }
}

/// The paths of the agent files of a listing, ordered by file name.
pub open spec fn discovered_paths(es: Seq<DirEntryInfo>) -> Seq<Seq<char>> {
    sort_by_name(agent_files(es)).map_values(|p: NamedPath| p.1)
}

/// Whether `r` is what discovering agents in a directory with listing `l` gives.
pub open spec fn discovered(l: DirListing, r: Result<Vec<String>, YamlAgentError>) -> bool {
    match l {
        DirListing::Missing => (r matches Ok(v) && v@.len() == 0),
        DirListing::Failed(m) => r == Err::<Vec<String>, YamlAgentError>(YamlAgentError::Io(m)),
        DirListing::Entries(es) => (r matches Ok(v) && v@.map_values(|p: String| p@) == discovered_paths(es@)),
    }
}

proof fn lemma_insert_pos(s: Seq<NamedPath>, name: Seq<char>)
    ensures
        0 <= insert_pos(s, name) <= s.len(),
        forall|k: int| 0 <= k < insert_pos(s, name) ==> !name_before(name, #[trigger] s[k].0),
        insert_pos(s, name) < s.len() ==> name_before(name, s[insert_pos(s, name)].0),
    decreases s.len(),
{
    if s.len() > 0 && !name_before(name, s[0].0) {
        lemma_insert_pos(s.drop_first(), name);
        assert forall|k: int| 0 <= k < insert_pos(s, name) implies !name_before(name, #[trigger] s[k].0) by {
            if k > 0 {
                assert(s.drop_first()[k - 1] == s[k]);
            }
        }
    }
}

/// Find where `name` goes in the sorted `v`.
fn find_insert_pos(v: &Vec<(String, String)>, name: &str) -> (r: usize)
    ensures
        r as int == insert_pos(v@.map_values(|p: (String, String)| (p.0@, p.1@)), name@),
{
    let ghost s = v@.map_values(|p: (String, String)| (p.0@, p.1@));
    let mut j: usize = 0;
    while j < v.len()
        invariant
            j <= v@.len(),
            s == v@.map_values(|p: (String, String)| (p.0@, p.1@)),
            insert_pos(s, name@) == j + insert_pos(s.skip(j as int), name@),
        decreases v.len() - j,
    {
        let ghost rest = s.skip(j as int);
        assert(rest[0] == s[j as int]);
        assert(rest.drop_first() =~= s.skip(j + 1));
        if name_lt(name, v[j].0.as_str()) {
            return j;
        }
        j = j + 1;
    }
    j
}

/// Discover the agent files of a directory from its listing: a missing directory
/// has none, a directory that could not be read is an I/O error, and otherwise the
/// regular `.yaml` files are returned ordered by file name.
pub fn discover_agents(listing: DirListing) -> (r: Result<Vec<String>, YamlAgentError>)
    ensures
        discovered(listing, r),
        names_each_path_once(listing) ==> agents_found(listing, r),
{
    let ghost l = listing;
    let r = list_agent_files(listing);
    proof {
        if names_each_path_once(l) {
            lemma_discovered_agents(l, r);
        }
    }
    r
}

fn list_agent_files(listing: DirListing) -> (r: Result<Vec<String>, YamlAgentError>)
    ensures
        discovered(listing, r),
{
    let ghost l = listing;
    let entries = match listing {
        DirListing::Missing => {
            return Ok(Vec::new());
        },
        DirListing::Failed(m) => {
            return Err(YamlAgentError::Io(m));
        },
        DirListing::Entries(es) => es,
    };
    let mut sorted: Vec<(String, String)> = Vec::new();
    let mut i: usize = 0;
    while i < entries.len()
        invariant
            i <= entries@.len(),
            sorted@.map_values(|p: (String, String)| (p.0@, p.1@)) == sort_by_name(agent_files(entries@.take(i as int))),
        decreases entries.len() - i,
    {
        let ghost pre = entries@.take(i as int);
        assert(entries@.take(i + 1).drop_last() =~= pre);
        let e = &entries[i];
        let is_yaml = match extension(e.file_name.as_str()) {
            Some(ext) => {
                proof {
                    reveal_strlit("yaml");
                }
                str_eq(ext.as_str(), "yaml")
            },
            None => false,
        };
        assert(is_yaml == (spec_extension(e.file_name@) == Some("yaml"@)));
        assert(entries@.take(i + 1).last() == entries@[i as int]);
        if e.is_file && is_yaml {
            let ghost before = sorted@.map_values(|p: (String, String)| (p.0@, p.1@));
            let ghost x: NamedPath = (e.file_name@, e.path@);
            assert(agent_files(entries@.take(i + 1)) == agent_files(pre).push(x));
            assert(agent_files(pre).push(x).drop_last() =~= agent_files(pre));
            assert(agent_files(pre).push(x).last() == x);
            let pos = find_insert_pos(&sorted, e.file_name.as_str());
            proof {
                lemma_insert_pos(before, e.file_name@);
            }
            sorted.insert(pos, (owned(e.file_name.as_str()), owned(e.path.as_str())));
            assert(sorted@.map_values(|p: (String, String)| (p.0@, p.1@))
                =~= before.insert(pos as int, (e.file_name@, e.path@)));
        } else {
            assert(agent_files(entries@.take(i + 1)) == agent_files(pre));
        }
        i = i + 1;
    }
    assert(entries@.take(entries@.len() as int) =~= entries@);
    let mut paths: Vec<String> = Vec::new();
    let mut k: usize = 0;
    while k < sorted.len()
        invariant
            k <= sorted@.len(),
            paths@.len() == k,
            forall|m: int| 0 <= m < k ==> #[trigger] paths@[m]@ == sorted@[m].1@,
        decreases sorted.len() - k,
    {
        paths.push(owned(sorted[k].1.as_str()));
        k = k + 1;
    }
    assert(paths@.map_values(|p: String| p@) =~= discovered_paths(entries@));
    Ok(paths)
}

/// Discover the agent files of `{working_dir}/.agent/agents`; `list_dir` lists a
/// directory.
pub fn discover_from_workdir<F: Fn(&str) -> DirListing>(working_dir: &str, list_dir: F) -> (r: Result<Vec<String>, YamlAgentError>)
    requires
        forall|d: &str| list_dir.requires((d,)),
    ensures
        exists|l: DirListing, d: &str| d@ == spec_agents_dir(working_dir@) && list_dir.ensures((d,), l)
            && discovered(l, r) && (names_each_path_once(l) ==> agents_found(l, r)),
{
    let dir = agents_dir(working_dir);
    let d: &str = dir.as_str();
    let listing = list_dir(d);
    let ghost l = listing;
    let r = discover_agents(listing);
    assert(d@ == spec_agents_dir(working_dir@));
    r
}

/// Entries ordered by name: none sorts before an entry ahead of it.
pub open spec fn name_sorted(s: Seq<NamedPath>) -> bool {
    forall|i: int, j: int| 0 <= i < j < s.len() ==> !name_before(#[trigger] s[j].0, #[trigger] s[i].0)
}

#[verifier::spinoff_prover]
#[verifier::rlimit(40)]
proof fn lemma_insert_sorted(prev: Seq<NamedPath>, x: NamedPath)
    requires
        name_sorted(prev),
    ensures
        name_sorted(prev.insert(insert_pos(prev, x.0), x)),
{
    let p = insert_pos(prev, x.0);
    lemma_insert_pos(prev, x.0);
    let r = prev.insert(p, x);
    assert forall|i: int, j: int| 0 <= i < j < r.len() implies !name_before(#[trigger] r[j].0, #[trigger] r[i].0) by {
        if j < p {
            assert(r[i] == prev[i] && r[j] == prev[j]);
        } else if j == p {
            assert(r[i] == prev[i] && r[j] == x);
            assert(!name_before(x.0, prev[i].0));
        } else if i < p {
            assert(r[i] == prev[i] && r[j] == prev[j - 1]);
        } else if i == p {
            assert(r[i] == x && r[j] == prev[j - 1]);
            let q = prev[p];
            assert(name_before(x.0, q.0));
            if j - 1 > p {
                assert(!name_before(prev[j - 1].0, q.0));
            }
            lemma_bytes_lt_order(encode_utf8(prev[j - 1].0), encode_utf8(x.0), encode_utf8(q.0));
            lemma_bytes_lt_order(encode_utf8(x.0), encode_utf8(q.0), encode_utf8(prev[j - 1].0));
            lemma_bytes_lt_order(encode_utf8(q.0), encode_utf8(prev[j - 1].0), encode_utf8(q.0));
        } else {
            assert(r[i] == prev[i - 1] && r[j] == prev[j - 1]);
        }
    }
}

/// Discovered agent files come ordered by file name, and are exactly the listing's
/// regular `.yaml` files.
pub proof fn lemma_sort_by_name(s: Seq<NamedPath>)
    ensures
        name_sorted(sort_by_name(s)),
        sort_by_name(s).to_multiset() == s.to_multiset(),
        sort_by_name(s).len() == s.len(),
    decreases s.len(),
{
    broadcast use vstd::seq_lib::to_multiset_insert, vstd::seq_lib::to_multiset_build, vstd::seq_lib::to_multiset_len;
    if s.len() > 0 {
        let prev = sort_by_name(s.drop_last());
        lemma_sort_by_name(s.drop_last());
        let x = s.last();
        lemma_insert_pos(prev, x.0);
        lemma_insert_sorted(prev, x);
        assert(s.drop_last().push(x) =~= s);
    }
}

/// What the agent files of a listing are: each comes from an agent-file entry, each
/// agent-file entry is there, and entries with distinct paths give distinct paths.
proof fn lemma_agent_files(es: Seq<DirEntryInfo>)
    ensures
        forall|k: int| 0 <= k < agent_files(es).len() ==> exists|i: int| 0 <= i < es.len() && is_agent_file(es[i])
            && #[trigger] agent_files(es)[k] == (es[i].file_name@, es[i].path@),
        forall|i: int| 0 <= i < es.len() && is_agent_file(#[trigger] es[i]) ==> agent_files(es).contains(
            (es[i].file_name@, es[i].path@),
        ),
        (forall|i: int, j: int| 0 <= i < j < es.len() ==> #[trigger] es[i].path@ != #[trigger] es[j].path@) ==> forall|
            a: int,
            b: int,
        | 0 <= a < b < agent_files(es).len() ==> #[trigger] agent_files(es)[a].1 != #[trigger] agent_files(es)[b].1,
    decreases es.len(),
{
    if es.len() > 0 {
        let rest = es.drop_last();
        lemma_agent_files(rest);
        let prev = agent_files(rest);
        let e = es.last();
        assert forall|i: int| 0 <= i < rest.len() implies #[trigger] rest[i] == es[i] by {}
        assert forall|k: int| 0 <= k < agent_files(es).len() implies exists|i: int| 0 <= i < es.len() && is_agent_file(es[i])
            && #[trigger] agent_files(es)[k] == (es[i].file_name@, es[i].path@) by {
            if k < prev.len() {
                assert(agent_files(es)[k] == prev[k]);
                let i = choose|i: int| 0 <= i < rest.len() && is_agent_file(rest[i]) && prev[k] == (rest[i].file_name@, rest[i].path@);
                assert(rest[i] == es[i]);
            } else {
                assert(agent_files(es)[k] == (es[es.len() - 1].file_name@, es[es.len() - 1].path@));
            }
        }
        assert forall|i: int| 0 <= i < es.len() && is_agent_file(#[trigger] es[i]) implies agent_files(es).contains(
            (es[i].file_name@, es[i].path@),
        ) by {
            if i < rest.len() {
                assert(rest[i] == es[i]);
                assert(prev.contains((rest[i].file_name@, rest[i].path@)));
                let k = choose|k: int| 0 <= k < prev.len() && prev[k] == (rest[i].file_name@, rest[i].path@);
                if is_agent_file(e) {
                    assert(agent_files(es)[k] == prev[k]);
                }
            } else {
                assert(agent_files(es).last() == (e.file_name@, e.path@));
            }
        }
        if forall|i: int, j: int| 0 <= i < j < es.len() ==> #[trigger] es[i].path@ != #[trigger] es[j].path@ {
            assert forall|i: int, j: int| 0 <= i < j < rest.len() implies #[trigger] rest[i].path@ != #[trigger] rest[j].path@ by {
                assert(rest[i] == es[i] && rest[j] == es[j]);
            }
            if is_agent_file(e) {
                assert forall|a: int, b: int| 0 <= a < b < agent_files(es).len() implies #[trigger] agent_files(es)[a].1
                    != #[trigger] agent_files(es)[b].1 by {
                    if b < prev.len() {
                        assert(agent_files(es)[a] == prev[a] && agent_files(es)[b] == prev[b]);
                    } else {
                        assert(agent_files(es)[a] == prev[a]);
                        let i = choose|i: int| 0 <= i < rest.len() && is_agent_file(rest[i]) && prev[a] == (rest[i].file_name@, rest[i].path@);
                        assert(rest[i] == es[i]);
                        assert(es[i].path@ != es[es.len() - 1].path@);
                    }
                }
            }
        }
    }
}

/// Discovering agents: when the listing names each path once (as a directory
/// listing does), the paths found are ordered by file name, none occurs twice, and
/// they are exactly the paths of the listing's regular `.yaml` files.
pub proof fn lemma_agents_listing(es: Seq<DirEntryInfo>)
    requires
        forall|i: int, j: int| 0 <= i < j < es.len() ==> #[trigger] es[i].path@ != #[trigger] es[j].path@,
    ensures
        name_sorted(sort_by_name(agent_files(es))),
        discovered_paths(es).no_duplicates(),
        forall|p: Seq<char>| #[trigger] discovered_paths(es).contains(p) <==> exists|i: int| 0 <= i < es.len()
            && is_agent_file(es[i]) && es[i].path@ == p,
{
    broadcast use vstd::seq_lib::to_multiset_contains;
    let af = agent_files(es);
    let sorted = sort_by_name(af);
    let paths = discovered_paths(es);
    lemma_agent_files(es);
    lemma_sort_by_name(af);
    assert(af.no_duplicates()) by {
        assert forall|a: int, b: int| 0 <= a < af.len() && 0 <= b < af.len() && a != b implies af[a] != af[b] by {
            if a < b {
                assert(af[a].1 != af[b].1);
            } else {
                assert(af[b].1 != af[a].1);
            }
        }
    }
    af.lemma_multiset_has_no_duplicates();
    assert forall|x: NamedPath| sorted.to_multiset().contains(x) implies sorted.to_multiset().count(x) == 1 by {}
    sorted.lemma_multiset_has_no_duplicates_conv();
    assert forall|x: NamedPath| #[trigger] sorted.contains(x) <==> af.contains(x) by {
        assert(sorted.to_multiset().count(x) == af.to_multiset().count(x));
    }
    assert forall|a: int, b: int| 0 <= a < paths.len() && 0 <= b < paths.len() && a != b implies paths[a] != paths[b] by {
        assert(paths[a] == sorted[a].1 && paths[b] == sorted[b].1);
        assert(sorted.contains(sorted[a]) && sorted.contains(sorted[b]));
        let ia = choose|k: int| 0 <= k < af.len() && af[k] == sorted[a];
        let ib = choose|k: int| 0 <= k < af.len() && af[k] == sorted[b];
        if ia < ib {
            assert(af[ia].1 != af[ib].1);
        } else if ib < ia {
            assert(af[ib].1 != af[ia].1);
        }
    }
    assert forall|p: Seq<char>| #[trigger] paths.contains(p) <==> exists|i: int| 0 <= i < es.len()
        && is_agent_file(es[i]) && es[i].path@ == p by {
        if paths.contains(p) {
            let a = choose|a: int| 0 <= a < paths.len() && paths[a] == p;
            assert(sorted.contains(sorted[a]));
            let k = choose|k: int| 0 <= k < af.len() && af[k] == sorted[a];
            let i = choose|i: int| 0 <= i < es.len() && is_agent_file(es[i]) && #[trigger] af[k] == (es[i].file_name@, es[i].path@);
            assert(es[i].path@ == p);
        }
        if exists|i: int| 0 <= i < es.len() && is_agent_file(es[i]) && es[i].path@ == p {
            let i = choose|i: int| 0 <= i < es.len() && is_agent_file(es[i]) && es[i].path@ == p;
            let x = (es[i].file_name@, es[i].path@);
            assert(af.contains(x));
            assert(sorted.contains(x));
            let a = choose|a: int| 0 <= a < sorted.len() && sorted[a] == x;
            assert(paths[a] == p);
        }
    }
}

/// Whether a listing names each path once, as a directory listing does.
pub open spec fn names_each_path_once(l: DirListing) -> bool {
    l matches DirListing::Entries(es) ==> forall|i: int, j: int| 0 <= i < j < es@.len() ==> #[trigger] es@[i].path@
        != #[trigger] es@[j].path@
}

/// What discovering agents gives for a listing: nothing for a missing directory, an
/// I/O error for one that could not be read, and otherwise the paths of the
/// regular `.yaml` files, ordered by file name, each once.
pub open spec fn agents_found(l: DirListing, r: Result<Vec<String>, YamlAgentError>) -> bool {
    match l {
        DirListing::Missing => (r matches Ok(v) && v@.len() == 0),
        DirListing::Failed(m) => r == Err::<Vec<String>, YamlAgentError>(YamlAgentError::Io(m)),
        DirListing::Entries(es) => (r matches Ok(v) && {
            let paths = v@.map_values(|p: String| p@);
            &&& paths == sort_by_name(agent_files(es@)).map_values(|p: NamedPath| p.1)
            &&& name_sorted(sort_by_name(agent_files(es@)))
            &&& paths.no_duplicates()
            &&& forall|p: Seq<char>| #[trigger] paths.contains(p) <==> exists|i: int| 0 <= i < es@.len()
                && is_agent_file(es@[i]) && es@[i].path@ == p
        }),
    }
}

/// Discovering agents in a directory whose listing names each path once gives the
/// directory's regular `.yaml` files, ordered by name and each once.
pub proof fn lemma_discovered_agents(l: DirListing, r: Result<Vec<String>, YamlAgentError>)
    requires
        discovered(l, r),
        names_each_path_once(l),
    ensures
        agents_found(l, r),
{
    if let DirListing::Entries(es) = l {
        lemma_agents_listing(es@);
    }
}

} // verus!
