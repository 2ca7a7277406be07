use vol_llm::paths::{extension, join_path};
use vol_llm::yaml_agent::{
    agents_dir, default_max_history, default_max_iterations, default_working_dir, discover_agents,
    discover_from_workdir, register_plugin_by_name, register_plugins_by_name, register_tool_by_name,
    register_tools_by_name, DirEntryInfo, DirListing, PluginKind, PluginRegistry, ProviderSetup, ToolKind, ToolRegistry,
    YamlAgentBuilder, YamlAgentConfig, YamlAgentError,
};

const ALL: ProviderSetup = ProviderSetup { web_search: true, web_fetch: true };

fn config(name: &str, llm: &str, tools: &[&str], plugins: Option<Vec<&str>>) -> YamlAgentConfig {
    YamlAgentConfig {
        name: name.to_string(),
        llm: llm.to_string(),
        max_iterations: default_max_iterations(),
        max_history_messages: default_max_history(),
        system: None,
        system_files: None,
        tools: tools.iter().map(|t| t.to_string()).collect(),
        tool_configs: None,
        plugins: plugins.map(|p| p.iter().map(|x| x.to_string()).collect()),
        working_dir: default_working_dir(),
    }
}

fn file(dir: &str, name: &str, is_file: bool) -> DirEntryInfo {
    DirEntryInfo { path: format!("{dir}/{name}"), file_name: name.to_string(), is_file }
}

#[test]
fn defaults() {
    assert_eq!(default_max_iterations(), 10);
    assert_eq!(default_max_history(), 20);
    assert_eq!(default_working_dir(), ".");
}

#[test]
fn test_register_core_tools() {
    let mut registry = ToolRegistry::new();
    for name in &["read", "write", "edit", "glob", "grep", "bash"] {
        register_tool_by_name(&mut registry, name, "", ALL).unwrap();
    }
    assert_eq!(
        registry.tools,
        vec![ToolKind::Read, ToolKind::Write, ToolKind::Edit, ToolKind::Glob, ToolKind::Grep, ToolKind::Bash]
    );
}

#[test]
fn test_register_unknown_tool() {
    let mut registry = ToolRegistry::new();
    let err = register_tool_by_name(&mut registry, "quantum_tool", "", ALL).unwrap_err();
    assert!(err.message().contains("quantum_tool"));
}

#[test]
fn test_register_multiple_tools() {
    let mut registry = ToolRegistry::new();
    let names = vec!["read".to_string(), "write".to_string()];
    register_tools_by_name(&mut registry, &names, "", ALL).unwrap();
    assert_eq!(registry.tools.len(), 2);
}

#[test]
fn web_search_needs_an_api_key() {
    let mut registry = ToolRegistry::new();
    register_tool_by_name(&mut registry, "web_search", "", ALL).unwrap();
    assert!(registry.tools.is_empty());
    register_tool_by_name(&mut registry, "web_search", "key", ALL).unwrap();
    register_tool_by_name(&mut registry, "web_fetch", "", ALL).unwrap();
    assert_eq!(registry.tools, vec![ToolKind::WebSearch, ToolKind::WebFetch]);
}

#[test]
fn web_tools_whose_provider_cannot_be_built_are_skipped() {
    let mut registry = ToolRegistry::new();
    let none = ProviderSetup { web_search: false, web_fetch: false };
    register_tool_by_name(&mut registry, "web_search", "key", none).unwrap();
    register_tool_by_name(&mut registry, "web_fetch", "", none).unwrap();
    assert!(registry.tools.is_empty());
    register_tool_by_name(&mut registry, "read", "", none).unwrap();
    assert_eq!(registry.tools, vec![ToolKind::Read]);
}

#[test]
fn registering_stops_at_the_first_unknown_tool() {
    let mut registry = ToolRegistry::new();
    let names = vec!["read".to_string(), "nope".to_string(), "bash".to_string()];
    let err = register_tools_by_name(&mut registry, &names, "", ALL).unwrap_err();
    assert!(matches!(err, YamlAgentError::UnknownTool(ref n) if n == "nope"));
    assert_eq!(registry.tools, vec![ToolKind::Read]);
}

#[test]
fn test_register_logger() {
    let mut registry = PluginRegistry::new();
    register_plugin_by_name(&mut registry, "logger", "/tmp/work").unwrap();
    assert_eq!(registry.plugins, vec![(PluginKind::Logger, "/tmp/work".to_string())]);
}

#[test]
fn test_register_unknown_plugin() {
    let mut registry = PluginRegistry::new();
    let err = register_plugin_by_name(&mut registry, "magic", "/tmp").unwrap_err();
    assert!(err.message().contains("magic"));
    let err2 = register_plugins_by_name(&mut registry, &["logger".to_string(), "x".to_string()], "/w").unwrap_err();
    assert_eq!(err2.message(), "Unknown plugin: x");
    assert_eq!(registry.plugins.len(), 1);
}

#[test]
fn test_build_fails_without_llm_registry() {
    let builder = YamlAgentBuilder::from_config(config("test", "non-existent-provider", &["read"], None));
    let builder = builder.with_llm_registry(Vec::new());
    let result = builder.build(ALL);
    assert!(result.is_err());
    let err = match result {
        Ok(_) => panic!("Expected error"),
        Err(e) => e,
    };
    assert!(err.message().contains("non-existent-provider"));
}

#[test]
fn build_registers_tools_and_plugins() {
    let builder = YamlAgentBuilder::from_file(Ok(config("coding", "p1", &["read", "bash"], Some(vec!["logger"]))))
        .unwrap()
        .with_llm_registry(vec!["p0".to_string(), "p1".to_string()]);
    assert_eq!(builder.config().name, "coding");
    let plan = builder.build(ALL).unwrap();
    assert_eq!(plan.tools.tools, vec![ToolKind::Read, ToolKind::Bash]);
    assert_eq!(plan.plugins.plugins, vec![(PluginKind::Logger, ".".to_string())]);
    assert_eq!(plan.max_iterations, 10);
}

#[test]
fn build_reports_unknown_tool_and_plugin() {
    let b = YamlAgentBuilder::from_config(config("a", "p", &["read", "zap"], None)).with_llm_registry(vec!["p".to_string()]);
    assert!(matches!(b.build(ALL), Err(YamlAgentError::UnknownTool(ref n)) if n == "zap"));
    let b = YamlAgentBuilder::from_config(config("a", "p", &["read"], Some(vec!["nope"]))).with_llm_registry(vec!["p".to_string()]);
    assert!(matches!(b.build(ALL), Err(YamlAgentError::UnknownPlugin(ref n)) if n == "nope"));
    let b = YamlAgentBuilder::from_config(config("a", "p", &[], None));
    assert!(matches!(b.build(ALL), Err(YamlAgentError::LlmNotFound(ref n)) if n == "p"));
}

#[test]
fn from_file_passes_read_errors_on() {
    let r = YamlAgentBuilder::from_file(Err(YamlAgentError::Io("missing".to_string())));
    assert!(matches!(r, Err(YamlAgentError::Io(ref m)) if m == "missing"));
    assert_eq!(YamlAgentError::YamlError("bad".to_string()).message(), "YAML parse error: bad");
}

#[test]
fn test_discover_empty_dir() {
    let files = discover_agents(DirListing::Entries(vec![])).unwrap();
    assert!(files.is_empty());
}

#[test]
fn test_discover_yaml_files() {
    let dir = "/tmp/x";
    let listing = DirListing::Entries(vec![
        file(dir, "readme.md", true),
        file(dir, "agent2.yaml", true),
        file(dir, "agent1.yaml", true),
    ]);
    let files = discover_agents(listing).unwrap();
    assert_eq!(files.len(), 2);
    assert!(files[0].ends_with("agent1.yaml"));
    assert!(files[1].ends_with("agent2.yaml"));
}

#[test]
fn test_discover_nonexistent_dir() {
    let files = discover_agents(DirListing::Missing).unwrap();
    assert!(files.is_empty());
}

#[test]
fn test_discover_from_workdir() {
    let files = discover_from_workdir("/tmp/w", |d: &str| {
        if d == "/tmp/w/.agent/agents" {
            DirListing::Entries(vec![file(d, "coding.yaml", true)])
        } else {
            DirListing::Missing
        }
    })
    .unwrap();
    assert_eq!(files.len(), 1);
}

#[test]
fn discovery_skips_directories_hidden_names_and_other_extensions() {
    let d = "/a";
    let listing = DirListing::Entries(vec![
        file(d, "dir.yaml", false),
        file(d, ".yaml", true),
        file(d, "b.yml", true),
        file(d, "c.YAML", true),
        file(d, "z.yaml", true),
        file(d, "Z.yaml", true),
    ]);
    let files = discover_agents(listing).unwrap();
    assert_eq!(files, vec!["/a/Z.yaml".to_string(), "/a/z.yaml".to_string()]);
    assert!(matches!(discover_agents(DirListing::Failed("denied".to_string())), Err(YamlAgentError::Io(ref m)) if m == "denied"));
}

#[test]
fn paths_join_like_path_join() {
    assert_eq!(agents_dir("/tmp/w"), "/tmp/w/.agent/agents");
    assert_eq!(agents_dir("/tmp/w/"), "/tmp/w/.agent/agents");
    assert_eq!(join_path("", "a"), "a");
    assert_eq!(join_path("/x", "/abs"), "/abs");
    assert_eq!(extension("a.tar.gz").as_deref(), Some("gz"));
    assert_eq!(extension(".bashrc"), None);
    assert_eq!(extension("noext"), None);
    assert_eq!(extension("trailing."), Some(String::new()));
    assert_eq!(extension(".."), None);
}
