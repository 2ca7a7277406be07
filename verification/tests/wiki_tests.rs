use vol_llm::wiki::{
    compress_prompt, compress_result, is_markdown, messages_text, resolve_llm, system_prompt, wiki_dir, wiki_tools,
    LlmChoice, MessageRole, RootScan, WikiAgentConfig, WikiAgentError, WikiInjector, WikiLoader, WikiMessage,
    WikiPage,
};
use vol_llm::yaml_agent::ToolKind;

fn page(path: &str, title: &str, tags: &[&str]) -> WikiPage {
    WikiPage {
        path: path.to_string(),
        title: title.to_string(),
        tags: tags.iter().map(|t| t.to_string()).collect(),
        absolute_path: format!("/test/{path}"),
    }
}

#[test]
fn test_format_metadata_empty() {
    let loader = WikiLoader::with_home(None, None);
    let injector = WikiInjector::new(loader);
    let output = injector.format_metadata();
    assert!(output.is_empty());
}

#[test]
fn test_format_metadata_with_pages() {
    let mut loader = WikiLoader::with_home(None, None);
    loader.set_pages(vec![page("INDEX.md", "Index", &["index"]), page("entities.md", "Entities", &["entities"])]);
    let injector = WikiInjector::new(loader);
    let output = injector.format_metadata();
    assert!(output.contains("# Wiki"));
    assert!(output.contains("Available pages:"));
    assert!(output.contains("Index"));
    assert!(output.contains("Entities"));
    assert!(output.contains("read"));
}

#[test]
fn format_metadata_exact_text() {
    let mut loader = WikiLoader::new_empty();
    loader.set_pages(vec![page("a.md", "A", &[]), page("b.md", "B", &["x", "y"])]);
    let injector = WikiInjector::new(loader);
    assert_eq!(
        injector.format_metadata(),
        "# Wiki\n\nAvailable pages:\n- A (a.md)\n- B (b.md) [x, y]\n\nUse the `read` tool to load any page. Use `write`/`edit` to update.\n"
    );
    assert_eq!(injector.contribute().len(), 1);
}

#[test]
fn test_wiki_injector_contribute_empty() {
    let injector = WikiInjector::new(WikiLoader::with_home(None, None));
    let blocks = injector.contribute();
    assert!(blocks.is_empty());
    assert_eq!(injector.estimate_size(), 0);
}

#[test]
fn test_wiki_injector_clone_box() {
    let injector = WikiInjector::new(WikiLoader::with_home(None, None));
    assert_eq!(injector.name(), "wiki");
}

#[test]
fn test_empty_loader() {
    let mut loader = WikiLoader::with_home(None, None);
    loader.discover_all(vec![]).unwrap();
    assert!(loader.list_pages().is_empty());
}

#[test]
fn test_discover_from_temp_dir() {
    let mut loader = WikiLoader::new_empty();
    loader.add_root("/tmp/t/.agent/wikis".to_string());
    let found = vec![
        ("/tmp/t/.agent/wikis/INDEX.md".to_string(), Some((Some("Index".to_string()), vec!["index".to_string()]))),
        ("/tmp/t/.agent/wikis/entities.md".to_string(), Some((Some("Entities".to_string()), vec!["entities".to_string()]))),
        ("/tmp/t/.agent/wikis/broken.md".to_string(), None),
    ];
    loader.discover_all(vec![RootScan::Found("/tmp/t/.agent/wikis".to_string(), found)]).unwrap();
    let pages = loader.list_pages();
    assert_eq!(pages.len(), 2);
    assert!(pages.iter().any(|p| p.title == "Index"));
    assert!(pages.iter().any(|p| p.title == "Entities"));
    assert_eq!(loader.list_paths(), vec!["INDEX.md".to_string(), "entities.md".to_string()]);
    assert_eq!(pages[0].absolute_path, "/tmp/t/.agent/wikis/INDEX.md");
}

#[test]
fn pages_without_title_use_the_file_name_and_paths_are_relative() {
    let mut loader = WikiLoader::new_empty();
    let found = vec![
        ("/r/w/sub/a.md".to_string(), Some((None, vec![]))),
        ("/r/w/INDEX.md".to_string(), Some((Some("Index".to_string()), vec![]))),
        ("/elsewhere/b.md".to_string(), Some((None, vec!["t".to_string()]))),
    ];
    loader.discover_all(vec![RootScan::Found("/r/w/".to_string(), found)]).unwrap();
    let pages = loader.list_pages();
    assert_eq!((pages[0].path.as_str(), pages[0].title.as_str()), ("sub/a.md", "a.md"));
    assert_eq!((pages[1].path.as_str(), pages[1].title.as_str()), ("INDEX.md", "Index"));
    assert_eq!((pages[2].path.as_str(), pages[2].title.as_str()), ("/elsewhere/b.md", "b.md"));
    assert_eq!(pages[0].absolute_path, "/r/w/sub/a.md");
}

#[test]
fn test_discover_no_directory() {
    let mut loader = WikiLoader::with_home(Some("/w"), Some("/home/u".to_string()));
    assert_eq!(loader.roots, vec!["/home/u/.agents/wikis".to_string(), "/w/.agents/wikis".to_string()]);
    let result = loader.discover_all(vec![RootScan::Skipped, RootScan::Skipped]);
    assert!(result.is_ok());
    assert!(loader.list_pages().is_empty());
}

#[test]
fn bad_pattern_keeps_previous_pages() {
    let mut loader = WikiLoader::new_empty();
    loader.set_pages(vec![page("a.md", "A", &[])]);
    let r = loader.discover_all(vec![RootScan::Skipped, RootScan::BadPattern("oops".to_string())]);
    assert_eq!(r, Err("Invalid glob pattern: oops".to_string()));
    assert_eq!(loader.list_pages().len(), 1);
    assert_eq!(WikiLoader::glob_pattern("/r"), "/r/**/*.md");
}

#[test]
fn wiki_agent_config_defaults_and_errors() {
    let c = WikiAgentConfig::default();
    assert_eq!(c.agent_id, "wiki-agent");
    assert_eq!(c.llm_provider_id, "anthropic-main");
    assert_eq!(c.max_iterations, 15);
    assert_eq!(c.working_dir, ".");
    assert!(matches!(resolve_llm(&c, true, None), Ok(LlmChoice::Provided)));
    match resolve_llm(&c, false, None) {
        Err(e) => assert_eq!(e.message(), "Configuration error: ANTHROPIC_AUTH_TOKEN not set and no LLM client provided"),
        Ok(_) => panic!("expected error"),
    }
    match resolve_llm(&c, false, Some("tok".to_string())) {
        Ok(LlmChoice::FromEnv { id, model, api_key, .. }) => {
            assert_eq!(id, "anthropic-main");
            assert_eq!(model, "qwen3.5-plus");
            assert_eq!(api_key, "tok");
        }
        _ => panic!("expected provider"),
    }
    assert_eq!(WikiAgentError::Io("x".to_string()).message(), "IO error: x");
}

#[test]
fn prompts_and_results() {
    assert_eq!(wiki_dir("/p"), "/p/.agents/wikis");
    assert!(system_prompt("/p/.agents/wikis").contains("维护一个位于 /p/.agents/wikis 的知识 Wiki"));
    let ms = vec![
        WikiMessage { role: MessageRole::User, content: Some("hi".to_string()) },
        WikiMessage { role: MessageRole::Tool, content: None },
    ];
    assert_eq!(messages_text(&ms), "[User] hi\n\n---\n\n[Tool] (empty)");
    assert_eq!(
        compress_prompt(&ms),
        "以下是需要压缩的对话记录。请分析并更新 wiki 页面。\n\n=== 对话开始 ===\n[User] hi\n\n---\n\n[Tool] (empty)\n=== 对话结束 ==="
    );
    let r = compress_result(vec!["a.md".to_string()], "done".to_string());
    assert_eq!(r.pages_created, vec!["a.md".to_string()]);
    assert_eq!(r.pages_updated, vec!["a.md".to_string()]);
    assert_eq!(r.summary, "done");
    assert!(is_markdown("INDEX.md"));
    assert!(!is_markdown("notes.txt"));
    assert_eq!(wiki_tools().tools, vec![ToolKind::Read, ToolKind::Write, ToolKind::Edit, ToolKind::Glob, ToolKind::Grep]);
}
