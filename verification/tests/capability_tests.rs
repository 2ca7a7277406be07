use vol_llm::cache::NodeData;
use vol_llm::capabilities::{
    begin_toggle, clear_saved, finish_toggle, saving_indicator, section_items, CapabilityDrawerState,
    CapabilitySelection, EffectiveCapabilities, ToggleSavingState, ToolOverlay,
};
use vol_llm::json::Json;
use vol_llm::workspace::StringSet;

fn strings(v: &[&str]) -> Vec<String> {
    v.iter().map(|x| x.to_string()).collect()
}

fn named(name: &str) -> Json {
    Json::Object(vec![("name".to_string(), Json::Str(name.to_string()))])
}

fn drawer() -> CapabilityDrawerState {
    CapabilityDrawerState {
        open: true,
        loaded: true,
        load_error: None,
        search: String::new(),
        collapsed_sections: StringSet::new(),
        saving_states: NodeData::new(),
    }
}

fn no_caps() -> EffectiveCapabilities {
    EffectiveCapabilities { effective_tools: vec![], effective_skills: vec![], effective_mcp_servers: vec![] }
}

#[test]
fn toggle_on_selects_and_builds_the_update() {
    let mut sel = CapabilitySelection::from_effective(&strings(&["read"]), &strings(&[]), &strings(&[]));
    let mut d = drawer();
    let req = begin_toggle(&mut sel, &mut d, "tools", "write", true, "agent-1", "sess-1").unwrap();
    assert!(sel.tools.contains("write"));
    assert!(sel.tools.contains("read"));
    assert_eq!(req.agent_id, "agent-1");
    assert_eq!(req.session_id, "sess-1");
    let mut tools = req.tools.clone();
    tools.sort();
    assert_eq!(tools, strings(&["read", "write"]));
    assert!(matches!(d.saving_states.get("tools:write"), Some(ToggleSavingState::Saving)));
}

#[test]
fn toggle_without_agent_sends_nothing() {
    let mut sel = CapabilitySelection::from_effective(&strings(&[]), &strings(&["s"]), &strings(&[]));
    let mut d = drawer();
    assert!(begin_toggle(&mut sel, &mut d, "skills", "s", false, "", "").is_none());
    assert!(!sel.skills.contains("s"));
}

#[test]
fn unknown_group_changes_nothing() {
    let mut sel = CapabilitySelection::from_effective(&strings(&[]), &strings(&[]), &strings(&[]));
    let mut d = drawer();
    assert!(begin_toggle(&mut sel, &mut d, "plugins", "x", true, "a", "s").is_none());
    assert!(d.saving_states.is_empty());
}

#[test]
fn failed_toggle_restores_the_selection() {
    let mut sel = CapabilitySelection::from_effective(&strings(&[]), &strings(&[]), &strings(&["srv"]));
    let mut d = drawer();
    let mut caps = no_caps();
    begin_toggle(&mut sel, &mut d, "mcps", "srv", false, "a", "s");
    assert!(!sel.mcps.contains("srv"));
    let clear = finish_toggle(&mut sel, &mut d, &mut caps, "mcps", "srv", false, Err("denied".to_string()));
    assert!(!clear);
    assert!(sel.mcps.contains("srv"));
    match d.saving_states.get("mcps:srv") {
        Some(ToggleSavingState::Error(e)) => assert_eq!(e, "denied"),
        other => panic!("unexpected {:?}", other),
    }
}

#[test]
fn successful_toggle_takes_the_effective_capabilities() {
    let mut sel = CapabilitySelection::from_effective(&strings(&[]), &strings(&[]), &strings(&[]));
    let mut d = drawer();
    let mut caps = no_caps();
    begin_toggle(&mut sel, &mut d, "tools", "grep", true, "a", "s");
    let upd = EffectiveCapabilities {
        effective_tools: strings(&["grep"]),
        effective_skills: vec![],
        effective_mcp_servers: vec![],
    };
    assert!(finish_toggle(&mut sel, &mut d, &mut caps, "tools", "grep", true, Ok(upd)));
    assert_eq!(caps.effective_tools, strings(&["grep"]));
    assert!(matches!(d.saving_states.get("tools:grep"), Some(ToggleSavingState::Saved)));
    clear_saved(&mut d, "tools:grep");
    assert!(d.saving_states.get("tools:grep").is_none());
}

#[test]
fn stale_answer_is_dropped() {
    let mut sel = CapabilitySelection::from_effective(&strings(&[]), &strings(&[]), &strings(&[]));
    let mut d = drawer();
    let mut caps = no_caps();
    begin_toggle(&mut sel, &mut d, "tools", "grep", true, "a", "s");
    begin_toggle(&mut sel, &mut d, "tools", "grep", false, "a", "s");
    let clear = finish_toggle(&mut sel, &mut d, &mut caps, "tools", "grep", true, Err("late".to_string()));
    assert!(!clear);
    assert!(!sel.tools.contains("grep"));
    assert!(matches!(d.saving_states.get("tools:grep"), Some(ToggleSavingState::Saving)));
}

#[test]
fn clear_saved_keeps_other_states() {
    let mut d = drawer();
    d.saving_states.insert("tools:a".to_string(), ToggleSavingState::Saving);
    clear_saved(&mut d, "tools:a");
    assert!(matches!(d.saving_states.get("tools:a"), Some(ToggleSavingState::Saving)));
}

#[test]
fn section_items_filter_case_insensitively() {
    let items = vec![named("ReadFile"), named("write"), Json::Null, named(""), named("grep_read")];
    let rows = section_items(&items, &strings(&["write", "grep_read"]), "READ");
    assert_eq!(rows, vec![("ReadFile".to_string(), false), ("grep_read".to_string(), true)]);
    let all = section_items(&items, &strings(&[]), "");
    assert_eq!(all.len(), 3);
    assert_eq!(all[1], ("write".to_string(), false));
}

#[test]
fn toggle_section_collapses_and_expands() {
    let mut d = drawer();
    d.toggle_section("Tools");
    assert!(d.collapsed_sections.contains("Tools"));
    d.toggle_section("Tools");
    assert!(!d.collapsed_sections.contains("Tools"));
}

#[test]
fn closing_forgets_what_was_loaded() {
    let mut d = drawer();
    d.load_error = Some("x".to_string());
    d.close();
    assert!(!d.open && !d.loaded && d.load_error.is_none());
}

#[test]
fn saving_indicator_icons() {
    assert_eq!(saving_indicator(None), ("", ""));
    assert_eq!(saving_indicator(Some(&ToggleSavingState::Saved)), ("\u{2713}", "text-[#40c040]"));
    assert_eq!(saving_indicator(Some(&ToggleSavingState::Saving)).0, "\u{25CC}");
    assert_eq!(saving_indicator(Some(&ToggleSavingState::Error("e".into()))).1, "text-[#c04040]");
}

#[test]
fn tool_overlay_tracks_changes_until_applied() {
    let mut o = ToolOverlay::new();
    assert!(o.loading);
    o.on_loaded(Ok((strings(&["read", "bash"]), strings(&["read"]))));
    assert!(!o.loading && !o.dirty);
    assert!(o.selected.contains("bash"));
    assert!(o.apply_request("agent").is_none());
    o.toggle_tool("bash");
    assert!(!o.selected.contains("bash") && o.dirty);
    assert!(o.apply_request("").is_none());
    assert_eq!(o.apply_request("agent"), Some(strings(&["read"])));
    o.reset_to_default();
    assert!(o.dirty);
    o.toggle_tool("grep");
    let mut sent = o.apply_request("agent").unwrap();
    sent.sort();
    assert_eq!(sent, strings(&["grep", "read"]));
    o.on_applied(Err("nope".to_string()));
    assert!(o.dirty);
    o.on_applied(Ok(strings(&["grep", "read"])));
    assert!(!o.dirty);
    assert_eq!(o.effective_tools, strings(&["grep", "read"]));
    let mut failed = ToolOverlay::new();
    failed.on_loaded(Err("down".to_string()));
    assert!(!failed.loading && failed.effective_tools.is_empty());
}
