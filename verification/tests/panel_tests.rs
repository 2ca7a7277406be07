use vol_llm::cache::NodeDataCache;
use vol_llm::conversation::ConversationState;
use vol_llm::graph::TaskEntry;
use vol_llm::panel::{
    apply_result, filter_tasks, list_view, mark_loading, needs_fetch, refetch_on_connect, scope_color,
    skills_view, status_color, toggle_selected, AgentListEntry, AgentSubTab, AgentsState, McpFanIn, PanelState,
    PanelView,
};

fn task(id: u64, status: &str) -> TaskEntry {
    TaskEntry {
        id,
        status: status.to_string(),
        kind: "task".to_string(),
        publisher: None,
        assignee: None,
        subject: String::new(),
        description: String::new(),
        active_form: None,
        dependencies: vec![],
        blocks: vec![],
        created_at: 0,
        started_at: None,
        completed_at: None,
    }
}

fn agent(id: &str) -> AgentListEntry {
    AgentListEntry {
        id: id.to_string(),
        name: id.to_string(),
        type_: "yaml".to_string(),
        description: String::new(),
        scope: "repo".to_string(),
    }
}

#[test]
fn a_node_is_fetched_once_until_reconnect() {
    let mut cache: NodeDataCache<PanelState<u32>> = NodeDataCache::new();
    assert!(needs_fetch(&cache, "n1", "tasks"));
    mark_loading(&mut cache, "n1", "tasks");
    assert!(!needs_fetch(&cache, "n1", "tasks"));
    assert!(needs_fetch(&cache, "n2", "tasks"));
    assert!(apply_result(&mut cache, Some("n1"), "n1", "tasks", Ok(vec![7, 8])));
    let s = cache.get("n1").unwrap().get("tasks").unwrap();
    assert_eq!(s.items, vec![7, 8]);
    assert!(!s.loading);
    refetch_on_connect(&mut cache, "n1", "tasks");
    let s = cache.get("n1").unwrap().get("tasks").unwrap();
    assert!(s.items.is_empty() && s.loading && s.error.is_none());
}

#[test]
fn answers_for_another_node_are_dropped() {
    let mut cache: NodeDataCache<PanelState<u32>> = NodeDataCache::new();
    mark_loading(&mut cache, "n1", "tasks");
    assert!(!apply_result(&mut cache, Some("n2"), "n1", "tasks", Ok(vec![1])));
    assert!(!apply_result(&mut cache, None, "n1", "tasks", Ok(vec![1])));
    assert!(cache.get("n1").unwrap().get("tasks").unwrap().loading);
    assert!(!apply_result(&mut cache, Some("n3"), "n3", "tasks", Ok(vec![1])));
}

#[test]
fn a_failed_fetch_keeps_the_list_and_records_the_error() {
    let mut cache: NodeDataCache<PanelState<u32>> = NodeDataCache::new();
    mark_loading(&mut cache, "n", "skills");
    assert!(apply_result(&mut cache, Some("n"), "n", "skills", Err("boom".to_string())));
    let s = cache.get("n").unwrap().get("skills").unwrap();
    assert_eq!(s.error.as_deref(), Some("boom"));
    assert!(s.items.is_empty() && !s.loading);
}

#[test]
fn list_view_prefers_what_it_can_show() {
    let err = Some("e".to_string());
    assert!(matches!(list_view(false, 3, false, &None, true), PanelView::NoNode));
    assert!(matches!(list_view(true, 0, true, &err, true), PanelView::Failed(ref e) if e == "e"));
    assert!(matches!(list_view(true, 2, false, &err, true), PanelView::List));
    assert!(matches!(list_view(true, 0, true, &None, true), PanelView::Loading));
    assert!(matches!(list_view(true, 0, false, &None, true), PanelView::Empty));
    assert!(matches!(list_view(true, 0, false, &None, false), PanelView::List));
}

#[test]
fn skills_view_fails_on_any_error() {
    let err = Some("x".to_string());
    assert!(matches!(skills_view(true, 4, false, &err), PanelView::Failed(_)));
    assert!(matches!(skills_view(true, 0, false, &None), PanelView::Empty));
    assert!(matches!(skills_view(true, 0, true, &None), PanelView::List));
    assert!(matches!(skills_view(false, 0, false, &err), PanelView::NoNode));
}

#[test]
fn status_filter_keeps_order() {
    let tasks = vec![task(1, "running"), task(2, "pending"), task(3, "running")];
    assert_eq!(filter_tasks(&tasks, None), vec![0, 1, 2]);
    assert_eq!(filter_tasks(&tasks, Some("all")), vec![0, 1, 2]);
    assert_eq!(filter_tasks(&tasks, Some("running")), vec![0, 2]);
    assert!(filter_tasks(&tasks, Some("failed")).is_empty());
}

#[test]
fn clicking_a_selected_task_clears_it() {
    assert_eq!(toggle_selected(None, 4), Some(4));
    assert_eq!(toggle_selected(Some(4), 4), None);
    assert_eq!(toggle_selected(Some(3), 4), Some(4));
}

#[test]
fn status_and_scope_colors() {
    assert_eq!(status_color("running"), "#4080ff");
    assert_eq!(status_color("completed"), "#40c040");
    assert_eq!(status_color("failed"), "#ff4040");
    assert_eq!(status_color("killed"), "#ff8800");
    assert_eq!(status_color("weird"), "#888");
    assert_eq!(scope_color("repo"), "#4080ff");
    assert_eq!(scope_color("user"), "#40c040");
    assert_eq!(scope_color("system"), "#888");
}

#[test]
fn agents_load_and_select() {
    let mut a = AgentsState::new();
    a.begin_load();
    assert!(a.loading);
    a.finish_load(Ok(vec![agent("x"), agent("y")]));
    assert!(!a.loading && a.agents.len() == 2);
    a.finish_load(Err("down".to_string()));
    assert_eq!(a.agents.len(), 2);
    assert_eq!(a.error.as_deref(), Some("down"));

    let mut conv = ConversationState::new();
    a.sub_tab = AgentSubTab::Sessions;
    a.click_agent(&mut conv, "x");
    assert_eq!(a.selected.as_deref(), Some("x"));
    assert_eq!(conv.active_agent.as_deref(), Some("x"));
    assert_eq!(a.sub_tab, AgentSubTab::Conversation);
    a.click_agent(&mut conv, "x");
    assert!(a.selected.is_none() && conv.active_agent.is_none());
}

#[test]
fn mcp_panel_waits_for_five_answers() {
    let mut f = McpFanIn::new();
    for _ in 0..4 {
        assert!(!f.finish_one());
    }
    assert!(f.finish_one());
    assert_eq!(f.remaining, 0);
}

#[test]
fn applying_an_answer_leaves_other_nodes_and_keys_alone() {
    let mut cache: NodeDataCache<PanelState<u32>> = NodeDataCache::new();
    mark_loading(&mut cache, "n1", "tasks");
    mark_loading(&mut cache, "n1", "skills");
    mark_loading(&mut cache, "n2", "tasks");
    assert!(apply_result(&mut cache, Some("n1"), "n1", "tasks", Ok(vec![9])));
    assert!(cache.get("n1").unwrap().get("skills").unwrap().loading);
    assert!(cache.get("n2").unwrap().get("tasks").unwrap().loading);
    assert!(cache.get("n2").unwrap().get("tasks").unwrap().items.is_empty());
}
