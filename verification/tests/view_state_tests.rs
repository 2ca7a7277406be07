use vol_llm::connection::ws_url_for_host;
use vol_llm::form::build_form_defaults;
use vol_llm::json::{Json, JsonNumber};
use vol_llm::log_view::{
    log_event_color, log_view, short_run_id, still_current, LogLine, LogRunSummary, LogView, LogViewerState,
};
use vol_llm::mcp_view::{
    mcp_view, reconnect_refetches, server_status_color, servers_empty, shows_reconnect, McpList, McpPanelState,
    McpView,
};
use vol_llm::tools::{tool_output, SystemToolDialogState};

fn s(x: &str) -> Json {
    Json::Str(x.to_string())
}

fn obj(members: Vec<(&str, Json)>) -> Json {
    Json::Object(members.into_iter().map(|(k, v)| (k.to_string(), v)).collect())
}

fn run(id: &str) -> LogRunSummary {
    LogRunSummary { run_id: id.to_string(), event_count: 3, last_event: "AgentComplete".into(), last_event_time: "t".into() }
}

#[test]
fn log_viewer_walks_from_runs_to_events_and_back() {
    let mut st = LogViewerState::loading();
    assert!(matches!(log_view(true, Some(&st)), LogView::LoadingRuns));
    assert!(matches!(log_view(false, Some(&st)), LogView::NoNode));
    assert!(matches!(log_view(true, None), LogView::NoRuns));
    st.apply_run_list(Ok(vec![run("r1"), run("r2")]));
    assert!(matches!(log_view(true, Some(&st)), LogView::Runs));
    st.select_run("r2");
    assert_eq!(st.selected_run.as_deref(), Some("r2"));
    assert!(matches!(log_view(true, Some(&st)), LogView::LoadingEntries));
    st.apply_entries(Ok(vec![]));
    assert!(matches!(log_view(true, Some(&st)), LogView::NoEntries));
    st.select_run("r1");
    st.apply_entries(Ok(vec![LogLine { timestamp: "1".into(), event_type: "AgentStart".into(), summary: "go".into() }]));
    assert!(matches!(log_view(true, Some(&st)), LogView::Entries));
    st.apply_entries(Err("gone".into()));
    assert_eq!(st.entries.len(), 1);
    assert_eq!(st.error.as_deref(), Some("gone"));
    st.back_to_list();
    assert!(matches!(log_view(true, Some(&st)), LogView::Runs));
}

#[test]
fn failed_run_list_keeps_nothing_listed() {
    let mut st = LogViewerState::loading();
    st.apply_run_list(Err("no logs".into()));
    assert!(!st.loading);
    assert_eq!(st.error.as_deref(), Some("no logs"));
    assert!(matches!(log_view(true, Some(&st)), LogView::NoRuns));
}

#[test]
fn stale_answers_are_recognised() {
    assert!(still_current(Some("n1"), "n1"));
    assert!(!still_current(Some("n2"), "n1"));
    assert!(!still_current(None, "n1"));
}

#[test]
fn run_ids_and_event_colors() {
    assert_eq!(short_run_id("short-id"), "short-id");
    assert_eq!(short_run_id("123456789012"), "123456789012");
    assert_eq!(short_run_id("1234567890123"), "123456789...");
    assert_eq!(log_event_color("AgentStart"), "#40c040");
    assert_eq!(log_event_color("ToolCallComplete"), "#c0c040");
    assert_eq!(log_event_color("AgentAborted"), "#c04040");
    assert_eq!(log_event_color("ThinkingDelta"), "#e0e0e0");
}

#[test]
fn mcp_loading_ends_with_the_fifth_answer() {
    let mut st = McpPanelState::new();
    assert_eq!(mcp_view(true, Some(&st)), McpView::Loading);
    st.apply_list(McpList::Servers, Ok(vec![obj(vec![("name", s("fs"))])]));
    st.apply_list(McpList::Tools, Err("tools failed".into()));
    st.apply_list(McpList::Prompts, Ok(vec![]));
    st.apply_list(McpList::Resources, Ok(vec![s("r")]));
    assert!(st.loading);
    assert!(st.error.is_none());
    st.apply_list(McpList::ResourceTemplates, Ok(vec![]));
    assert!(!st.loading);
    assert_eq!(st.servers.len(), 1);
    assert_eq!(st.resources.len(), 1);
    assert_eq!(mcp_view(true, Some(&st)), McpView::Tabs);
    assert_eq!(mcp_view(false, Some(&st)), McpView::NoNode);
    assert_eq!(mcp_view(true, None), McpView::Loading);
}

#[test]
fn a_server_failure_is_shown() {
    let mut st = McpPanelState::new();
    st.apply_list(McpList::Servers, Err("refused".into()));
    assert_eq!(st.error.as_deref(), Some("refused"));
    assert!(!servers_empty(&st));
    st.apply_reconnect_servers(Ok(vec![]));
    assert!(st.error.is_none());
    assert!(servers_empty(&st));
    st.apply_reconnect_tools(Ok(vec![s("t")]));
    assert_eq!(st.tools.len(), 1);
    st.apply_reconnect_tools(Err("x".into()));
    assert_eq!(st.tools.len(), 1);
}

#[test]
fn reconnect_refetches_only_when_reconnected_on_the_same_node() {
    assert!(reconnect_refetches(&Ok(true), true));
    assert!(!reconnect_refetches(&Ok(false), true));
    assert!(!reconnect_refetches(&Ok(true), false));
    assert!(!reconnect_refetches(&Err("e".into()), true));
}

#[test]
fn server_status_display() {
    assert_eq!(server_status_color("connected"), "#40c040");
    assert_eq!(server_status_color("connecting"), "#f0c040");
    assert_eq!(server_status_color("disconnected"), "#888");
    assert_eq!(server_status_color("failed"), "#c04040");
    assert!(!shows_reconnect("connected"));
    assert!(!shows_reconnect("connecting"));
    assert!(shows_reconnect("disconnected"));
}

#[test]
fn form_defaults_follow_the_schema() {
    let schema = obj(vec![
        ("type", s("object")),
        (
            "properties",
            obj(vec![
                ("path", obj(vec![("type", s("string"))])),
                ("count", obj(vec![("type", s("integer"))])),
                ("ratio", obj(vec![("type", s("number"))])),
                ("force", obj(vec![("type", s("boolean"))])),
                ("mode", obj(vec![("type", s("string")), ("default", s("fast"))])),
                ("nested", obj(vec![("type", s("object")), ("properties", obj(vec![("x", obj(vec![("type", s("boolean"))]))]))])),
                ("any", obj(vec![])),
            ]),
        ),
    ]);
    let expected = obj(vec![
        ("path", s("")),
        ("count", Json::Number(JsonNumber::PosInt(0))),
        ("ratio", Json::Number(JsonNumber::PosInt(0))),
        ("force", Json::Bool(false)),
        ("mode", s("fast")),
        ("nested", obj(vec![("x", Json::Bool(false))])),
        ("any", Json::Null),
    ]);
    assert_eq!(build_form_defaults(schema), expected);
    assert_eq!(build_form_defaults(obj(vec![("type", s("object"))])), obj(vec![]));
    assert_eq!(build_form_defaults(Json::Null), obj(vec![]));
    assert_eq!(build_form_defaults(obj(vec![("properties", s("oops"))])), obj(vec![]));
}

#[test]
fn tool_dialog_runs_a_tool() {
    let mut d = SystemToolDialogState::new();
    assert!(!d.open);
    d.open_for("bash".into(), Some("run a command".into()), Some(obj(vec![])));
    assert!(d.open && d.tool_name == "bash");
    d.begin_execute();
    assert!(d.loading && d.result.is_none() && d.error.is_none());
    d.finish_execute(Ok("done".into()));
    assert_eq!(d.result.as_deref(), Some("done"));
    assert!(!d.loading);
    d.begin_execute();
    d.finish_execute(Err("boom".into()));
    assert_eq!(d.error.as_deref(), Some("boom"));
    assert!(d.result.is_none());
    d.open_for("ls".into(), None, None);
    assert!(d.error.is_none());
    d.close();
    assert!(!d.open);
    assert_eq!(d.tool_name, "ls");
}

#[test]
fn tool_output_reads_result_content() {
    let reply = obj(vec![("result", obj(vec![("content", s("hello"))]))]);
    assert_eq!(tool_output(&reply).as_deref(), Some("hello"));
    assert!(tool_output(&obj(vec![("result", s("x"))])).is_none());
    assert!(tool_output(&Json::Null).is_none());
}

#[test]
fn ws_url_follows_the_page_host() {
    assert_eq!(ws_url_for_host(Some("example.org")), "ws://example.org:3001/ws");
    assert_eq!(ws_url_for_host(None), "ws://localhost:3001");
}
