use vol_llm::labels::{duration_suffix, node_status_class, skill_scope_color, tool_status_class};
use vol_llm::conversation::{
    find_tool_detail, format_tool_args, reduce_conversation, reduce_entries, set_entries, truncate_preview,
    ConversationEntry, ConversationState,
};
use vol_llm::events::{agent_event_to_ui, AgentEvent, UiEvent};
use vol_llm::json::{Json, JsonNumber};
use vol_llm::labels::{anchor_badge, format_elapsed, role_color};
use vol_llm::text::{decimal, decimal_i64, take_chars, three_digits, two_digits};
use vol_llm::tools::{arg_preview, reduce_tool_state, status_label, ToolCallStatus, ToolState};

fn obj(members: Vec<(&str, Json)>) -> Json {
    Json::Object(members.into_iter().map(|(k, v)| (k.to_string(), v)).collect())
}

fn s(x: &str) -> Json {
    Json::Str(x.to_string())
}

fn begin(tool: &str, args: &str) -> UiEvent {
    UiEvent::ToolCallBegin { tool_name: tool.to_string(), arguments: args.to_string() }
}

fn texts(entries: &[ConversationEntry]) -> Vec<String> {
    entries
        .iter()
        .map(|e| match e {
            ConversationEntry::UserInput { text } => format!("user:{text}"),
            ConversationEntry::Thinking { content } => format!("thinking:{content}"),
            ConversationEntry::ContentStreaming { content } => format!("streaming:{content}"),
            ConversationEntry::AgentAnswer { text } => format!("answer:{text}"),
            ConversationEntry::Error { message } => format!("error:{message}"),
            ConversationEntry::RunningBanner { run_id } => format!("banner:{run_id}"),
            ConversationEntry::ToolCall { tool_name, arg_preview, .. } => format!("call:{tool_name}:{arg_preview}"),
            ConversationEntry::ToolResult { tool_name, preview, success, .. } => {
                format!("result:{tool_name}:{preview}:{success}")
            }
            other => format!("{other:?}"),
        })
        .collect()
}

#[test]
fn arg_preview_picks_the_most_telling_member() {
    assert_eq!(arg_preview(r#"{"command":"ls -la"}"#), "Command: ls -la");
    assert_eq!(arg_preview(r#"{"path":"/tmp/x"}"#), "Path: /tmp/x");
    assert_eq!(arg_preview(r#"{"file_path":"a.rs"}"#), "File: a.rs");
    assert_eq!(arg_preview(r#"{"query":"q"}"#), r#"Args: {"query":"q"}"#);
    assert_eq!(arg_preview("not json"), "");
    let long = format!(r#"{{"command":"{}"}}"#, "x".repeat(100));
    assert_eq!(arg_preview(&long), format!("Command: {}...", "x".repeat(77)));
}

#[test]
fn tool_history_settles_the_latest_running_call() {
    let mut st = ToolState::new();
    reduce_tool_state(&mut st, &begin("bash", r#"{"command":"a"}"#));
    reduce_tool_state(&mut st, &begin("bash", r#"{"command":"b"}"#));
    reduce_tool_state(&mut st, &begin("read", r#"{"path":"p"}"#));
    assert_eq!(st.scroll, 3);
    reduce_tool_state(
        &mut st,
        &UiEvent::ToolCallComplete { tool_name: "bash".into(), result: "ok".into(), duration_ms: Some(12) },
    );
    assert_eq!(st.calls[1].status, ToolCallStatus::Success);
    assert_eq!(st.calls[1].duration_ms, Some(12));
    assert_eq!(st.calls[0].status, ToolCallStatus::Running);
    reduce_tool_state(
        &mut st,
        &UiEvent::ToolCallError { tool_name: "read".into(), error: "e".into(), duration_ms: None },
    );
    assert_eq!(st.calls[2].status, ToolCallStatus::Error);
    reduce_tool_state(
        &mut st,
        &UiEvent::ToolCallSkipped { tool_name: "nothing".into(), reason: "r".into(), duration_ms: None },
    );
    assert_eq!(st.calls.len(), 3);
    assert_eq!(st.calls[2].sequence, 3);
    assert_eq!(st.calls[0].arg_preview, "Command: a");
    assert_eq!(status_label(ToolCallStatus::Skipped), "SKIP");
    assert_eq!(status_label(ToolCallStatus::Running), "...");
}

#[test]
fn stream_events_decode_by_their_tag() {
    let ev = AgentEvent { run_id: "r".into(), event: obj(vec![("ContentDelta", obj(vec![("delta", s("hi"))]))]) };
    assert!(matches!(agent_event_to_ui(&ev), Some(UiEvent::ContentDelta { ref delta }) if delta == "hi"));
    let ev = AgentEvent {
        run_id: "r".into(),
        event: obj(vec![(
            "ToolCallComplete",
            obj(vec![
                ("tool_name", s("bash")),
                ("result", s("done")),
                ("duration_ms", Json::Number(JsonNumber::PosInt(5))),
            ]),
        )]),
    };
    match agent_event_to_ui(&ev) {
        Some(UiEvent::ToolCallComplete { tool_name, result, duration_ms }) => {
            assert_eq!((tool_name.as_str(), result.as_str(), duration_ms), ("bash", "done", Some(5)));
        }
        other => panic!("unexpected {other:?}"),
    }
    let ev = AgentEvent { run_id: "r".into(), event: obj(vec![("Unheard", Json::Null)]) };
    assert!(agent_event_to_ui(&ev).is_none());
    let ev = AgentEvent { run_id: "r".into(), event: s("ThinkingStart") };
    assert!(agent_event_to_ui(&ev).is_none());
    let ev = AgentEvent { run_id: "r".into(), event: obj(vec![("ThinkingStart", Json::Null)]) };
    assert!(matches!(agent_event_to_ui(&ev), Some(UiEvent::ThinkingStart)));
}

#[test]
fn a_run_builds_the_timeline() {
    let mut es: Vec<ConversationEntry> = vec![ConversationEntry::RunningBanner { run_id: "r1".into() }];
    reduce_entries(&mut es, &UiEvent::AgentStart { input: "hello".into() });
    reduce_entries(&mut es, &UiEvent::ThinkingStart);
    reduce_entries(&mut es, &UiEvent::ThinkingDelta { delta: "hm".into() });
    reduce_entries(&mut es, &UiEvent::ContentStart);
    reduce_entries(&mut es, &UiEvent::ContentDelta { delta: "Hi ".into() });
    reduce_entries(&mut es, &UiEvent::ContentDelta { delta: "there".into() });
    reduce_entries(&mut es, &UiEvent::AgentComplete { response: "Hi there".into() });
    assert_eq!(texts(&es), vec!["user:hello", "thinking:hm", "answer:Hi there"]);
}

#[test]
fn errors_and_notices_are_appended() {
    let mut es: Vec<ConversationEntry> = Vec::new();
    reduce_entries(&mut es, &UiEvent::MaxIterationsReached { current: 10, max: 10 });
    reduce_entries(&mut es, &UiEvent::IterationContinued { from_iteration: 10 });
    reduce_entries(&mut es, &UiEvent::ContentComplete { content: String::new() });
    reduce_entries(&mut es, &UiEvent::ContentComplete { content: "final".into() });
    reduce_entries(&mut es, &UiEvent::AgentError { message: "bad".into() });
    assert_eq!(
        texts(&es),
        vec![
            "error:Max iterations reached (10/10) — waiting for user decision...",
            "answer:Continuing from iteration 10 (counter reset to 0)",
            "answer:final",
            "error:bad",
        ]
    );
}

#[test]
fn tool_entries_link_calls_and_results() {
    let mut es: Vec<ConversationEntry> = Vec::new();
    let long_result = "r".repeat(250);
    reduce_entries(&mut es, &begin("grep", r#"{"pattern":"x"}"#));
    reduce_entries(&mut es, &begin("ls", "{}"));
    reduce_entries(
        &mut es,
        &UiEvent::ToolCallComplete { tool_name: "grep".into(), result: long_result.clone(), duration_ms: None },
    );
    match &es[2] {
        ConversationEntry::ToolResult { preview, full_result, .. } => {
            assert_eq!(preview.chars().count(), 203);
            assert_eq!(full_result, &long_result);
        }
        other => panic!("unexpected {other:?}"),
    }
    let d = find_tool_detail(&es, 0).unwrap();
    assert_eq!(d.tool_name, "grep");
    assert_eq!(d.result.as_deref(), Some(long_result.as_str()));
    assert_eq!(d.success, Some(true));
    let d = find_tool_detail(&es, 1).unwrap();
    assert!(d.result.is_none() && d.success.is_none());
    let d = find_tool_detail(&es, 2).unwrap();
    assert_eq!(d.arguments, r#"{"pattern":"x"}"#);
}

#[test]
fn conversations_are_kept_per_agent() {
    let mut st = ConversationState::new();
    st.active_agent = Some("a".into());
    reduce_conversation(&mut st, &UiEvent::AgentStart { input: "to a".into() });
    st.active_agent = Some("b".into());
    reduce_conversation(&mut st, &UiEvent::AgentStart { input: "to b".into() });
    assert_eq!(texts(st.active_entries()), vec!["user:to b"]);
    st.active_agent = Some("a".into());
    assert_eq!(texts(st.active_entries()), vec!["user:to a"]);
    set_entries(&mut st, "a", vec![ConversationEntry::Error { message: "x".into() }]);
    assert_eq!(texts(st.active_entries()), vec!["error:x"]);
    assert_eq!(st.get_or_create("b"), 1);
    st.active_agent = None;
    assert!(st.active_entries().is_empty());
}

#[test]
fn previews_are_cut_by_characters() {
    assert_eq!(truncate_preview("héllo", 3), "hél...");
    assert_eq!(truncate_preview("abc", 3), "abc");
    assert_eq!(format_tool_args(&"a".repeat(121)), format!("{}...", "a".repeat(120)));
    assert_eq!(take_chars("äbc", 2), "äb");
}

#[test]
fn number_formats() {
    assert_eq!(decimal(0), "0");
    assert_eq!(decimal(18446744073709551615), "18446744073709551615");
    assert_eq!(decimal_i64(-42), "-42");
    assert_eq!(decimal_i64(i64::MIN), "-9223372036854775808");
    assert_eq!(two_digits(7), "07");
    assert_eq!(two_digits(123), "123");
    assert_eq!(three_digits(5), "005");
    assert_eq!(format_elapsed(3_723_004), "01:02:03.004");
    assert_eq!(format_elapsed(0), "00:00:00.000");
    assert_eq!(format_elapsed(360_000_000), "100:00:00.000");
}

#[test]
fn label_colors() {
    assert_eq!(anchor_badge("head"), "#4080ff");
    assert_eq!(anchor_badge("middle"), "#c0a040");
    assert_eq!(anchor_badge("tail"), "#40c040");
    assert_eq!(anchor_badge("other"), "#888");
    assert_eq!(role_color("system"), "#c080ff");
    assert_eq!(role_color("tool"), "#c0a040");
    assert_eq!(role_color("?"), "#888");
}

#[test]
fn scope_status_and_duration_labels() {
    assert_eq!(skill_scope_color("User"), "#40c040");
    assert_eq!(skill_scope_color("Repo"), "#4080ff");
    assert_eq!(skill_scope_color("System"), "#c0c040");
    assert_eq!(node_status_class("online"), "bg-green-500");
    assert_eq!(node_status_class("offline"), "bg-red-500");
    assert_eq!(tool_status_class(ToolCallStatus::Skipped), "text-[#888]");
    assert_eq!(tool_status_class(ToolCallStatus::Running), "text-[#c0c040]");
    assert_eq!(duration_suffix(Some(42)), " 42ms");
    assert_eq!(duration_suffix(None), "");
}
