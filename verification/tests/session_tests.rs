use vol_llm::conversation::ConversationEntry;
use vol_llm::json::Json;
use vol_llm::sessions::{
    format_age, format_age_ms, session_entries_to_conversation, truncate_for_log, truncate_id, truncate_lines,
    SessionEntry,
};

fn s(x: &str) -> Json {
    Json::Str(x.to_string())
}

fn obj(members: Vec<(&str, Json)>) -> Json {
    Json::Object(members.into_iter().map(|(k, v)| (k.to_string(), v)).collect())
}

fn entry(kind: &str, data: Json) -> SessionEntry {
    SessionEntry {
        id: "e".to_string(),
        session_id: "s".to_string(),
        created_at: 42,
        parent_id: None,
        entry_type: kind.to_string(),
        data,
    }
}

fn message(role: &str, content: Json) -> Json {
    obj(vec![("message", obj(vec![("message", obj(vec![("message", obj(vec![("role", s(role)), ("content", content)]))]))]))])
}

#[test]
fn messages_become_timeline_entries() {
    let entries = vec![
        entry("message", message("user", s("hi"))),
        entry(
            "message",
            message("assistant", Json::Array(vec![obj(vec![("text", s("a"))]), obj(vec![("type", s("image"))]), obj(vec![])])),
        ),
        entry("message", message("tool", s("result"))),
        entry("message", message("system", s("ignored"))),
        entry("checkpoint", obj(vec![("checkpoint", obj(vec![("note", s("n"))]))])),
        entry("summary", obj(vec![])),
        entry("other", obj(vec![])),
        entry("message", obj(vec![])),
    ];
    let conv = session_entries_to_conversation(entries);
    assert_eq!(conv.len(), 5);
    assert!(matches!(&conv[0], ConversationEntry::UserInput { text } if text == "hi"));
    assert!(matches!(&conv[1], ConversationEntry::AgentAnswer { text } if text == "a\nimage"));
    assert!(matches!(&conv[2], ConversationEntry::ToolResult { tool_name, preview, success: true, .. }
        if tool_name == "tool" && preview == "result"));
    assert!(matches!(&conv[3], ConversationEntry::EntryCheckpoint { reason, note: Some(n), created_at: 42 }
        if reason == "Checkpoint" && n == "n"));
    assert!(matches!(&conv[4], ConversationEntry::RunSummary { iterations: 0, tool_calls: 0, elapsed_ms: 0 }));
}

#[test]
fn ages_in_seconds_minutes_hours_days() {
    assert_eq!(format_age(100, 130), "30s ago");
    assert_eq!(format_age(0, 120), "2m ago");
    assert_eq!(format_age(0, 7200), "2h ago");
    assert_eq!(format_age(0, 3 * 86400 + 5), "3d ago");
    assert_eq!(format_age(500, 100), "0s ago");
    assert_eq!(format_age_ms(0, 61_000), "1m ago");
    assert_eq!(format_age_ms(5_000, 1_000), "0s ago");
}

#[test]
fn ids_and_log_text_are_cut_by_bytes() {
    assert_eq!(truncate_id("0123456789abcdef"), "0123456789ab...");
    assert_eq!(truncate_id("short"), "short");
    assert_eq!(truncate_for_log("abcdef", 3), "abc...");
    assert_eq!(truncate_for_log("abc", 3), "abc");
}

#[test]
fn previews_keep_first_lines_and_cut_long_text() {
    assert_eq!(truncate_lines("a\nb\nc", 2, 90), "a\nb");
    assert_eq!(truncate_lines("a\r\nb\n", 6, 90), "a\nb");
    assert_eq!(truncate_lines("abcdefghij", 6, 8), "abcde...");
    assert_eq!(truncate_lines("abcdefghij", 6, 2), "...");
    assert_eq!(truncate_lines("", 6, 90), "");
}
