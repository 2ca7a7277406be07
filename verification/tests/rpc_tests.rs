use vol_llm::json::{Json, JsonNumber};
use vol_llm::rpc::{
    agent_status_reply, file_read_reply, items_reply, mcp_call_tool_reply, mcp_read_resource_reply,
    mcp_reconnect_reply, session_entries_reply, session_list_reply, session_resume_reply, skill_get_reply,
    skill_refresh_reply, tool_call_reply, ConnectionState, DpConnectionPool, Incoming, JsonRpcClient, RpcMethod,
    SendStep,
};

fn s(x: &str) -> Json {
    Json::Str(x.to_string())
}

fn obj(members: Vec<(&str, Json)>) -> Json {
    Json::Object(members.into_iter().map(|(k, v)| (k.to_string(), v)).collect())
}

fn num(n: u64) -> Json {
    Json::Number(JsonNumber::PosInt(n))
}

#[test]
fn new_client_is_connecting_with_first_id_one() {
    let mut c = JsonRpcClient::new("ws://localhost:3001");
    assert_eq!(c.state(), ConnectionState::Connecting);
    assert_eq!(c.url(), "ws://localhost:3001");
    assert_eq!(c.alloc_id(), 1);
    assert_eq!(c.alloc_id(), 2);
}

#[test]
fn ids_wrap_around() {
    let mut c = JsonRpcClient::new("u");
    c.next_id = u64::MAX;
    assert_eq!(c.alloc_id(), u64::MAX);
    assert_eq!(c.alloc_id(), 0);
}

#[test]
fn send_depends_on_ready_state() {
    let mut c = JsonRpcClient::new("u");
    assert!(matches!(c.send_raw(0, "a".to_string()), SendStep::Queued));
    assert!(matches!(c.send_raw(0, "b".to_string()), SendStep::Queued));
    match c.send_raw(1, "c".to_string()) {
        SendStep::Transmit(m) => assert_eq!(m, "c"),
        other => panic!("unexpected {other:?}"),
    }
    match c.send_raw(3, "d".to_string()) {
        SendStep::Refused(e) => assert_eq!(e, "WebSocket not connected"),
        other => panic!("unexpected {other:?}"),
    }
    let flushed = c.on_open();
    assert_eq!(flushed, vec!["a".to_string(), "b".to_string()]);
    assert_eq!(c.state(), ConnectionState::Connected);
    assert!(c.send_queue.is_empty());
    c.on_close();
    assert_eq!(c.state(), ConnectionState::Disconnected);
    c.reconnect();
    assert_eq!(c.state(), ConnectionState::Connecting);
}

#[test]
fn submit_frames_a_json_rpc_request() {
    let mut c = JsonRpcClient::new("u");
    let (id, msg) = c.submit("hello", Some("agent-1"));
    assert_eq!(id, 1);
    assert_eq!(
        msg,
        obj(vec![
            ("jsonrpc", s("2.0")),
            ("method", s("agent.submit")),
            ("params", obj(vec![("input", s("hello")), ("target", s("agent-1"))])),
            ("id", num(1)),
        ])
    );
    let (id2, msg2) = c.submit("again", None);
    assert_eq!(id2, 2);
    assert_eq!(
        msg2,
        obj(vec![
            ("jsonrpc", s("2.0")),
            ("method", s("agent.submit")),
            ("params", obj(vec![("input", s("again"))])),
            ("id", num(2)),
        ])
    );
}

#[test]
fn method_names_and_params() {
    let mut c = JsonRpcClient::new("u");
    let (_, m) = c.file_list("/tmp");
    assert_eq!(m, obj(vec![
        ("jsonrpc", s("2.0")),
        ("method", s("file.list")),
        ("params", obj(vec![("path", s("/tmp"))])),
        ("id", num(1)),
    ]));
    let (_, m) = c.session_list(None);
    assert_eq!(m, obj(vec![
        ("jsonrpc", s("2.0")),
        ("method", s("session.list")),
        ("params", obj(vec![])),
        ("id", num(2)),
    ]));
    let (_, m) = c.tool_call("bash", obj(vec![("command", s("ls"))]));
    assert_eq!(m, obj(vec![
        ("jsonrpc", s("2.0")),
        ("method", s("tool.call")),
        ("params", obj(vec![("tool_name", s("bash")), ("arguments", obj(vec![("command", s("ls"))]))])),
        ("id", num(3)),
    ]));
    assert_eq!(RpcMethod::McpListResourceTemplates.name(), "mcp.list_resource_templates");
    assert_eq!(RpcMethod::Subscribe.name(), "agent.subscribe");
}

#[test]
fn agent_event_notifications_are_delivered() {
    let mut c = JsonRpcClient::new("u");
    let r = c.handle_message(r#"{"jsonrpc":"2.0","method":"agent.event","params":{"run_id":"r1","event":{"ThinkingStart":{}}}}"#);
    match r {
        Incoming::Event(p) => assert_eq!(p.get("run_id"), Some(&s("r1"))),
        other => panic!("unexpected {other:?}"),
    }
}

#[test]
fn replies_go_to_the_pending_request_once() {
    let mut c = JsonRpcClient::new("u");
    let (id, _) = c.file_read("a.txt");
    c.expect_reply(id, RpcMethod::FileRead);
    let text = format!(r#"{{"jsonrpc":"2.0","id":{id},"result":{{"content":"hi"}}}}"#);
    match c.handle_message(&text) {
        Incoming::Reply { id: rid, method, payload } => {
            assert_eq!(rid, id);
            assert_eq!(method, RpcMethod::FileRead);
            assert_eq!(file_read_reply(&payload), Ok("hi".to_string()));
        }
        other => panic!("unexpected {other:?}"),
    }
    assert!(matches!(c.handle_message(&text), Incoming::Ignored));
    assert!(c.pending.is_empty());
}

#[test]
fn error_replies_deliver_the_error_and_garbage_is_ignored() {
    let mut c = JsonRpcClient::new("u");
    c.expect_reply(7, RpcMethod::ToolCall);
    match c.handle_message(r#"{"id":7,"error":{"message":"boom"}}"#) {
        Incoming::Reply { payload, .. } => {
            assert_eq!(tool_call_reply(&payload).map(|_| ()), Ok(()));
        }
        other => panic!("unexpected {other:?}"),
    }
    assert!(matches!(c.handle_message("not json"), Incoming::Ignored));
    assert!(matches!(c.handle_message(r#"{"id":99,"result":1}"#), Incoming::Ignored));
}

#[test]
fn reply_decoders() {
    let files = obj(vec![("entries", Json::Array(vec![s("x")]))]);
    assert_eq!(items_reply(&files, "entries").unwrap().len(), 1);
    assert_eq!(items_reply(&obj(vec![]), "agents").unwrap_err(), "no agents in response");
    assert_eq!(file_read_reply(&obj(vec![("error", s("nope"))])), Err("nope".to_string()));
    assert_eq!(file_read_reply(&obj(vec![])), Err("no content in response".to_string()));
    assert_eq!(agent_status_reply(&obj(vec![])), ("idle".to_string(), None));
    assert_eq!(
        agent_status_reply(&obj(vec![("status", s("running")), ("run_id", s("r9"))])),
        ("running".to_string(), Some("r9".to_string()))
    );
    assert_eq!(mcp_call_tool_reply(&obj(vec![("error", obj(vec![]))])), Err("unknown error".to_string()));
    assert_eq!(mcp_call_tool_reply(&obj(vec![("result", s("ok"))])), Ok("ok".to_string()));
    assert_eq!(mcp_read_resource_reply(&obj(vec![])), Err("no content in response".to_string()));
    assert!(mcp_reconnect_reply(&obj(vec![("success", Json::Bool(true))])));
    assert!(!mcp_reconnect_reply(&obj(vec![])));
    assert_eq!(skill_refresh_reply(&obj(vec![("discovered", num(4))])), Ok(4));
    assert_eq!(skill_refresh_reply(&obj(vec![])), Err("no discovered count in response".to_string()));
    let whole = obj(vec![("name", s("sk"))]);
    assert_eq!(skill_get_reply(&whole), Ok(&whole));
    let nested = obj(vec![("skill", s("inner"))]);
    assert_eq!(skill_get_reply(&nested), Ok(&s("inner")));
    assert_eq!(
        session_entries_reply(&obj(vec![("error", obj(vec![]))])).unwrap_err(),
        "unknown RPC error"
    );
    assert_eq!(session_entries_reply(&obj(vec![])).unwrap_err(), "no entries in response");
}

#[test]
fn session_list_skips_items_without_id_or_time() {
    let reply = obj(vec![(
        "sessions",
        Json::Array(vec![
            obj(vec![("id", s("a")), ("entry_count", num(3)), ("created_at", num(100))]),
            obj(vec![("id", s("b"))]),
            obj(vec![("id", s("c")), ("created_at", Json::Number(JsonNumber::NegInt(-5)))]),
        ]),
    )]);
    let list = session_list_reply(&reply).unwrap();
    assert_eq!(list.len(), 2);
    assert_eq!((list[0].id.as_str(), list[0].entry_count, list[0].created_at), ("a", 3, 100));
    assert_eq!((list[1].id.as_str(), list[1].entry_count, list[1].created_at), ("c", 0, -5));
    assert_eq!(session_list_reply(&obj(vec![])).unwrap_err(), "no sessions in response");
}

#[test]
fn session_resume_needs_a_session_id() {
    assert_eq!(session_resume_reply(&obj(vec![])).unwrap_err(), "no session_id in response");
    let reply = obj(vec![("session_id", s("s1"))]);
    let r = session_resume_reply(&reply).unwrap();
    assert_eq!(r.0, "s1");
    assert_eq!(r.1, 0);
    assert!(r.2.is_none());
}

#[test]
fn connection_pool_creates_once_per_node() {
    let mut pool = DpConnectionPool::new();
    let (c, created) = pool.get_or_create("n1", "ws://a", vec!["x".to_string()]);
    assert!(created);
    assert_eq!(c.ws_url, "ws://a");
    let (c2, created2) = pool.get_or_create("n1", "ws://b", vec![]);
    assert!(!created2);
    assert_eq!(c2.ws_url, "ws://a");
    assert!(pool.contains("n1"));
    assert!(pool.get("n2").is_none());
    assert_eq!(pool.connections().len(), 1);
}

fn frame(method: &str, params: Json, id: u64) -> Json {
    obj(vec![("jsonrpc", s("2.0")), ("method", s(method)), ("params", params), ("id", num(id))])
}

#[test]
fn every_builder_frames_its_method() {
    let mut c = JsonRpcClient::new("u");
    assert_eq!(c.agent_list().1, frame("agent.list", obj(vec![]), 1));
    assert_eq!(c.agent_status("a1").1, frame("agent.status", obj(vec![("agent_id", s("a1"))]), 2));
    assert_eq!(c.session_entries("s").1, frame("session.entries", obj(vec![("session_id", s("s"))]), 3));
    assert_eq!(
        c.session_resume("s", Some("a")).1,
        frame("session.resume", obj(vec![("session_id", s("s")), ("agent_id", s("a"))]), 4)
    );
    assert_eq!(c.session_resume("s", None).1, frame("session.resume", obj(vec![("session_id", s("s"))]), 5));
    assert_eq!(c.mcp_list_servers().1, frame("mcp.list_servers", obj(vec![]), 6));
    assert_eq!(c.mcp_list_tools(Some("fs")).1, frame("mcp.list_tools", obj(vec![("server", s("fs"))]), 7));
    assert_eq!(c.mcp_list_resources(None).1, frame("mcp.list_resources", obj(vec![]), 8));
    assert_eq!(c.mcp_list_resource_templates(None).1, frame("mcp.list_resource_templates", obj(vec![]), 9));
    assert_eq!(c.mcp_read_resource("file://x").1, frame("mcp.read_resource", obj(vec![("uri", s("file://x"))]), 10));
    assert_eq!(c.mcp_list_prompts(Some("p")).1, frame("mcp.list_prompts", obj(vec![("server", s("p"))]), 11));
    assert_eq!(c.mcp_reconnect("fs").1, frame("mcp.reconnect", obj(vec![("server", s("fs"))]), 12));
    assert_eq!(c.skill_list().1, frame("skill.list", obj(vec![]), 13));
    assert_eq!(c.skill_get("sk").1, frame("skill.get", obj(vec![("name", s("sk"))]), 14));
    assert_eq!(c.skill_refresh().1, frame("skill.refresh", obj(vec![]), 15));
    assert_eq!(c.tool_list().1, frame("tool.list", obj(vec![]), 16));
    assert_eq!(
        c.mcp_call_tool("fs", "read", obj(vec![])).1,
        frame(
            "mcp.call_tool",
            obj(vec![("server", s("fs")), ("tool_name", s("read")), ("arguments", obj(vec![]))]),
            17
        )
    );
    assert_eq!(c.file_read("a.txt").1, frame("file.read", obj(vec![("path", s("a.txt"))]), 18));
}

#[test]
fn parsed_replies_are_matched_to_their_request() {
    let mut c = JsonRpcClient::new("u");
    let (id, _) = c.agent_list();
    c.expect_reply(id, RpcMethod::AgentList);
    let reply = obj(vec![("jsonrpc", s("2.0")), ("id", num(id)), ("result", obj(vec![("agents", Json::Array(vec![]))]))]);
    match c.handle_parsed(Some(reply)) {
        Incoming::Reply { id: got, method, payload } => {
            assert_eq!(got, id);
            assert_eq!(method, RpcMethod::AgentList);
            assert_eq!(payload, obj(vec![("agents", Json::Array(vec![]))]));
        }
        other => panic!("unexpected {other:?}"),
    }
    assert!(matches!(c.handle_parsed(None), Incoming::Ignored));
    let again = obj(vec![("id", num(id)), ("result", Json::Null)]);
    assert!(matches!(c.handle_parsed(Some(again)), Incoming::Ignored));
}
