//! UI events and their decoding from the agent's stream events.
use vstd::prelude::*;
use crate::json::{Json, member_str, member_str_or, member_u64, as_str, as_u64, json_get, str_or};
use crate::text::str_eq;

verus! {

/// Agent event received from the server subscription: `{ run_id, event }`.
#[derive(Debug)]
pub struct AgentEvent {
    pub run_id: String,
    pub event: Json,
}

/// Events published on the UI event bus.
#[derive(Clone, Debug)]
pub enum UiEvent {
    AgentStart { input: String },
    AgentComplete { response: String },
    AgentAborted { reason: String },
    AgentError { message: String },
    ThinkingStart,
    ThinkingDelta { delta: String },
    ThinkingComplete,
    ContentStart,
    ContentDelta { delta: String },
    ContentComplete { content: String },
    ToolCallBegin { tool_name: String, arguments: String },
    ToolCallArgumentDelta { delta: String },
    ToolCallComplete { tool_name: String, result: String, duration_ms: Option<u64> },
    ToolCallError { tool_name: String, error: String, duration_ms: Option<u64> },
    ToolCallSkipped { tool_name: String, reason: String, duration_ms: Option<u64> },
    ApprovalRequest { tool_name: String, reason: String, arguments: String },
    ApprovalResolved { approved: bool },
    MaxIterationsReached { current: u32, max: u32 },
    IterationContinued { from_iteration: u32 },
    IterationComplete { iteration: u32, final_answer: Option<String> },
    WsConnected,
    WsConnecting,
    WsDisconnected { reason: Option<String> },
    WsReconnecting { attempt: u32, delay_secs: u32 },
    WsReconnectFailed,
    WsReconnected,
}

/// The first member of an object value: the stream event is externally tagged,
/// `{"VariantName": {...fields}}`.
pub open spec fn first_member(v: Json) -> Option<(String, Json)> {
    match v {
        Json::Object(fields) => if fields@.len() > 0 {
            Some(fields@[0])
        } else {
            None
        },
        _ => None,
    }
}

/// Text member of the event data, empty when absent.
pub open spec fn text(data: Json, key: Seq<char>) -> Seq<char> {
    str_or(json_get(data, key), Seq::empty())
}

/// Integer member of the event data, 0 when absent, truncated to 32 bits.
pub open spec fn count32(data: Json, key: Seq<char>) -> u32 {
    (match as_u64(json_get(data, key)) {
        Some(n) => n,
        None => 0u64,
    }) as u32
}

/// Optional text as a view.
pub open spec fn opt_view(s: Option<String>) -> Option<Seq<char>> {
    match s {
        Some(x) => Some(x@),
        None => None,
    }
}

/// Whether `r` is the UI event for the tool-call variants (`name`) of the stream event `data`.
pub open spec fn decodes_tool_call(name: Seq<char>, data: Json, r: Option<UiEvent>) -> bool {
    if name == "ToolCallBegin"@ {
        r matches Some(UiEvent::ToolCallBegin { tool_name, arguments }) && tool_name@ == text(data, "tool_name"@)
            && arguments@ == text(data, "arguments"@)
    } else if name == "ToolCallArgumentDelta"@ {
        r matches Some(UiEvent::ToolCallArgumentDelta { delta }) && delta@ == text(data, "delta"@)
    } else if name == "ToolCallComplete"@ {
        r matches Some(UiEvent::ToolCallComplete { tool_name, result, duration_ms }) && tool_name@ == text(data, "tool_name"@)
            && result@ == text(data, "result"@) && duration_ms == as_u64(json_get(data, "duration_ms"@))
    } else if name == "ToolCallError"@ {
        r matches Some(UiEvent::ToolCallError { tool_name, error, duration_ms }) && tool_name@ == text(data, "tool_name"@)
            && error@ == text(data, "error"@) && duration_ms == as_u64(json_get(data, "duration_ms"@))
    } else if name == "ToolCallSkipped"@ {
        r matches Some(UiEvent::ToolCallSkipped { tool_name, reason, duration_ms }) && tool_name@ == text(data, "tool_name"@)
            && reason@ == text(data, "reason"@) && duration_ms == as_u64(json_get(data, "duration_ms"@))
    } else if name == "MaxIterationsReached"@ {
        r matches Some(UiEvent::MaxIterationsReached { current, max }) && current == count32(data, "current_iteration"@)
            && max == count32(data, "max_iterations"@)
    } else if name == "IterationContinued"@ {
        r matches Some(UiEvent::IterationContinued { from_iteration }) && from_iteration == count32(data, "from_iteration"@)
    } else if name == "IterationComplete"@ {
        r matches Some(UiEvent::IterationComplete { iteration, final_answer }) && iteration == count32(data, "iteration"@)
            && opt_view(final_answer) == as_str(json_get(data, "final_answer"@))
    } else {
        r is None
    }
}

/// Whether `r` is the UI event that the stream event `ev` decodes to.
pub open spec fn decodes_to(ev: Json, r: Option<UiEvent>) -> bool {
    match first_member(ev) {
        None => r is None,
        Some((key, data)) => {
            let name = key@;
            if name == "AgentStart"@ {
                r matches Some(UiEvent::AgentStart { input }) && input@ == text(data, "input"@)
            } else if name == "AgentComplete"@ {
                r matches Some(UiEvent::AgentComplete { response }) && response@ == text(data, "response"@)
            } else if name == "AgentAborted"@ {
                r matches Some(UiEvent::AgentAborted { reason }) && reason@ == text(data, "reason"@)
            } else if name == "ThinkingStart"@ {
                r matches Some(UiEvent::ThinkingStart)
            } else if name == "ThinkingDelta"@ {
                r matches Some(UiEvent::ThinkingDelta { delta }) && delta@ == text(data, "delta"@)
            } else if name == "ThinkingComplete"@ {
                r matches Some(UiEvent::ThinkingComplete)
            } else if name == "ContentStart"@ {
                r matches Some(UiEvent::ContentStart)
            } else if name == "ContentDelta"@ {
                r matches Some(UiEvent::ContentDelta { delta }) && delta@ == text(data, "delta"@)
            } else if name == "ContentComplete"@ {
                r matches Some(UiEvent::ContentComplete { content }) && content@ == text(data, "content"@)
            } else {
                decodes_tool_call(name, data, r)
            }
        },
    }
}

fn text_of(data: &Json, key: &str) -> (r: String)
    ensures
        r@ == text(*data, key@),
{
    proof {
        reveal_strlit("");
    }
    member_str_or(data, key, "")
}

fn count32_of(data: &Json, key: &str) -> (r: u32)
    ensures
        r == count32(*data, key@),
{
    let n: u64 = match member_u64(data, key) {
        Some(n) => n,
        None => 0,
    };
    n as u32
}

fn decode_tool_call(name: &str, data: &Json) -> (r: Option<UiEvent>)
    ensures
        decodes_tool_call(name@, *data, r),
{
    if str_eq(name, "ToolCallBegin") {
        Some(UiEvent::ToolCallBegin { tool_name: text_of(data, "tool_name"), arguments: text_of(data, "arguments") })
    } else if str_eq(name, "ToolCallArgumentDelta") {
        Some(UiEvent::ToolCallArgumentDelta { delta: text_of(data, "delta") })
    } else if str_eq(name, "ToolCallComplete") {
        Some(UiEvent::ToolCallComplete {
            tool_name: text_of(data, "tool_name"),
            result: text_of(data, "result"),
            duration_ms: member_u64(data, "duration_ms"),
        })
    } else if str_eq(name, "ToolCallError") {
        Some(UiEvent::ToolCallError {
            tool_name: text_of(data, "tool_name"),
            error: text_of(data, "error"),
            duration_ms: member_u64(data, "duration_ms"),
        })
    } else if str_eq(name, "ToolCallSkipped") {
        Some(UiEvent::ToolCallSkipped {
            tool_name: text_of(data, "tool_name"),
            reason: text_of(data, "reason"),
            duration_ms: member_u64(data, "duration_ms"),
        })
    } else if str_eq(name, "MaxIterationsReached") {
        Some(UiEvent::MaxIterationsReached {
            current: count32_of(data, "current_iteration"),
            max: count32_of(data, "max_iterations"),
        })
    } else if str_eq(name, "IterationContinued") {
        Some(UiEvent::IterationContinued { from_iteration: count32_of(data, "from_iteration") })
    } else if str_eq(name, "IterationComplete") {
        Some(UiEvent::IterationComplete {
            iteration: count32_of(data, "iteration"),
            final_answer: member_str(data, "final_answer"),
        })
    } else {
        None
    }
}

/// Decode a stream event into the UI event it stands for; `None` for variants the
/// UI does not show and for values that are not tagged objects.
pub fn agent_event_to_ui(event: &AgentEvent) -> (r: Option<UiEvent>)
    ensures
        decodes_to(event.event, r),
{
    let fields = match &event.event {
        Json::Object(fields) => fields,
        _ => {
            return None;
        },
    };
    if fields.len() == 0 {
        return None;
    }
    let name = fields[0].0.as_str();
    let data = &fields[0].1;
    if str_eq(name, "AgentStart") {
        Some(UiEvent::AgentStart { input: text_of(data, "input") })
    } else if str_eq(name, "AgentComplete") {
        Some(UiEvent::AgentComplete { response: text_of(data, "response") })
    } else if str_eq(name, "AgentAborted") {
        Some(UiEvent::AgentAborted { reason: text_of(data, "reason") })
    } else if str_eq(name, "ThinkingStart") {
        Some(UiEvent::ThinkingStart)
    } else if str_eq(name, "ThinkingDelta") {
        Some(UiEvent::ThinkingDelta { delta: text_of(data, "delta") })
    } else if str_eq(name, "ThinkingComplete") {
        Some(UiEvent::ThinkingComplete)
    } else if str_eq(name, "ContentStart") {
        Some(UiEvent::ContentStart)
    } else if str_eq(name, "ContentDelta") {
        Some(UiEvent::ContentDelta { delta: text_of(data, "delta") })
    } else if str_eq(name, "ContentComplete") {
        Some(UiEvent::ContentComplete { content: text_of(data, "content") })
    } else {
        decode_tool_call(name, data)
    }
}

} // verus!
