//! Tool call history: the reducer that tracks tool calls from UI events.
use vstd::prelude::*;
use crate::events::UiEvent;
use crate::json::{Json, as_str, json_get, opt_get, parse_json, spec_parse_json};
use crate::text::{char_count, concat2, str_eq, take_chars};

verus! {

/// Status of a tool call.
#[derive(Clone, Copy, Debug, PartialEq, Eq, Structural)]
pub enum ToolCallStatus {
    Running,
    Success,
    Error,
    Skipped,
}

/// One tool call in the history.
#[derive(Debug)]
pub struct ToolCallEntry {
    pub sequence: u32,
    pub tool_name: String,
    pub arg_preview: String,
    pub status: ToolCallStatus,
    pub duration_ms: Option<u64>,
}

/// The tool call history and its scroll position.
#[derive(Debug)]
pub struct ToolState {
    pub calls: Vec<ToolCallEntry>,
    pub scroll: u16,
}

impl ToolState {
    /// An empty history.
    pub fn new() -> (s: Self)
        ensures
            s.calls@.len() == 0,
            s.scroll == 0,
    {
        ToolState { calls: Vec::new(), scroll: 0 }
    }
}

/// Short label of a tool call status.
pub fn status_label(status: ToolCallStatus) -> (label: &'static str)
    ensures
        status == ToolCallStatus::Running ==> label@ == "..."@,
        status == ToolCallStatus::Success ==> label@ == "OK"@,
        status == ToolCallStatus::Error ==> label@ == "ERR"@,
        status == ToolCallStatus::Skipped ==> label@ == "SKIP"@,
{
    match status {
        ToolCallStatus::Running => "...",
        ToolCallStatus::Success => "OK",
        ToolCallStatus::Error => "ERR",
        ToolCallStatus::Skipped => "SKIP",
    }
}

/// `text` if it has at most 80 characters, otherwise its first 77 followed by `...`.
pub open spec fn clip80(text: Seq<char>) -> Seq<char> {
    if text.len() > 80 {
        text.take(77) + "..."@
    } else {
        text
    }
}

/// One-line preview of tool arguments given their JSON reading (`None` when the
/// arguments are not valid JSON).
pub open spec fn spec_arg_preview(arguments: Seq<char>, parsed: Option<Json>) -> Seq<char> {
    match parsed {
        None => Seq::empty(),
        Some(v) => match as_str(json_get(v, "command"@)) {
            Some(c) => "Command: "@ + clip80(c),
            None => match as_str(json_get(v, "path"@)) {
                Some(p) => "Path: "@ + p,
                None => match as_str(json_get(v, "file_path"@)) {
                    Some(f) => "File: "@ + f,
                    None => "Args: "@ + clip80(arguments),
                },
            },
        },
    }
}

fn clip80_exec(text: &str) -> (r: String)
    ensures
        r@ == clip80(text@),
{
    if char_count(text) > 80 {
        let head = take_chars(text, 77);
        concat2(head.as_str(), "...")
    } else {
        text.to_owned()
    }
}

/// Preview of the arguments from their JSON reading.
pub fn arg_preview_from(arguments: &str, parsed: Option<&Json>) -> (r: String)
    ensures
        r@ == spec_arg_preview(arguments@, match parsed { Some(v) => Some(*v), None => None }),
{
    match parsed {
        None => String::new(),
        Some(v) => {
            match v.get("command") {
                Some(c) => match c.as_str() {
                    Some(c) => {
                        let clipped = clip80_exec(c);
                        return concat2("Command: ", clipped.as_str());
                    },
                    None => {},
                },
                None => {},
            }
            match v.get("path") {
                Some(p) => match p.as_str() {
                    Some(p) => {
                        return concat2("Path: ", p);
                    },
                    None => {},
                },
                None => {},
            }
            match v.get("file_path") {
                Some(f) => match f.as_str() {
                    Some(f) => {
                        return concat2("File: ", f);
                    },
                    None => {},
                },
                None => {},
            }
            let clipped = clip80_exec(arguments);
            concat2("Args: ", clipped.as_str())
        },
    }
}

/// Preview of tool-call arguments: `Command:`, `Path:` or `File:` when the JSON
/// arguments have such a string member, `Args:` with the raw text otherwise, and
/// nothing when the arguments are not JSON.
pub fn arg_preview(arguments: &str) -> (r: String)
    ensures
        r@ == spec_arg_preview(arguments@, spec_parse_json(arguments@)),
{
    let parsed = parse_json(arguments);
    match &parsed {
        Some(v) => arg_preview_from(arguments, Some(v)),
        None => arg_preview_from(arguments, None),
    }
}

/// Index of the most recent running call of the tool `name` before position `upto`.
pub open spec fn last_running(calls: Seq<ToolCallEntry>, name: Seq<char>, upto: int) -> Option<int>
    decreases upto,
{
    if upto <= 0 || upto > calls.len() {
        None
    } else if calls[upto - 1].tool_name@ == name && calls[upto - 1].status == ToolCallStatus::Running {
        Some(upto - 1)
    } else {
        last_running(calls, name, upto - 1)
    }
}

/// Whether `after` is `before` with the call at `i` given `status` and `dur`, every
/// other field and entry kept.
pub open spec fn settled_at(
    before: Seq<ToolCallEntry>,
    after: Seq<ToolCallEntry>,
    i: int,
    status: ToolCallStatus,
    dur: Option<u64>,
) -> bool {
    &&& after.len() == before.len()
    &&& forall|q: int| 0 <= q < before.len() && q != i ==> after[q] == before[q]
    &&& after[i].sequence == before[i].sequence
    &&& after[i].tool_name == before[i].tool_name
    &&& after[i].arg_preview == before[i].arg_preview
    &&& after[i].status == status
    &&& after[i].duration_ms == dur
}

/// Give the most recent running call of `name` its final status and duration.
pub fn update_status(calls: &mut Vec<ToolCallEntry>, name: &str, status: ToolCallStatus, dur: Option<u64>)
    ensures
        match last_running(old(calls)@, name@, old(calls)@.len() as int) {
            Some(i) => settled_at(old(calls)@, final(calls)@, i, status, dur),
            None => final(calls)@ == old(calls)@,
        },
{
    let mut i: usize = calls.len();
    while i > 0
        invariant
            i <= calls@.len(),
            calls@ == old(calls)@,
            last_running(calls@, name@, calls@.len() as int) == last_running(calls@, name@, i as int),
        decreases i,
    {
        if str_eq(calls[i - 1].tool_name.as_str(), name) && calls[i - 1].status == ToolCallStatus::Running {
            let mut entry = calls.remove(i - 1);
            entry.status = status;
            entry.duration_ms = dur;
            calls.insert(i - 1, entry);
            proof {
                assert(calls@ =~= old(calls)@.update(i - 1, entry));
            }
            return;
        }
        i = i - 1;
    }
}

/// Position of the next call: the history length, truncated to 32 bits, plus one.
pub open spec fn next_sequence(calls: Seq<ToolCallEntry>) -> int {
    (calls.len() as u32) + 1
}

/// Apply a tool-call UI event to the history: a begin appends a running call; a
/// completion, error or skip settles the most recent running call of that tool.
pub fn reduce_tool_state(s: &mut ToolState, event: &UiEvent)
    requires
        (old(s).calls@.len() as u32) < u32::MAX,
    ensures
        match *event {
            UiEvent::ToolCallBegin { tool_name, arguments } => {
                &&& final(s).calls@.len() == old(s).calls@.len() + 1
                &&& final(s).calls@.subrange(0, old(s).calls@.len() as int) == old(s).calls@
                &&& final(s).calls@.last().sequence == next_sequence(old(s).calls@)
                &&& final(s).calls@.last().tool_name@ == tool_name@
                &&& final(s).calls@.last().arg_preview@ == spec_arg_preview(arguments@, spec_parse_json(arguments@))
                &&& final(s).calls@.last().status == ToolCallStatus::Running
                &&& final(s).calls@.last().duration_ms is None
                &&& final(s).scroll == (final(s).calls@.len() as u16)
            },
            UiEvent::ToolCallComplete { tool_name, duration_ms, .. } => settles(*old(s), *final(s), tool_name@, ToolCallStatus::Success, duration_ms),
            UiEvent::ToolCallError { tool_name, duration_ms, .. } => settles(*old(s), *final(s), tool_name@, ToolCallStatus::Error, duration_ms),
            UiEvent::ToolCallSkipped { tool_name, duration_ms, .. } => settles(*old(s), *final(s), tool_name@, ToolCallStatus::Skipped, duration_ms),
            _ => final(s).calls@ == old(s).calls@ && final(s).scroll == old(s).scroll,
        },
{
    match event {
        UiEvent::ToolCallBegin { tool_name, arguments } => {
            let seq = (s.calls.len() as u32) + 1;
            let preview = arg_preview(arguments.as_str());
            s.calls.push(ToolCallEntry {
                sequence: seq,
                tool_name: tool_name.clone(),
                arg_preview: preview,
                status: ToolCallStatus::Running,
                duration_ms: None,
            });
            s.scroll = s.calls.len() as u16;
            proof {
                assert(s.calls@.subrange(0, old(s).calls@.len() as int) =~= old(s).calls@);
            }
        },
        UiEvent::ToolCallComplete { tool_name, duration_ms, .. } => {
            update_status(&mut s.calls, tool_name.as_str(), ToolCallStatus::Success, *duration_ms);
        },
        UiEvent::ToolCallError { tool_name, duration_ms, .. } => {
            update_status(&mut s.calls, tool_name.as_str(), ToolCallStatus::Error, *duration_ms);
        },
        UiEvent::ToolCallSkipped { tool_name, duration_ms, .. } => {
            update_status(&mut s.calls, tool_name.as_str(), ToolCallStatus::Skipped, *duration_ms);
        },
        _ => {},
    }
}

/// Whether `after` settles the most recent running call of `name` in `before`
/// (and changes nothing when there is none), the scroll position kept.
pub open spec fn settles(before: ToolState, after: ToolState, name: Seq<char>, status: ToolCallStatus, dur: Option<u64>) -> bool {
    &&& after.scroll == before.scroll
    &&& match last_running(before.calls@, name, before.calls@.len() as int) {
        Some(i) => settled_at(before.calls@, after.calls@, i, status, dur),
        None => after.calls@ == before.calls@,
    }
}

/// State of the dialog that runs one system tool with arguments from a form.
#[derive(Debug)]
pub struct SystemToolDialogState {
    pub open: bool,
    pub tool_name: String,
    pub description: Option<String>,
    pub parameters: Option<Json>,
    pub result: Option<String>,
    pub error: Option<String>,
    pub loading: bool,
}

impl SystemToolDialogState {
    /// A closed, empty dialog.
    pub fn new() -> (s: Self)
        ensures
            !s.open,
            s.tool_name@.len() == 0,
            s.description is None,
            s.parameters is None,
            s.result is None,
            s.error is None,
            !s.loading,
    {
        SystemToolDialogState {
            open: false,
            tool_name: String::new(),
            description: None,
            parameters: None,
            result: None,
            error: None,
            loading: false,
        }
    }

    /// Open the dialog for a tool, forgetting the outcome of an earlier run.
    pub fn open_for(&mut self, tool_name: String, description: Option<String>, parameters: Option<Json>)
        ensures
            final(self).open,
            final(self).tool_name == tool_name,
            final(self).description == description,
            final(self).parameters == parameters,
            final(self).result is None,
            final(self).error is None,
            !final(self).loading,
    {
        self.open = true;
        self.tool_name = tool_name;
        self.description = description;
        self.parameters = parameters;
        self.result = None;
        self.error = None;
        self.loading = false;
    }

    /// Close the dialog; what it showed stays for its closing animation.
    pub fn close(&mut self)
        ensures
            !final(self).open,
            final(self).tool_name == old(self).tool_name,
            final(self).result == old(self).result,
            final(self).error == old(self).error,
            final(self).loading == old(self).loading,
    {
        self.open = false;
    }

    /// The tool is being run: loading, with no result or error shown.
    pub fn begin_execute(&mut self)
        ensures
            final(self).loading,
            final(self).result is None,
            final(self).error is None,
            final(self).open == old(self).open,
            final(self).tool_name == old(self).tool_name,
    {
        self.loading = true;
        self.error = None;
        self.result = None;
    }

    /// The run finished: its output text, or its error; loading ends.
    pub fn finish_execute(&mut self, outcome: Result<String, String>)
        ensures
            !final(self).loading,
            final(self).open == old(self).open,
            final(self).tool_name == old(self).tool_name,
            match outcome {
                Ok(text) => final(self).result == Some(text) && final(self).error == old(self).error,
                Err(e) => final(self).error == Some(e) && final(self).result == old(self).result,
            },
    {
        match outcome {
            Ok(text) => {
                self.result = Some(text);
            },
            Err(e) => {
                self.error = Some(e);
            },
        }
        self.loading = false;
    }
}

/// The text a tool run produced: `result.content` when it is a string. Otherwise the
/// dialog shows the whole reply, pretty-printed.
pub open spec fn spec_tool_output(reply: Json) -> Option<Seq<char>> {
    as_str(opt_get(json_get(reply, "result"@), "content"@))
}

/// The text a tool run produced, when the reply carries it as `result.content`.
pub fn tool_output(reply: &Json) -> (r: Option<String>)
    ensures
        match r {
            Some(t) => spec_tool_output(*reply) == Some(t@),
            None => spec_tool_output(*reply) is None,
        },
{
    match reply.get("result") {
        Some(inner) => match inner.get("content") {
            Some(c) => match c.as_str() {
                Some(t) => Some(t.to_owned()),
                None => None,
            },
            None => None,
        },
        None => None,
    }
}

} // verus!
