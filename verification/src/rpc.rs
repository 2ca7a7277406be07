//! The JSON-RPC client protocol: request framing, request ids, the send queue used
//! while the socket connects, and the table of requests that await a reply.
use vstd::prelude::*;
use crate::json::{Json, JsonNumber, json_get, as_str, as_u64, as_i64, as_bool, as_array, str_or, into_member, parse_json, spec_parse_json};
use crate::text::concat3;
use crate::text::{owned, str_eq};

verus! {

/// Connection state of the socket.
#[derive(Clone, Copy, Debug, PartialEq, Eq, Structural)]
pub enum ConnectionState {
    Connecting,
    Connected,
    Disconnected,
}

/// The methods this client calls on the server.
#[derive(Clone, Copy, Debug, PartialEq, Eq, Structural)]
pub enum RpcMethod {
    Submit,
    Subscribe,
    Cancel,
    FileList,
    FileRead,
    AgentList,
    AgentStatus,
    SessionList,
    SessionEntries,
    SessionResume,
    McpListServers,
    McpListTools,
    McpCallTool,
    McpListResources,
    McpListResourceTemplates,
    McpReadResource,
    McpListPrompts,
    McpReconnect,
    SkillList,
    SkillGet,
    SkillRefresh,
    ToolList,
    ToolCall,
}

/// The wire name of a method.
pub open spec fn method_name(m: RpcMethod) -> Seq<char> {
    match m {
        RpcMethod::Submit => "agent.submit"@,
        RpcMethod::Subscribe => "agent.subscribe"@,
        RpcMethod::Cancel => "agent.cancel"@,
        RpcMethod::FileList => "file.list"@,
        RpcMethod::FileRead => "file.read"@,
        RpcMethod::AgentList => "agent.list"@,
        RpcMethod::AgentStatus => "agent.status"@,
        RpcMethod::SessionList => "session.list"@,
        RpcMethod::SessionEntries => "session.entries"@,
        RpcMethod::SessionResume => "session.resume"@,
        RpcMethod::McpListServers => "mcp.list_servers"@,
        RpcMethod::McpListTools => "mcp.list_tools"@,
        RpcMethod::McpCallTool => "mcp.call_tool"@,
        RpcMethod::McpListResources => "mcp.list_resources"@,
        RpcMethod::McpListResourceTemplates => "mcp.list_resource_templates"@,
        RpcMethod::McpReadResource => "mcp.read_resource"@,
        RpcMethod::McpListPrompts => "mcp.list_prompts"@,
        RpcMethod::McpReconnect => "mcp.reconnect"@,
        RpcMethod::SkillList => "skill.list"@,
        RpcMethod::SkillGet => "skill.get"@,
        RpcMethod::SkillRefresh => "skill.refresh"@,
        RpcMethod::ToolList => "tool.list"@,
        RpcMethod::ToolCall => "tool.call"@,
    }
}

/// The wire names of the server's methods, as the server knows them: each request
/// of this client names its method by exactly this text.
pub proof fn lemma_wire_names()
    ensures
        method_name(RpcMethod::Submit) == "agent.submit"@,
        method_name(RpcMethod::Subscribe) == "agent.subscribe"@,
        method_name(RpcMethod::Cancel) == "agent.cancel"@,
        method_name(RpcMethod::FileList) == "file.list"@,
        method_name(RpcMethod::FileRead) == "file.read"@,
        method_name(RpcMethod::AgentList) == "agent.list"@,
        method_name(RpcMethod::AgentStatus) == "agent.status"@,
        method_name(RpcMethod::SessionList) == "session.list"@,
        method_name(RpcMethod::SessionEntries) == "session.entries"@,
        method_name(RpcMethod::SessionResume) == "session.resume"@,
        method_name(RpcMethod::McpListServers) == "mcp.list_servers"@,
        method_name(RpcMethod::McpListTools) == "mcp.list_tools"@,
        method_name(RpcMethod::McpCallTool) == "mcp.call_tool"@,
        method_name(RpcMethod::McpListResources) == "mcp.list_resources"@,
        method_name(RpcMethod::McpListResourceTemplates) == "mcp.list_resource_templates"@,
        method_name(RpcMethod::McpReadResource) == "mcp.read_resource"@,
        method_name(RpcMethod::McpListPrompts) == "mcp.list_prompts"@,
        method_name(RpcMethod::McpReconnect) == "mcp.reconnect"@,
        method_name(RpcMethod::SkillList) == "skill.list"@,
        method_name(RpcMethod::SkillGet) == "skill.get"@,
        method_name(RpcMethod::SkillRefresh) == "skill.refresh"@,
        method_name(RpcMethod::ToolList) == "tool.list"@,
        method_name(RpcMethod::ToolCall) == "tool.call"@,
{
}

/// A request frame of method `m` names `m` by its wire name in its `method` member.
pub proof fn lemma_request_names_method(r: Json, m: RpcMethod, params: Json, id: u64)
    requires
        is_request(r, m, params, id),
    ensures
        r matches Json::Object(f) && f@[1].0@ == "method"@ && (f@[1].1 matches Json::Str(name) && name@ == method_name(m)),
{
}

impl RpcMethod {
    /// The wire name of this method.
    pub fn name(&self) -> (r: &'static str)
        ensures
            r@ == method_name(*self),
    {
        match self {
            RpcMethod::Submit => "agent.submit",
            RpcMethod::Subscribe => "agent.subscribe",
            RpcMethod::Cancel => "agent.cancel",
            RpcMethod::FileList => "file.list",
            RpcMethod::FileRead => "file.read",
            RpcMethod::AgentList => "agent.list",
            RpcMethod::AgentStatus => "agent.status",
            RpcMethod::SessionList => "session.list",
            RpcMethod::SessionEntries => "session.entries",
            RpcMethod::SessionResume => "session.resume",
            RpcMethod::McpListServers => "mcp.list_servers",
            RpcMethod::McpListTools => "mcp.list_tools",
            RpcMethod::McpCallTool => "mcp.call_tool",
            RpcMethod::McpListResources => "mcp.list_resources",
            RpcMethod::McpListResourceTemplates => "mcp.list_resource_templates",
            RpcMethod::McpReadResource => "mcp.read_resource",
            RpcMethod::McpListPrompts => "mcp.list_prompts",
            RpcMethod::McpReconnect => "mcp.reconnect",
            RpcMethod::SkillList => "skill.list",
            RpcMethod::SkillGet => "skill.get",
            RpcMethod::SkillRefresh => "skill.refresh",
            RpcMethod::ToolList => "tool.list",
            RpcMethod::ToolCall => "tool.call",
        }
    }
}

/// Whether `v` is the string `s`.
pub open spec fn is_str(v: Json, s: Seq<char>) -> bool {
    match v {
        Json::Str(x) => x@ == s,
        _ => false,
    }
}

/// Whether `v` is an object whose members are, in order, the string members `members`.
pub open spec fn is_str_object(v: Json, members: Seq<(Seq<char>, Seq<char>)>) -> bool {
    match v {
        Json::Object(f) => f@.len() == members.len() && forall|i: int|
            0 <= i < members.len() ==> #[trigger] f@[i].0@ == members[i].0 && is_str(f@[i].1, members[i].1),
        _ => false,
    }
}

/// Whether `r` is the request `{"jsonrpc": "2.0", "method": .., "params": .., "id": ..}`.
pub open spec fn is_request(r: Json, method: RpcMethod, params: Json, id: u64) -> bool {
    match r {
        Json::Object(f) => {
            &&& f@.len() == 4
            &&& f@[0].0@ == "jsonrpc"@ && is_str(f@[0].1, "2.0"@)
            &&& f@[1].0@ == "method"@ && is_str(f@[1].1, method_name(method))
            &&& f@[2].0@ == "params"@ && f@[2].1 == params
            &&& f@[3].0@ == "id"@ && f@[3].1 == Json::Number(JsonNumber::PosInt(id))
        },
        _ => false,
    }
}

/// The JSON-RPC request for `method` with `params` and request id `id`.
pub fn frame_request(method: RpcMethod, params: Json, id: u64) -> (r: Json)
    ensures
        is_request(r, method, params, id),
{
    let ghost p = params;
    let fields = vec![
        (owned("jsonrpc"), Json::Str(owned("2.0"))),
        (owned("method"), Json::Str(owned(method.name()))),
        (owned("params"), params),
        (owned("id"), Json::Number(JsonNumber::PosInt(id))),
    ];
    let r = Json::Object(fields);
    assert(is_request(r, method, p, id));
    r
}

/// An object with the given string members, in order.
pub fn str_object(members: Vec<(&str, &str)>) -> (r: Json)
    ensures
        is_str_object(r, members@.map_values(|m: (&str, &str)| (m.0@, m.1@))),
{
    let ghost want = members@.map_values(|m: (&str, &str)| (m.0@, m.1@));
    let mut fields: Vec<(String, Json)> = Vec::new();
    let mut i: usize = 0;
    while i < members.len()
        invariant
            i <= members@.len(),
            want == members@.map_values(|m: (&str, &str)| (m.0@, m.1@)),
            fields@.len() == i,
            forall|j: int| 0 <= j < i ==> #[trigger] fields@[j].0@ == want[j].0 && is_str(fields@[j].1, want[j].1),
        decreases members.len() - i,
    {
        let (k, v) = members[i];
        fields.push((owned(k), Json::Str(owned(v))));
        i = i + 1;
    }
    Json::Object(fields)
}

/// What to do with an outgoing message, given the socket's `readyState`.
#[derive(Debug)]
pub enum SendStep {
    /// The socket is open: send the message now.
    Transmit(String),
    /// The socket is still connecting: the message was queued until it opens.
    Queued,
    /// The socket is closing or closed.
    Refused(String),
}

/// Index of the entry for request `id` in the pending table.
pub open spec fn pending_index(p: Seq<(u64, RpcMethod)>, id: u64) -> Option<int>
    decreases p.len(),
{
    if p.len() == 0 {
        None
    } else if p.last().0 == id {
        Some(p.len() - 1)
    } else {
        pending_index(p.drop_last(), id)
    }
}

/// No request id occurs twice in the pending table.
pub open spec fn ids_unique(p: Seq<(u64, RpcMethod)>) -> bool {
    forall|i: int, j: int| 0 <= i < j < p.len() ==> #[trigger] p[i].0 != #[trigger] p[j].0
}

pub proof fn lemma_pending_index(p: Seq<(u64, RpcMethod)>, id: u64)
    ensures
        match pending_index(p, id) {
            Some(i) => 0 <= i < p.len() && p[i].0 == id,
            None => forall|j: int| 0 <= j < p.len() ==> #[trigger] p[j].0 != id,
        },
    decreases p.len(),
{
    if p.len() > 0 && p.last().0 != id {
        lemma_pending_index(p.drop_last(), id);
        if pending_index(p, id) is None {
            assert forall|j: int| 0 <= j < p.len() implies #[trigger] p[j].0 != id by {
                if j < p.len() - 1 {
                    assert(p.drop_last()[j] == p[j]);
                }
            }
        }
    }
}

/// The pending table maps request ids to the method whose reply they await.
pub open spec fn pending_lookup(p: Seq<(u64, RpcMethod)>, id: u64) -> Option<RpcMethod> {
    match pending_index(p, id) {
        Some(i) => Some(p[i].1),
        None => None,
    }
}

/// The id after `id`: one more, wrapping around after the largest.
pub open spec fn next_request_id(id: u64) -> u64 {
    if id == u64::MAX {
        0
    } else {
        (id + 1) as u64
    }
}

/// The id the request made after `k` others takes, counting from `first`.
pub open spec fn kth_request_id(first: u64, k: nat) -> u64
    decreases k,
{
    if k == 0 {
        first
    } else {
        next_request_id(kth_request_id(first, (k - 1) as nat))
    }
}

/// The send queue after queueing `ms`, one after another, behind `q`.
pub open spec fn queued_all(q: Seq<String>, ms: Seq<String>) -> Seq<String>
    decreases ms.len(),
{
    if ms.len() == 0 {
        q
    } else {
        queued_all(q, ms.drop_last()).push(ms.last())
    }
}

/// Request ids of a new client start at 1 and rise by one with each request,
/// whatever its method, so that no two of the first `u64::MAX` requests share one;
/// messages queued while the socket connects are sent, when it opens, in the order
/// they were queued.
pub proof fn lemma_request_ids_and_queue(k: nat, q: Seq<String>, ms: Seq<String>)
    ensures
        k < u64::MAX ==> kth_request_id(1, k) == k + 1,
        queued_all(q, ms) == q + ms,
    decreases k + ms.len(),
{
    if k > 0 {
        lemma_request_ids_and_queue((k - 1) as nat, q, Seq::empty());
    }
    if ms.len() > 0 {
        lemma_request_ids_and_queue(0, q, ms.drop_last());
        assert(q + ms.drop_last() + seq![ms.last()] =~= q + ms);
    } else {
        assert(q + ms =~= q);
    }
}

/// WebSocket JSON-RPC client state: everything but the socket itself.
#[derive(Debug)]
pub struct JsonRpcClient {
    /// The server URL.
    pub url: String,
    /// The socket's connection state.
    pub state: ConnectionState,
    /// Next request id.
    pub next_id: u64,
    /// Messages waiting for the socket to open.
    pub send_queue: Vec<String>,
    /// Requests whose reply is awaited, with their method.
    pub pending: Vec<(u64, RpcMethod)>,
}

impl JsonRpcClient {
    /// Well-formed: the pending table has one entry per request id.
    pub open spec fn wf(&self) -> bool {
        ids_unique(self.pending@)
    }

    /// A client for `url` whose socket is connecting.
    pub fn new(url: &str) -> (c: Self)
        ensures
            c.wf(),
            c.url@ == url@,
            c.state == ConnectionState::Connecting,
            c.next_id == 1,
            c.send_queue@.len() == 0,
            c.pending@.len() == 0,
    {
        JsonRpcClient {
            url: owned(url),
            state: ConnectionState::Connecting,
            next_id: 1,
            send_queue: Vec::new(),
            pending: Vec::new(),
        }
    }

    /// Allocate a request id; ids count up from 1 and wrap around.
    pub fn alloc_id(&mut self) -> (id: u64)
        ensures
            id == old(self).next_id,
            final(self).next_id == next_request_id(old(self).next_id),
            final(self).url == old(self).url,
            final(self).state == old(self).state,
            final(self).send_queue == old(self).send_queue,
            final(self).pending == old(self).pending,
    {
        let id = self.next_id;
        self.next_id = id.wrapping_add(1);
        id
    }

    /// Decide how to send `msg` given the socket's `readyState`: open (1) sends,
    /// connecting (0) queues, anything else is refused.
    pub fn send_raw(&mut self, ready_state: u16, msg: String) -> (step: SendStep)
        ensures
            sent(*old(self), *final(self), ready_state, msg, step),
    {
        if ready_state == 1 {
            SendStep::Transmit(msg)
        } else if ready_state == 0 {
            self.send_queue.push(msg);
            SendStep::Queued
        } else {
            SendStep::Refused(owned("WebSocket not connected"))
        }
    }

    /// The socket opened: the state becomes connected and the queued messages are
    /// handed back, in the order they were queued, to be sent now.
    pub fn on_open(&mut self) -> (flush: Vec<String>)
        ensures
            final(self).state == ConnectionState::Connected,
            flush@ == old(self).send_queue@,
            final(self).send_queue@.len() == 0,
            final(self).url == old(self).url,
            final(self).next_id == old(self).next_id,
            final(self).pending == old(self).pending,
    {
        self.state = ConnectionState::Connected;
        let mut flush: Vec<String> = Vec::new();
        std::mem::swap(&mut flush, &mut self.send_queue);
        flush
    }

    /// The socket closed.
    pub fn on_close(&mut self)
        ensures
            final(self).state == ConnectionState::Disconnected,
            final(self).url == old(self).url,
            final(self).next_id == old(self).next_id,
            final(self).send_queue == old(self).send_queue,
            final(self).pending == old(self).pending,
    {
        self.state = ConnectionState::Disconnected;
    }

    /// A new socket replaced the old one and is connecting.
    pub fn reconnect(&mut self)
        ensures
            final(self).state == ConnectionState::Connecting,
            final(self).url == old(self).url,
            final(self).next_id == old(self).next_id,
            final(self).send_queue == old(self).send_queue,
            final(self).pending == old(self).pending,
    {
        self.state = ConnectionState::Connecting;
    }

    /// The connection state.
    pub fn state(&self) -> (s: ConnectionState)
        ensures
            s == self.state,
    {
        self.state
    }

    /// The server URL.
    pub fn url(&self) -> (u: &str)
        ensures
            u@ == self.url@,
    {
        self.url.as_str()
    }

    /// Allocate an id and frame the request for `method` with `params`.
    pub fn request(&mut self, method: RpcMethod, params: Json) -> (r: (u64, Json))
        ensures
            r.0 == old(self).next_id,
            is_request(r.1, method, params, r.0),
            final(self).next_id == next_request_id(old(self).next_id),
            final(self).url == old(self).url,
            final(self).state == old(self).state,
            final(self).send_queue == old(self).send_queue,
            final(self).pending == old(self).pending,
    {
        let id = self.alloc_id();
        (id, frame_request(method, params, id))
    }

    /// Record that request `id` awaits the reply to `method`; a second record for
    /// the same id replaces the first.
    pub fn expect_reply(&mut self, id: u64, method: RpcMethod)
        requires
            old(self).wf(),
        ensures
            final(self).wf(),
            pending_lookup(final(self).pending@, id) == Some(method),
            forall|other: u64| other != id ==> pending_lookup(final(self).pending@, other)
                == pending_lookup(old(self).pending@, other),
            final(self).url == old(self).url,
            final(self).state == old(self).state,
            final(self).next_id == old(self).next_id,
            final(self).send_queue == old(self).send_queue,
    {
        let ghost before = self.pending@;
        match self.find_pending(id) {
            Some(i) => {
                self.pending.set(i, (id, method));
                proof {
                    lemma_pending_index(before, id);
                    lemma_index_after_update(before, i as int, id, method);
                }
            },
            None => {
                self.pending.push((id, method));
                proof {
                    lemma_pending_index(before, id);
                    assert(self.pending@.drop_last() =~= before);
                    assert forall|other: u64| other != id implies pending_lookup(self.pending@, other)
                        == pending_lookup(before, other) by {
                        lemma_pending_index(before, other);
                    }
                }
            },
        }
    }

    /// Position of request `id` in the pending table.
    fn find_pending(&self, id: u64) -> (r: Option<usize>)
        requires
            self.wf(),
        ensures
            match r {
                Some(i) => i < self.pending@.len() && pending_index(self.pending@, id) == Some(i as int),
                None => pending_index(self.pending@, id) is None,
            },
    {
        let mut i: usize = self.pending.len();
        assert(self.pending@.take(i as int) =~= self.pending@);
        while i > 0
            invariant
                i <= self.pending@.len(),
                pending_index(self.pending@, id) == pending_index(self.pending@.take(i as int), id),
            decreases i,
        {
            let ghost pre = self.pending@.take(i as int);
            if self.pending[i - 1].0 == id {
                assert(pre.last() == self.pending@[i - 1]);
                return Some(i - 1);
            }
            assert(pre.drop_last() =~= self.pending@.take(i - 1));
            i = i - 1;
        }
        assert(self.pending@.take(0).len() == 0);
        None
    }

    /// Remove the entry for request `id`, returning the method it awaited.
    fn take_pending(&mut self, id: u64) -> (r: Option<RpcMethod>)
        requires
            old(self).wf(),
        ensures
            final(self).wf(),
            r == pending_lookup(old(self).pending@, id),
            match pending_index(old(self).pending@, id) {
                Some(i) => final(self).pending@ == old(self).pending@.remove(i),
                None => final(self).pending@ == old(self).pending@,
            },
            final(self).url == old(self).url,
            final(self).state == old(self).state,
            final(self).next_id == old(self).next_id,
            final(self).send_queue == old(self).send_queue,
    {
        match self.find_pending(id) {
            Some(i) => {
                let ghost before = self.pending@;
                let (_, m) = self.pending.remove(i);
                assert forall|a: int, b: int| 0 <= a < b < self.pending@.len() implies
                    #[trigger] self.pending@[a].0 != #[trigger] self.pending@[b].0 by {
                    let a0 = if a < i { a } else { a + 1 };
                    let b0 = if b < i { b } else { b + 1 };
                    assert(self.pending@[a] == before[a0]);
                    assert(self.pending@[b] == before[b0]);
                }
                Some(m)
            },
            None => None,
        }
    }
}

/// The `params` member of a framed request.
pub open spec fn params_of(r: Json) -> Json {
    match r {
        Json::Object(f) => f@[2].1,
        _ => Json::Null,
    }
}

/// Whether `r` is the request for `method` with id `id` whose params are the string
/// members `members`, in order.
pub open spec fn is_str_request(r: Json, method: RpcMethod, id: u64, members: Seq<(Seq<char>, Seq<char>)>) -> bool {
    is_request(r, method, params_of(r), id) && is_str_object(params_of(r), members)
}

/// The members `{key: value}` when a value is given, none otherwise.
pub open spec fn optional_member(key: Seq<char>, value: Option<&str>) -> Seq<(Seq<char>, Seq<char>)> {
    match value {
        Some(v) => seq![(key, v@)],
        None => Seq::empty(),
    }
}

/// Whether `params` is `{"tool_name": tool_name, "arguments": arguments}`, after the
/// string members `leading`.
pub open spec fn is_tool_params(params: Json, leading: Seq<(Seq<char>, Seq<char>)>, tool_name: Seq<char>, arguments: Json) -> bool {
    match params {
        Json::Object(f) => {
            let n: int = leading.len() as int;
            &&& f@.len() == n + 2
            &&& forall|i: int| 0 <= i < n ==> #[trigger] f@[i].0@ == leading[i].0 && is_str(f@[i].1, leading[i].1)
            &&& f@[n].0@ == "tool_name"@ && is_str(f@[n].1, tool_name)
            &&& f@[n + 1].0@ == "arguments"@ && f@[n + 1].1 == arguments
        },
        _ => false,
    }
}

/// `after` is `before` with one request id allocated.
pub open spec fn took_id(before: JsonRpcClient, after: JsonRpcClient) -> bool {
    &&& after.next_id == next_request_id(before.next_id)
    &&& after.url == before.url
    &&& after.state == before.state
    &&& after.send_queue == before.send_queue
    &&& after.pending == before.pending
}

/// What `send_raw` does with `msg` at socket state `ready_state`: an open socket (1)
/// sends it, a connecting one (0) queues it behind the others, any other state
/// refuses it; nothing else of the client changes.
pub open spec fn sent(before: JsonRpcClient, after: JsonRpcClient, ready_state: u16, msg: String, step: SendStep) -> bool {
    &&& ready_state == 1 ==> (step matches SendStep::Transmit(m) && m@ == msg@)
    &&& ready_state == 0 ==> step is Queued && after.send_queue@ == before.send_queue@.push(msg)
    &&& ready_state != 0 && ready_state != 1 ==> (step matches SendStep::Refused(e) && e@ == "WebSocket not connected"@)
    &&& ready_state != 0 ==> after.send_queue == before.send_queue
    &&& after.url == before.url
    &&& after.state == before.state
    &&& after.next_id == before.next_id
    &&& after.pending == before.pending
}

/// What `submit` does: the request takes the next id and is framed as
/// `agent.submit` with the input and, when given, the target.
pub open spec fn submitted(
    before: JsonRpcClient,
    after: JsonRpcClient,
    input: &str,
    target: Option<&str>,
    r: (u64, Json),
) -> bool {
    &&& r.0 == before.next_id
    &&& is_str_request(r.1, RpcMethod::Submit, r.0, seq![("input"@, input@)] + optional_member("target"@, target))
    &&& took_id(before, after)
}

/// Law of a submission: it takes the client's next request id (and the one after
/// comes next), is framed as `agent.submit` with that id, and its text is sent at
/// once on an open socket, queued behind the waiting messages on a connecting one
/// (to be sent in order when it opens), or refused with "WebSocket not connected"
/// otherwise, leaving nothing queued; the pending replies stay as they were.
pub proof fn lemma_submit_and_send(
    c0: JsonRpcClient,
    c1: JsonRpcClient,
    c2: JsonRpcClient,
    input: &str,
    target: Option<&str>,
    r: (u64, Json),
    ready_state: u16,
    msg: String,
    step: SendStep,
)
    requires
        submitted(c0, c1, input, target, r),
        sent(c1, c2, ready_state, msg, step),
    ensures
        r.0 == c0.next_id,
        c2.next_id == next_request_id(c0.next_id),
        is_str_request(r.1, RpcMethod::Submit, r.0, seq![("input"@, input@)] + optional_member("target"@, target)),
        ready_state == 1 ==> (step matches SendStep::Transmit(m) && m@ == msg@) && c2.send_queue == c0.send_queue,
        ready_state == 0 ==> step is Queued && c2.send_queue@ == c0.send_queue@.push(msg),
        ready_state != 0 && ready_state != 1 ==> (step matches SendStep::Refused(e) && e@ == "WebSocket not connected"@)
            && c2.send_queue == c0.send_queue,
        c2.pending == c0.pending,
        c2.url == c0.url,
        c2.state == c0.state,
{
}

/// What the client does with an incoming message.
#[derive(Debug)]
pub enum Incoming {
    /// An `agent.event` notification: its params, to be read as an agent event.
    Event(Json),
    /// The reply to request `id`, which awaited `method`: its `result`, or else its `error`.
    Reply { id: u64, method: RpcMethod, payload: Json },
    /// Nothing to deliver.
    Ignored,
}

/// How the client handles the message `parsed` (`None`: not JSON), given the pending
/// table: the new table and what is delivered.
pub open spec fn spec_handle(p: Seq<(u64, RpcMethod)>, parsed: Option<Json>) -> (Seq<(u64, RpcMethod)>, Incoming) {
    match parsed {
        None => (p, Incoming::Ignored),
        Some(v) => if as_str(json_get(v, "method"@)) == Some("agent.event"@) {
            (p, match json_get(v, "params"@) {
                Some(params) => Incoming::Event(params),
                None => Incoming::Ignored,
            })
        } else {
            match as_u64(json_get(v, "id"@)) {
                None => (p, Incoming::Ignored),
                Some(id) => match pending_index(p, id) {
                    None => (p, Incoming::Ignored),
                    Some(i) => (p.remove(i), match json_get(v, "result"@) {
                        Some(res) => Incoming::Reply { id, method: p[i].1, payload: res },
                        None => match json_get(v, "error"@) {
                            Some(e) => Incoming::Reply { id, method: p[i].1, payload: e },
                            None => Incoming::Ignored,
                        },
                    }),
                },
            }
        },
    }
}

impl JsonRpcClient {
    /// Handle a text message from the socket: an `agent.event` notification yields
    /// its params; a reply to a pending request is taken out of the pending table and
    /// yields its `result` (or its `error`); anything else is ignored.
    pub fn handle_message(&mut self, data: &str) -> (r: Incoming)
        requires
            old(self).wf(),
        ensures
            final(self).wf(),
            (final(self).pending@, r) == spec_handle(old(self).pending@, spec_parse_json(data@)),
            final(self).url == old(self).url,
            final(self).state == old(self).state,
            final(self).next_id == old(self).next_id,
            final(self).send_queue == old(self).send_queue,
    {
        let parsed = parse_json(data);
        self.handle_parsed(parsed)
    }

    /// Handle a message read as JSON (`None`: the text was not JSON): an
    /// `agent.event` notification yields its params; a reply to a pending request is
    /// taken out of the pending table and yields its `result` (or its `error`);
    /// anything else is ignored.
    pub fn handle_parsed(&mut self, parsed: Option<Json>) -> (r: Incoming)
        requires
            old(self).wf(),
        ensures
            final(self).wf(),
            (final(self).pending@, r) == spec_handle(old(self).pending@, parsed),
            final(self).url == old(self).url,
            final(self).state == old(self).state,
            final(self).next_id == old(self).next_id,
            final(self).send_queue == old(self).send_queue,
    {
        let v = match parsed {
            Some(v) => v,
            None => {
                return Incoming::Ignored;
            },
        };
        let is_event = match v.get("method") {
            Some(m) => match m.as_str() {
                Some(name) => str_eq(name, "agent.event"),
                None => false,
            },
            None => false,
        };
        if is_event {
            return match into_member(v, "params") {
                Some(params) => Incoming::Event(params),
                None => Incoming::Ignored,
            };
        }
        let id = match v.get("id") {
            Some(x) => x.as_u64(),
            None => None,
        };
        let id = match id {
            Some(id) => id,
            None => {
                return Incoming::Ignored;
            },
        };
        proof {
            lemma_pending_index(self.pending@, id);
        }
        let method = match self.take_pending(id) {
            Some(m) => m,
            None => {
                return Incoming::Ignored;
            },
        };
        if v.get("result").is_some() {
            match into_member(v, "result") {
                Some(res) => Incoming::Reply { id, method, payload: res },
                None => Incoming::Ignored,
            }
        } else {
            match into_member(v, "error") {
                Some(e) => Incoming::Reply { id, method, payload: e },
                None => Incoming::Ignored,
            }
        }
    }

    /// Submit input to the agent (`agent.submit`), to `target` when given.
    pub fn submit(&mut self, input: &str, target: Option<&str>) -> (r: (u64, Json))
        ensures
            submitted(*old(self), *final(self), input, target, r),
    {
        let m: Vec<(&str, &str)> = match target {
            Some(v) => {
                let m = vec![("input", input), ("target", v)];
                assert(m@.map_values(|x: (&str, &str)| (x.0@, x.1@)) =~= seq![("input"@, input@)] + optional_member("target"@, target));
                m
            },
            None => {
                let m: Vec<(&str, &str)> = vec![("input", input)];
                assert(m@.map_values(|x: (&str, &str)| (x.0@, x.1@)) =~= seq![("input"@, input@)] + optional_member("target"@, target));
                m
            },
        };
        self.call(RpcMethod::Submit, m)
    }

    /// Subscribe to agent events (`agent.subscribe`).
    pub fn subscribe(&mut self) -> (r: (u64, Json))
        ensures
            r.0 == old(self).next_id,
            is_str_request(r.1, RpcMethod::Subscribe, r.0, Seq::empty()),
            took_id(*old(self), *final(self)),
    {
        let m: Vec<(&str, &str)> = Vec::new();
        assert(m@.map_values(|x: (&str, &str)| (x.0@, x.1@)) =~= Seq::empty());
        self.call(RpcMethod::Subscribe, m)
    }

    /// Cancel a running agent (`agent.cancel`).
    pub fn cancel(&mut self, run_id: &str) -> (r: (u64, Json))
        ensures
            r.0 == old(self).next_id,
            is_str_request(r.1, RpcMethod::Cancel, r.0, seq![("run_id"@, run_id@)]),
            took_id(*old(self), *final(self)),
    {
        let m = vec![("run_id", run_id)];
        assert(m@.map_values(|x: (&str, &str)| (x.0@, x.1@)) =~= seq![("run_id"@, run_id@)]);
        self.call(RpcMethod::Cancel, m)
    }

    /// List a directory on the server (`file.list`).
    pub fn file_list(&mut self, path: &str) -> (r: (u64, Json))
        ensures
            r.0 == old(self).next_id,
            is_str_request(r.1, RpcMethod::FileList, r.0, seq![("path"@, path@)]),
            took_id(*old(self), *final(self)),
    {
        let m = vec![("path", path)];
        assert(m@.map_values(|x: (&str, &str)| (x.0@, x.1@)) =~= seq![("path"@, path@)]);
        self.call(RpcMethod::FileList, m)
    }

    /// Read a file on the server (`file.read`).
    pub fn file_read(&mut self, path: &str) -> (r: (u64, Json))
        ensures
            r.0 == old(self).next_id,
            is_str_request(r.1, RpcMethod::FileRead, r.0, seq![("path"@, path@)]),
            took_id(*old(self), *final(self)),
    {
        let m = vec![("path", path)];
        assert(m@.map_values(|x: (&str, &str)| (x.0@, x.1@)) =~= seq![("path"@, path@)]);
        self.call(RpcMethod::FileRead, m)
    }

    /// List the registered agents (`agent.list`).
    pub fn agent_list(&mut self) -> (r: (u64, Json))
        ensures
            r.0 == old(self).next_id,
            is_str_request(r.1, RpcMethod::AgentList, r.0, Seq::empty()),
            took_id(*old(self), *final(self)),
    {
        let m: Vec<(&str, &str)> = Vec::new();
        assert(m@.map_values(|x: (&str, &str)| (x.0@, x.1@)) =~= Seq::empty());
        self.call(RpcMethod::AgentList, m)
    }

    /// Query an agent's running status (`agent.status`).
    pub fn agent_status(&mut self, agent_id: &str) -> (r: (u64, Json))
        ensures
            r.0 == old(self).next_id,
            is_str_request(r.1, RpcMethod::AgentStatus, r.0, seq![("agent_id"@, agent_id@)]),
            took_id(*old(self), *final(self)),
    {
        let m = vec![("agent_id", agent_id)];
        assert(m@.map_values(|x: (&str, &str)| (x.0@, x.1@)) =~= seq![("agent_id"@, agent_id@)]);
        self.call(RpcMethod::AgentStatus, m)
    }

    /// List the persisted sessions (`session.list`), of one agent when given.
    pub fn session_list(&mut self, agent_id: Option<&str>) -> (r: (u64, Json))
        ensures
            r.0 == old(self).next_id,
            is_str_request(r.1, RpcMethod::SessionList, r.0, Seq::empty() + optional_member("agent_id"@, agent_id)),
            took_id(*old(self), *final(self)),
    {
        let m: Vec<(&str, &str)> = match agent_id {
            Some(v) => {
                let m = vec![("agent_id", v)];
                assert(m@.map_values(|x: (&str, &str)| (x.0@, x.1@)) =~= Seq::empty() + optional_member("agent_id"@, agent_id));
                m
            },
            None => {
                let m: Vec<(&str, &str)> = Vec::new();
                assert(m@.map_values(|x: (&str, &str)| (x.0@, x.1@)) =~= Seq::empty() + optional_member("agent_id"@, agent_id));
                m
            },
        };
        self.call(RpcMethod::SessionList, m)
    }

    /// Fetch the entries of a session (`session.entries`).
    pub fn session_entries(&mut self, session_id: &str) -> (r: (u64, Json))
        ensures
            r.0 == old(self).next_id,
            is_str_request(r.1, RpcMethod::SessionEntries, r.0, seq![("session_id"@, session_id@)]),
            took_id(*old(self), *final(self)),
    {
        let m = vec![("session_id", session_id)];
        assert(m@.map_values(|x: (&str, &str)| (x.0@, x.1@)) =~= seq![("session_id"@, session_id@)]);
        self.call(RpcMethod::SessionEntries, m)
    }

    /// Resume a session (`session.resume`), for one agent when given.
    pub fn session_resume(&mut self, session_id: &str, agent_id: Option<&str>) -> (r: (u64, Json))
        ensures
            r.0 == old(self).next_id,
            is_str_request(r.1, RpcMethod::SessionResume, r.0, seq![("session_id"@, session_id@)] + optional_member("agent_id"@, agent_id)),
            took_id(*old(self), *final(self)),
    {
        let m: Vec<(&str, &str)> = match agent_id {
            Some(v) => {
                let m = vec![("session_id", session_id), ("agent_id", v)];
                assert(m@.map_values(|x: (&str, &str)| (x.0@, x.1@)) =~= seq![("session_id"@, session_id@)] + optional_member("agent_id"@, agent_id));
                m
            },
            None => {
                let m: Vec<(&str, &str)> = vec![("session_id", session_id)];
                assert(m@.map_values(|x: (&str, &str)| (x.0@, x.1@)) =~= seq![("session_id"@, session_id@)] + optional_member("agent_id"@, agent_id));
                m
            },
        };
        self.call(RpcMethod::SessionResume, m)
    }

    /// List the configured MCP servers (`mcp.list_servers`).
    pub fn mcp_list_servers(&mut self) -> (r: (u64, Json))
        ensures
            r.0 == old(self).next_id,
            is_str_request(r.1, RpcMethod::McpListServers, r.0, Seq::empty()),
            took_id(*old(self), *final(self)),
    {
        let m: Vec<(&str, &str)> = Vec::new();
        assert(m@.map_values(|x: (&str, &str)| (x.0@, x.1@)) =~= Seq::empty());
        self.call(RpcMethod::McpListServers, m)
    }

    /// List MCP tools (`mcp.list_tools`), of one server when given.
    pub fn mcp_list_tools(&mut self, server: Option<&str>) -> (r: (u64, Json))
        ensures
            r.0 == old(self).next_id,
            is_str_request(r.1, RpcMethod::McpListTools, r.0, Seq::empty() + optional_member("server"@, server)),
            took_id(*old(self), *final(self)),
    {
        let m: Vec<(&str, &str)> = match server {
            Some(v) => {
                let m = vec![("server", v)];
                assert(m@.map_values(|x: (&str, &str)| (x.0@, x.1@)) =~= Seq::empty() + optional_member("server"@, server));
                m
            },
            None => {
                let m: Vec<(&str, &str)> = Vec::new();
                assert(m@.map_values(|x: (&str, &str)| (x.0@, x.1@)) =~= Seq::empty() + optional_member("server"@, server));
                m
            },
        };
        self.call(RpcMethod::McpListTools, m)
    }

    /// List MCP resources (`mcp.list_resources`), of one server when given.
    pub fn mcp_list_resources(&mut self, server: Option<&str>) -> (r: (u64, Json))
        ensures
            r.0 == old(self).next_id,
            is_str_request(r.1, RpcMethod::McpListResources, r.0, Seq::empty() + optional_member("server"@, server)),
            took_id(*old(self), *final(self)),
    {
        let m: Vec<(&str, &str)> = match server {
            Some(v) => {
                let m = vec![("server", v)];
                assert(m@.map_values(|x: (&str, &str)| (x.0@, x.1@)) =~= Seq::empty() + optional_member("server"@, server));
                m
            },
            None => {
                let m: Vec<(&str, &str)> = Vec::new();
                assert(m@.map_values(|x: (&str, &str)| (x.0@, x.1@)) =~= Seq::empty() + optional_member("server"@, server));
                m
            },
        };
        self.call(RpcMethod::McpListResources, m)
    }

    /// List MCP resource templates (`mcp.list_resource_templates`), of one server when given.
    pub fn mcp_list_resource_templates(&mut self, server: Option<&str>) -> (r: (u64, Json))
        ensures
            r.0 == old(self).next_id,
            is_str_request(r.1, RpcMethod::McpListResourceTemplates, r.0, Seq::empty() + optional_member("server"@, server)),
            took_id(*old(self), *final(self)),
    {
        let m: Vec<(&str, &str)> = match server {
            Some(v) => {
                let m = vec![("server", v)];
                assert(m@.map_values(|x: (&str, &str)| (x.0@, x.1@)) =~= Seq::empty() + optional_member("server"@, server));
                m
            },
            None => {
                let m: Vec<(&str, &str)> = Vec::new();
                assert(m@.map_values(|x: (&str, &str)| (x.0@, x.1@)) =~= Seq::empty() + optional_member("server"@, server));
                m
            },
        };
        self.call(RpcMethod::McpListResourceTemplates, m)
    }

    /// Read an MCP resource by URI (`mcp.read_resource`).
    pub fn mcp_read_resource(&mut self, uri: &str) -> (r: (u64, Json))
        ensures
            r.0 == old(self).next_id,
            is_str_request(r.1, RpcMethod::McpReadResource, r.0, seq![("uri"@, uri@)]),
            took_id(*old(self), *final(self)),
    {
        let m = vec![("uri", uri)];
        assert(m@.map_values(|x: (&str, &str)| (x.0@, x.1@)) =~= seq![("uri"@, uri@)]);
        self.call(RpcMethod::McpReadResource, m)
    }

    /// List MCP prompts (`mcp.list_prompts`), of one server when given.
    pub fn mcp_list_prompts(&mut self, server: Option<&str>) -> (r: (u64, Json))
        ensures
            r.0 == old(self).next_id,
            is_str_request(r.1, RpcMethod::McpListPrompts, r.0, Seq::empty() + optional_member("server"@, server)),
            took_id(*old(self), *final(self)),
    {
        let m: Vec<(&str, &str)> = match server {
            Some(v) => {
                let m = vec![("server", v)];
                assert(m@.map_values(|x: (&str, &str)| (x.0@, x.1@)) =~= Seq::empty() + optional_member("server"@, server));
                m
            },
            None => {
                let m: Vec<(&str, &str)> = Vec::new();
                assert(m@.map_values(|x: (&str, &str)| (x.0@, x.1@)) =~= Seq::empty() + optional_member("server"@, server));
                m
            },
        };
        self.call(RpcMethod::McpListPrompts, m)
    }

    /// Reconnect an MCP server (`mcp.reconnect`).
    pub fn mcp_reconnect(&mut self, server: &str) -> (r: (u64, Json))
        ensures
            r.0 == old(self).next_id,
            is_str_request(r.1, RpcMethod::McpReconnect, r.0, seq![("server"@, server@)]),
            took_id(*old(self), *final(self)),
    {
        let m = vec![("server", server)];
        assert(m@.map_values(|x: (&str, &str)| (x.0@, x.1@)) =~= seq![("server"@, server@)]);
        self.call(RpcMethod::McpReconnect, m)
    }

    /// List the discovered skills (`skill.list`).
    pub fn skill_list(&mut self) -> (r: (u64, Json))
        ensures
            r.0 == old(self).next_id,
            is_str_request(r.1, RpcMethod::SkillList, r.0, Seq::empty()),
            took_id(*old(self), *final(self)),
    {
        let m: Vec<(&str, &str)> = Vec::new();
        assert(m@.map_values(|x: (&str, &str)| (x.0@, x.1@)) =~= Seq::empty());
        self.call(RpcMethod::SkillList, m)
    }

    /// Get a skill's details by name (`skill.get`).
    pub fn skill_get(&mut self, name: &str) -> (r: (u64, Json))
        ensures
            r.0 == old(self).next_id,
            is_str_request(r.1, RpcMethod::SkillGet, r.0, seq![("name"@, name@)]),
            took_id(*old(self), *final(self)),
    {
        let m = vec![("name", name)];
        assert(m@.map_values(|x: (&str, &str)| (x.0@, x.1@)) =~= seq![("name"@, name@)]);
        self.call(RpcMethod::SkillGet, m)
    }

    /// Re-discover skills (`skill.refresh`).
    pub fn skill_refresh(&mut self) -> (r: (u64, Json))
        ensures
            r.0 == old(self).next_id,
            is_str_request(r.1, RpcMethod::SkillRefresh, r.0, Seq::empty()),
            took_id(*old(self), *final(self)),
    {
        let m: Vec<(&str, &str)> = Vec::new();
        assert(m@.map_values(|x: (&str, &str)| (x.0@, x.1@)) =~= Seq::empty());
        self.call(RpcMethod::SkillRefresh, m)
    }

    /// List the system tools (`tool.list`).
    pub fn tool_list(&mut self) -> (r: (u64, Json))
        ensures
            r.0 == old(self).next_id,
            is_str_request(r.1, RpcMethod::ToolList, r.0, Seq::empty()),
            took_id(*old(self), *final(self)),
    {
        let m: Vec<(&str, &str)> = Vec::new();
        assert(m@.map_values(|x: (&str, &str)| (x.0@, x.1@)) =~= Seq::empty());
        self.call(RpcMethod::ToolList, m)
    }

    /// Call a tool on an MCP server (`mcp.call_tool`).
    pub fn mcp_call_tool(&mut self, server: &str, tool_name: &str, arguments: Json) -> (r: (u64, Json))
        ensures
            r.0 == old(self).next_id,
            is_request(r.1, RpcMethod::McpCallTool, params_of(r.1), r.0),
            is_tool_params(params_of(r.1), seq![("server"@, server@)], tool_name@, arguments),
            took_id(*old(self), *final(self)),
    {
        let ghost a = arguments;
        let params = Json::Object(vec![
            (owned("server"), Json::Str(owned(server))),
            (owned("tool_name"), Json::Str(owned(tool_name))),
            (owned("arguments"), arguments),
        ]);
        assert(is_tool_params(params, seq![("server"@, server@)], tool_name@, a));
        let ghost p = params;
        let r = self.request(RpcMethod::McpCallTool, params);
        assert(params_of(r.1) == p);
        r
    }

    /// Call a system tool directly (`tool.call`).
    pub fn tool_call(&mut self, tool_name: &str, arguments: Json) -> (r: (u64, Json))
        ensures
            r.0 == old(self).next_id,
            is_request(r.1, RpcMethod::ToolCall, params_of(r.1), r.0),
            is_tool_params(params_of(r.1), Seq::empty(), tool_name@, arguments),
            took_id(*old(self), *final(self)),
    {
        let ghost a = arguments;
        let params = Json::Object(vec![
            (owned("tool_name"), Json::Str(owned(tool_name))),
            (owned("arguments"), arguments),
        ]);
        assert(is_tool_params(params, Seq::empty(), tool_name@, a));
        let ghost p = params;
        let r = self.request(RpcMethod::ToolCall, params);
        assert(params_of(r.1) == p);
        r
    }

    /// Frame a request whose params are the string members `members`.
    fn call(&mut self, method: RpcMethod, members: Vec<(&str, &str)>) -> (r: (u64, Json))
        ensures
            r.0 == old(self).next_id,
            is_str_request(r.1, method, r.0, members@.map_values(|m: (&str, &str)| (m.0@, m.1@))),
            took_id(*old(self), *final(self)),
    {
        let params = str_object(members);
        let ghost p = params;
        let r = self.request(method, params);
        assert(params_of(r.1) == p);
        r
    }

}

/// The message of a reply's `error` member, `default` when it has none; `None`
/// when the reply has no `error` member.
pub open spec fn error_text(result: Json, default: Seq<char>) -> Option<Seq<char>> {
    match json_get(result, "error"@) {
        Some(e) => Some(str_or(json_get(e, "message"@), default)),
        None => None,
    }
}

/// The message of a reply's `error` member, if it has one.
fn error_message(result: &Json, default: &str) -> (r: Option<String>)
    ensures
        match r {
            Some(m) => error_text(*result, default@) == Some(m@),
            None => error_text(*result, default@) is None,
        },
{
    match result.get("error") {
        Some(e) => Some(crate::json::member_str_or(e, "message", default)),
        None => None,
    }
}

/// The elements of the array member `key` of a reply; the error
/// "no {key} in response" when there is none.
pub fn items_reply<'a>(result: &'a Json, key: &str) -> (r: Result<&'a Vec<Json>, String>)
    ensures
        match as_array(json_get(*result, key@)) {
            Some(items) => (r matches Ok(v) && v@ == items),
            None => (r matches Err(e) && e@ == "no "@ + key@ + " in response"@),
        },
{
    match result.get(key) {
        Some(v) => match v.as_array() {
            Some(items) => Ok(items),
            None => Err(concat3("no ", key, " in response")),
        },
        None => Err(concat3("no ", key, " in response")),
    }
}

/// The text of a string member, if any.
fn str_member(v: &Json, key: &str) -> (r: Option<String>)
    ensures
        match r {
            Some(s) => as_str(json_get(*v, key@)) == Some(s@),
            None => as_str(json_get(*v, key@)) is None,
        },
{
    crate::json::member_str(v, key)
}

/// Reply to `file.read`: the file's `content`, else the `error` text, else an error.
pub fn file_read_reply(result: &Json) -> (r: Result<String, String>)
    ensures
        match as_str(json_get(*result, "content"@)) {
            Some(c) => (r matches Ok(x) && x@ == c),
            None => match as_str(json_get(*result, "error"@)) {
                Some(e) => (r matches Err(x) && x@ == e),
                None => (r matches Err(x) && x@ == "no content in response"@),
            },
        },
{
    match str_member(result, "content") {
        Some(c) => Ok(c),
        None => match str_member(result, "error") {
            Some(e) => Err(e),
            None => Err(owned("no content in response")),
        },
    }
}

/// Reply to `agent.status`: the `status` ("idle" when absent) and the `run_id`, if any.
pub fn agent_status_reply(result: &Json) -> (r: (String, Option<String>))
    ensures
        r.0@ == str_or(json_get(*result, "status"@), "idle"@),
        match r.1 {
            Some(id) => as_str(json_get(*result, "run_id"@)) == Some(id@),
            None => as_str(json_get(*result, "run_id"@)) is None,
        },
{
    (crate::json::member_str_or(result, "status", "idle"), str_member(result, "run_id"))
}

/// A file or directory as listed by `file.list`.
#[derive(Clone, Debug)]
pub struct FileEntry {
    pub name: String,
    pub is_dir: bool,
    pub size: u64,
}

/// A skill as listed by `skill.list`.
#[derive(Clone, Debug)]
pub struct SkillListEntry {
    pub id: String,
    pub name: String,
    pub version: String,
    pub scope: String,
    pub description: String,
    pub triggers: Vec<String>,
}

/// A persisted session as listed by `session.list`.
#[derive(Clone, Debug)]
pub struct SessionListEntry {
    pub id: String,
    pub entry_count: usize,
    pub created_at: i64,
}

/// The listed session an item of `session.list` reads as: it needs a string `id` and an
/// integer `created_at`; `entry_count` counts as 0 when absent.
pub open spec fn session_item(s: Json) -> Option<(Seq<char>, usize, i64)> {
    match (as_str(json_get(s, "id"@)), as_i64(json_get(s, "created_at"@))) {
        (Some(id), Some(created)) => Some((
            id,
            (match as_u64(json_get(s, "entry_count"@)) {
                Some(n) => n,
                None => 0u64,
            }) as usize,
            created,
        )),
        _ => None,
    }
}

/// The sessions that the items read as, in order, skipping the items that do not.
pub open spec fn session_items(items: Seq<Json>) -> Seq<(Seq<char>, usize, i64)>
    decreases items.len(),
{
    if items.len() == 0 {
        Seq::empty()
    } else {
        let prev = session_items(items.drop_last());
        match session_item(items.last()) {
            Some(e) => prev.push(e),
            None => prev,
        }
    }
}

/// A listed session as a value.
pub open spec fn session_view(e: SessionListEntry) -> (Seq<char>, usize, i64) {
    (e.id@, e.entry_count, e.created_at)
}

/// Reply to `session.list`: the sessions of the `sessions` array.
pub fn session_list_reply(result: &Json) -> (r: Result<Vec<SessionListEntry>, String>)
    ensures
        match as_array(json_get(*result, "sessions"@)) {
            Some(items) => (r matches Ok(v) && v@.map_values(|e: SessionListEntry| session_view(e)) == session_items(items)),
            None => (r matches Err(e) && e@ == "no sessions in response"@),
        },
{
    let items = match items_reply(result, "sessions") {
        Ok(items) => items,
        Err(e) => {
            proof {
                reveal_strlit("no ");
                reveal_strlit("sessions");
                reveal_strlit(" in response");
                reveal_strlit("no sessions in response");
            }
            assert(e@ =~= "no sessions in response"@);
            return Err(e);
        },
    };
    let mut out: Vec<SessionListEntry> = Vec::new();
    let mut i: usize = 0;
    while i < items.len()
        invariant
            i <= items@.len(),
            out@.map_values(|e: SessionListEntry| session_view(e)) == session_items(items@.take(i as int)),
        decreases items.len() - i,
    {
        assert(items@.take(i + 1).drop_last() =~= items@.take(i as int));
        let s = &items[i];
        let id = str_member(s, "id");
        let created = match s.get("created_at") {
            Some(x) => x.as_i64(),
            None => None,
        };
        match (id, created) {
            (Some(id), Some(created_at)) => {
                let n: u64 = match crate::json::member_u64(s, "entry_count") {
                    Some(n) => n,
                    None => 0,
                };
                out.push(SessionListEntry { id, entry_count: n as usize, created_at });
                assert(out@.map_values(|e: SessionListEntry| session_view(e)) =~= session_items(items@.take(i + 1)));
            },
            _ => {},
        }
        i = i + 1;
    }
    assert(items@.take(items@.len() as int) =~= items@);
    Ok(out)
}

/// Reply to `session.entries`: the `error` message ("unknown RPC error" when it has
/// none), else the `entries` array.
pub fn session_entries_reply<'a>(result: &'a Json) -> (r: Result<&'a Vec<Json>, String>)
    ensures
        match error_text(*result, "unknown RPC error"@) {
            Some(m) => (r matches Err(e) && e@ == m),
            None => match as_array(json_get(*result, "entries"@)) {
                Some(items) => (r matches Ok(v) && v@ == items),
                None => (r matches Err(e) && e@ == "no entries in response"@),
            },
        },
{
    if let Some(m) = error_message(result, "unknown RPC error") {
        return Err(m);
    }
    match items_reply(result, "entries") {
        Ok(items) => Ok(items),
        Err(e) => {
            proof {
                reveal_strlit("no ");
                reveal_strlit("entries");
                reveal_strlit(" in response");
                reveal_strlit("no entries in response");
            }
            assert(e@ =~= "no entries in response"@);
            Err(e)
        },
    }
}

/// Reply to `session.resume`: the `error` message ("unknown RPC error" when it has
/// none), else the resumed `session_id` (required), the `entry_count` (0 when absent)
/// and the `entries` array, if any.
pub fn session_resume_reply<'a>(result: &'a Json) -> (r: Result<(String, usize, Option<&'a Vec<Json>>), String>)
    ensures
        match error_text(*result, "unknown RPC error"@) {
            Some(m) => (r matches Err(e) && e@ == m),
            None => match as_str(json_get(*result, "session_id"@)) {
                None => (r matches Err(e) && e@ == "no session_id in response"@),
                Some(id) => (r matches Ok(ok) && ok.0@ == id
                    && ok.1 == (match as_u64(json_get(*result, "entry_count"@)) {
                        Some(n) => n,
                        None => 0u64,
                    }) as usize
                    && match ok.2 {
                        Some(items) => as_array(json_get(*result, "entries"@)) == Some(items@),
                        None => as_array(json_get(*result, "entries"@)) is None,
                    }),
            },
        },
{
    if let Some(m) = error_message(result, "unknown RPC error") {
        return Err(m);
    }
    let session_id = match str_member(result, "session_id") {
        Some(s) => s,
        None => {
            return Err(owned("no session_id in response"));
        },
    };
    let n: u64 = match crate::json::member_u64(result, "entry_count") {
        Some(n) => n,
        None => 0,
    };
    let entries = match result.get("entries") {
        Some(v) => v.as_array(),
        None => None,
    };
    Ok((session_id, n as usize, entries))
}

/// A reply's `error` message (`default` when it has none), else the text member
/// `key`, else the error `missing`.
fn text_reply(result: &Json, key: &str, missing: &str) -> (r: Result<String, String>)
    ensures
        match error_text(*result, "unknown error"@) {
            Some(m) => (r matches Err(e) && e@ == m),
            None => match as_str(json_get(*result, key@)) {
                Some(c) => (r matches Ok(x) && x@ == c),
                None => (r matches Err(e) && e@ == missing@),
            },
        },
{
    if let Some(m) = error_message(result, "unknown error") {
        return Err(m);
    }
    match str_member(result, key) {
        Some(c) => Ok(c),
        None => Err(owned(missing)),
    }
}

/// Reply to `mcp.call_tool`: the `error` message ("unknown error" when it has none),
/// else the text `result`.
pub fn mcp_call_tool_reply(result: &Json) -> (r: Result<String, String>)
    ensures
        match error_text(*result, "unknown error"@) {
            Some(m) => (r matches Err(e) && e@ == m),
            None => match as_str(json_get(*result, "result"@)) {
                Some(c) => (r matches Ok(x) && x@ == c),
                None => (r matches Err(e) && e@ == "no result in response"@),
            },
        },
{
    text_reply(result, "result", "no result in response")
}

/// Reply to `mcp.read_resource`: the `error` message ("unknown error" when it has
/// none), else the text `content`.
pub fn mcp_read_resource_reply(result: &Json) -> (r: Result<String, String>)
    ensures
        match error_text(*result, "unknown error"@) {
            Some(m) => (r matches Err(e) && e@ == m),
            None => match as_str(json_get(*result, "content"@)) {
                Some(c) => (r matches Ok(x) && x@ == c),
                None => (r matches Err(e) && e@ == "no content in response"@),
            },
        },
{
    text_reply(result, "content", "no content in response")
}

/// Reply to `mcp.reconnect`: its `success` flag, false when absent.
pub fn mcp_reconnect_reply(result: &Json) -> (r: bool)
    ensures
        r == (as_bool(json_get(*result, "success"@)) == Some(true)),
{
    match result.get("success") {
        Some(v) => match v.as_bool() {
            Some(b) => b,
            None => false,
        },
        None => false,
    }
}

/// Reply to `skill.get`: the `error` message ("unknown error" when it has none), else
/// the `skill` member, or the whole reply when it has none.
pub fn skill_get_reply<'a>(result: &'a Json) -> (r: Result<&'a Json, String>)
    ensures
        match error_text(*result, "unknown error"@) {
            Some(m) => (r matches Err(e) && e@ == m),
            None => (r matches Ok(x) && *x == (match json_get(*result, "skill"@) {
                Some(s) => s,
                None => *result,
            })),
        },
{
    if let Some(m) = error_message(result, "unknown error") {
        return Err(m);
    }
    match result.get("skill") {
        Some(s) => Ok(s),
        None => Ok(result),
    }
}

/// Reply to `skill.refresh`: the `discovered` count, else the `error` message
/// ("unknown error" when it has none), else an error.
pub fn skill_refresh_reply(result: &Json) -> (r: Result<usize, String>)
    ensures
        match as_u64(json_get(*result, "discovered"@)) {
            Some(n) => r == Ok::<usize, String>(n as usize),
            None => match error_text(*result, "unknown error"@) {
                Some(m) => (r matches Err(e) && e@ == m),
                None => (r matches Err(e) && e@ == "no discovered count in response"@),
            },
        },
{
    match crate::json::member_u64(result, "discovered") {
        Some(n) => Ok(n as usize),
        None => match error_message(result, "unknown error") {
            Some(m) => Err(m),
            None => Err(owned("no discovered count in response")),
        },
    }
}

/// Reply to `tool.call`: the `error` message ("unknown error" when it has none), else
/// the whole reply.
pub fn tool_call_reply<'a>(result: &'a Json) -> (r: Result<&'a Json, String>)
    ensures
        match error_text(*result, "unknown error"@) {
            Some(m) => (r matches Err(e) && e@ == m),
            None => (r matches Ok(x) && *x == *result),
        },
{
    if let Some(m) = error_message(result, "unknown error") {
        return Err(m);
    }
    Ok(result)
}

/// A reply is delivered at most once, with the method its request awaited: once the
/// reply to request `id` is handled, `id` no longer awaits anything, and the other
/// pending requests still await what they did.
pub proof fn lemma_reply_delivered_once(p: Seq<(u64, RpcMethod)>, v: Json)
    requires
        ids_unique(p),
    ensures
        spec_handle(p, Some(v)).1 matches Incoming::Reply { id, method, .. } ==> {
            &&& pending_lookup(p, id) == Some(method)
            &&& pending_lookup(spec_handle(p, Some(v)).0, id) is None
            &&& forall|other: u64| other != id ==> pending_lookup(spec_handle(p, Some(v)).0, other)
                == pending_lookup(p, other)
        },
        ids_unique(spec_handle(p, Some(v)).0),
{
    if !(as_str(json_get(v, "method"@)) == Some("agent.event"@)) {
        if let Some(id) = as_u64(json_get(v, "id"@)) {
            if let Some(i) = pending_index(p, id) {
                lemma_pending_index(p, id);
                let q = p.remove(i);
                assert forall|a: int, b: int| 0 <= a < b < q.len() implies #[trigger] q[a].0 != #[trigger] q[b].0 by {
                    let a0 = if a < i { a } else { a + 1 };
                    let b0 = if b < i { b } else { b + 1 };
                    assert(q[a] == p[a0]);
                    assert(q[b] == p[b0]);
                }
                lemma_pending_index(q, id);
                if let Some(j) = pending_index(q, id) {
                    let j0 = if j < i { j } else { j + 1 };
                    assert(q[j] == p[j0]);
                }
                assert forall|other: u64| other != id implies pending_lookup(q, other) == pending_lookup(p, other) by {
                    lemma_pending_index(q, other);
                    lemma_pending_index(p, other);
                    lemma_index_unique(q, other);
                    lemma_index_unique(p, other);
                    match pending_index(p, other) {
                        Some(k) => {
                            assert(k != i);
                            let k1 = if k < i { k } else { k - 1 };
                            assert(q[k1] == p[k]);
                        },
                        None => {
                            if let Some(k) = pending_index(q, other) {
                                let k0 = if k < i { k } else { k + 1 };
                                assert(q[k] == p[k0]);
                            }
                        },
                    }
                }
            }
        }
    }
}

/// Updating the entry of `id` in place keeps the ids unique and the other lookups.
proof fn lemma_index_after_update(p: Seq<(u64, RpcMethod)>, i: int, id: u64, m: RpcMethod)
    requires
        ids_unique(p),
        0 <= i < p.len(),
        p[i].0 == id,
    ensures
        ids_unique(p.update(i, (id, m))),
        pending_lookup(p.update(i, (id, m)), id) == Some(m),
        forall|other: u64| other != id ==> pending_lookup(p.update(i, (id, m)), other)
            == pending_lookup(p, other),
{
    let q = p.update(i, (id, m));
    assert forall|k: int| 0 <= k < q.len() implies #[trigger] q[k].0 == p[k].0 by {}
    assert forall|a: int, b: int| 0 <= a < b < q.len() implies #[trigger] q[a].0 != #[trigger] q[b].0 by {
        assert(q[a].0 == p[a].0);
        assert(q[b].0 == p[b].0);
    }
    lemma_index_unique(q, id);
    assert(q[i].0 == id);
    assert forall|other: u64| other != id implies pending_lookup(q, other) == pending_lookup(p, other) by {
        lemma_pending_index(q, other);
        lemma_pending_index(p, other);
        lemma_index_unique(q, other);
        lemma_index_unique(p, other);
        match pending_index(p, other) {
            Some(j) => {
                assert(q[j].0 == other);
            },
            None => {
                match pending_index(q, other) {
                    Some(j) => {
                        assert(p[j].0 == q[j].0);
                    },
                    None => {},
                }
            },
        }
    }
}

/// With unique ids, the index of an id is the one position holding it.
proof fn lemma_index_unique(p: Seq<(u64, RpcMethod)>, id: u64)
    requires
        ids_unique(p),
    ensures
        forall|j: int| 0 <= j < p.len() && p[j].0 == id ==> pending_index(p, id) == Some(j),
{
    lemma_pending_index(p, id);
}

/// A data-plane connection to one node.
#[derive(Debug)]
pub struct DpConnection {
    pub client: JsonRpcClient,
    pub node_id: String,
    pub ws_url: String,
    pub agent_ids: Vec<String>,
}

/// Position of the first connection to `node_id`.
pub open spec fn conn_index(cs: Seq<DpConnection>, node_id: Seq<char>) -> Option<int>
    decreases cs.len(),
{
    if cs.len() == 0 {
        None
    } else if cs[0].node_id@ == node_id {
        Some(0)
    } else {
        match conn_index(cs.drop_first(), node_id) {
            Some(i) => Some(i + 1),
            None => None,
        }
    }
}

proof fn lemma_conn_index(cs: Seq<DpConnection>, node_id: Seq<char>)
    ensures
        match conn_index(cs, node_id) {
            Some(i) => 0 <= i < cs.len() && cs[i].node_id@ == node_id
                && forall|j: int| 0 <= j < i ==> #[trigger] cs[j].node_id@ != node_id,
            None => forall|j: int| 0 <= j < cs.len() ==> #[trigger] cs[j].node_id@ != node_id,
        },
    decreases cs.len(),
{
    if cs.len() > 0 && cs[0].node_id@ != node_id {
        lemma_conn_index(cs.drop_first(), node_id);
        assert forall|j: int| 1 <= j < cs.len() implies cs.drop_first()[j - 1] == #[trigger] cs[j] by {}
    }
}

/// Data-plane connections, one per node, created when first needed.
#[derive(Debug)]
pub struct DpConnectionPool {
    pub connections: Vec<DpConnection>,
}

impl DpConnectionPool {
    /// An empty pool.
    pub fn new() -> (p: Self)
        ensures
            p.connections@.len() == 0,
    {
        DpConnectionPool { connections: Vec::new() }
    }

    fn find(&self, node_id: &str) -> (r: Option<usize>)
        ensures
            match r {
                Some(i) => conn_index(self.connections@, node_id@) == Some(i as int) && i < self.connections@.len(),
                None => conn_index(self.connections@, node_id@) is None,
            },
    {
        proof {
            lemma_conn_index(self.connections@, node_id@);
        }
        let mut i: usize = 0;
        while i < self.connections.len()
            invariant
                i <= self.connections@.len(),
                forall|j: int| 0 <= j < i ==> #[trigger] self.connections@[j].node_id@ != node_id@,
                match conn_index(self.connections@, node_id@) {
                    Some(m) => 0 <= m < self.connections@.len() && self.connections@[m].node_id@ == node_id@
                        && forall|j: int| 0 <= j < m ==> #[trigger] self.connections@[j].node_id@ != node_id@,
                    None => forall|j: int| 0 <= j < self.connections@.len() ==> #[trigger] self.connections@[j].node_id@ != node_id@,
                },
            decreases self.connections.len() - i,
        {
            if str_eq(self.connections[i].node_id.as_str(), node_id) {
                return Some(i);
            }
            i = i + 1;
        }
        None
    }

    /// The connection to `node_id`, created for `ws_url` and `agent_ids` when the
    /// pool has none; an existing connection is reused as it is. Also says whether
    /// it was created (its socket then needs opening).
    pub fn get_or_create(&mut self, node_id: &str, ws_url: &str, agent_ids: Vec<String>) -> (r: (&DpConnection, bool))
        ensures
            match conn_index(old(self).connections@, node_id@) {
                Some(i) => !r.1 && *r.0 == old(self).connections@[i] && final(self).connections@ == old(self).connections@,
                None => {
                    &&& r.1
                    &&& final(self).connections@.drop_last() == old(self).connections@
                    &&& *r.0 == final(self).connections@.last()
                    &&& r.0.node_id@ == node_id@
                    &&& r.0.ws_url@ == ws_url@
                    &&& r.0.agent_ids == agent_ids
                    &&& r.0.client.url@ == ws_url@
                    &&& r.0.client.state == ConnectionState::Connecting
                },
            },
    {
        match self.find(node_id) {
            Some(i) => (&self.connections[i], false),
            None => {
                let conn = DpConnection {
                    client: JsonRpcClient::new(ws_url),
                    node_id: owned(node_id),
                    ws_url: owned(ws_url),
                    agent_ids,
                };
                self.connections.push(conn);
                let n = self.connections.len();
                assert(self.connections@.drop_last() =~= old(self).connections@);
                (&self.connections[n - 1], true)
            },
        }
    }

    /// The connection to `node_id`, if any.
    pub fn get(&self, node_id: &str) -> (r: Option<&DpConnection>)
        ensures
            match conn_index(self.connections@, node_id@) {
                Some(i) => r == Some(&self.connections@[i]),
                None => r is None,
            },
    {
        match self.find(node_id) {
            Some(i) => Some(&self.connections[i]),
            None => None,
        }
    }

    /// Whether the pool has a connection to `node_id`.
    pub fn contains(&self, node_id: &str) -> (r: bool)
        ensures
            r == (conn_index(self.connections@, node_id@) is Some),
    {
        self.find(node_id).is_some()
    }

    /// The connections.
    pub fn connections(&self) -> (r: &Vec<DpConnection>)
        ensures
            r == &self.connections,
    {
        &self.connections
    }
}

} // verus!
