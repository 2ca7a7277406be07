//! The MCP panel: the five lists a node's MCP servers offer, filled by five answers
//! that arrive in any order, a server reconnect that refreshes servers and tools, and
//! what the panel shows.
use vstd::prelude::*;
use crate::json::Json;
use crate::panel::McpFanIn;
use crate::text::str_eq;

verus! {

/// The five lists of the MCP panel.
#[derive(Clone, Copy, Debug, PartialEq, Eq, Structural)]
pub enum McpList {
    Servers,
    Tools,
    Resources,
    ResourceTemplates,
    Prompts,
}

/// The MCP panel's data for one node.
#[derive(Debug)]
pub struct McpPanelState {
    pub servers: Vec<Json>,
    pub tools: Vec<Json>,
    pub resources: Vec<Json>,
    pub resource_templates: Vec<Json>,
    pub prompts: Vec<Json>,
    pub loading: bool,
    pub error: Option<String>,
    pub fan_in: McpFanIn,
}

/// One awaited answer arrived: loading ends with the last one, the count goes down.
pub open spec fn fan_in_step(loading: bool, remaining: u32) -> (bool, u32) {
    (loading && remaining != 1, if remaining > 0 { (remaining - 1) as u32 } else { 0 })
}

/// Loading flag and awaited count after `k` answers, starting from a fresh panel.
pub open spec fn fan_in_after(k: nat) -> (bool, u32)
    decreases k,
{
    if k == 0 {
        (true, 5)
    } else {
        let p = fan_in_after((k - 1) as nat);
        fan_in_step(p.0, p.1)
    }
}

/// The panel keeps loading until the fifth answer, whatever order the answers come
/// in, and is done from then on.
pub proof fn lemma_loading_ends_with_fifth_answer(k: nat)
    ensures
        fan_in_after(k).0 == (k < 5),
        fan_in_after(k).1 == (if k < 5 { 5 - k } else { 0 }),
    decreases k,
{
    if k > 0 {
        lemma_loading_ends_with_fifth_answer((k - 1) as nat);
    }
}

/// The list `which` of the panel.
pub open spec fn list_of(s: McpPanelState, which: McpList) -> Seq<Json> {
    match which {
        McpList::Servers => s.servers@,
        McpList::Tools => s.tools@,
        McpList::Resources => s.resources@,
        McpList::ResourceTemplates => s.resource_templates@,
        McpList::Prompts => s.prompts@,
    }
}

impl McpPanelState {
    /// Empty lists, loading, five answers awaited.
    pub fn new() -> (s: Self)
        ensures
            forall|w: McpList| list_of(s, w).len() == 0,
            s.loading,
            s.error is None,
            s.fan_in.remaining == 5,
    {
        McpPanelState {
            servers: Vec::new(),
            tools: Vec::new(),
            resources: Vec::new(),
            resource_templates: Vec::new(),
            prompts: Vec::new(),
            loading: true,
            error: None,
            fan_in: McpFanIn::new(),
        }
    }

    /// One of the five answers arrived for the node still shown: a list that came
    /// fills its slot; a failure is recorded only for the servers (the other lists
    /// stay as they were). Loading ends with the last awaited answer.
    pub fn apply_list(&mut self, which: McpList, result: Result<Vec<Json>, String>)
        ensures
            match result {
                Ok(items) => list_of(*final(self), which) == items@ && final(self).error == old(self).error,
                Err(e) => list_of(*final(self), which) == list_of(*old(self), which)
                    && final(self).error == (if which == McpList::Servers { Some(e) } else { old(self).error }),
            },
            forall|w: McpList| w != which ==> list_of(*final(self), w) == list_of(*old(self), w),
            (final(self).loading, final(self).fan_in.remaining) == fan_in_step(old(self).loading, old(self).fan_in.remaining),
    {
        match result {
            Ok(items) => match which {
                McpList::Servers => {
                    self.servers = items;
                },
                McpList::Tools => {
                    self.tools = items;
                },
                McpList::Resources => {
                    self.resources = items;
                },
                McpList::ResourceTemplates => {
                    self.resource_templates = items;
                },
                McpList::Prompts => {
                    self.prompts = items;
                },
            },
            Err(e) => {
                if which == McpList::Servers {
                    self.error = Some(e);
                }
            },
        }
        if self.fan_in.remaining > 0 {
            let last = self.fan_in.finish_one();
            if last {
                self.loading = false;
            }
        }
    }

    /// The server list fetched again after a reconnect: it replaces the old one and
    /// clears the error; a failure changes nothing.
    pub fn apply_reconnect_servers(&mut self, result: Result<Vec<Json>, String>)
        ensures
            match result {
                Ok(items) => final(self).servers@ == items@ && final(self).error is None,
                Err(_) => final(self).servers == old(self).servers && final(self).error == old(self).error,
            },
            forall|w: McpList| w != McpList::Servers ==> list_of(*final(self), w) == list_of(*old(self), w),
            final(self).loading == old(self).loading,
            final(self).fan_in == old(self).fan_in,
    {
        if let Ok(items) = result {
            self.servers = items;
            self.error = None;
        }
    }

    /// The tool list fetched again after a reconnect: it replaces the old one; a
    /// failure changes nothing.
    pub fn apply_reconnect_tools(&mut self, result: Result<Vec<Json>, String>)
        ensures
            match result {
                Ok(items) => final(self).tools@ == items@,
                Err(_) => final(self).tools == old(self).tools,
            },
            forall|w: McpList| w != McpList::Tools ==> list_of(*final(self), w) == list_of(*old(self), w),
            final(self).error == old(self).error,
            final(self).loading == old(self).loading,
            final(self).fan_in == old(self).fan_in,
    {
        if let Ok(items) = result {
            self.tools = items;
        }
    }
}

/// Whether a reconnect's answer leads to fetching servers and tools again: the
/// server reports it reconnected and the user is still on that node.
pub fn reconnect_refetches(result: &Result<bool, String>, still_current: bool) -> (r: bool)
    ensures
        r == (result matches Ok(true) && still_current),
{
    match result {
        Ok(true) => still_current,
        _ => false,
    }
}

/// What the MCP panel shows.
#[derive(Clone, Copy, Debug, PartialEq, Eq, Structural)]
pub enum McpView {
    /// No node is selected.
    NoNode,
    /// The lists are loading (or nothing is cached yet).
    Loading,
    /// The sub tabs with the lists.
    Tabs,
}

/// The view of the MCP panel.
pub fn mcp_view(has_node: bool, state: Option<&McpPanelState>) -> (v: McpView)
    ensures
        v == (if !has_node {
            McpView::NoNode
        } else {
            match state {
                None => McpView::Loading,
                Some(s) => if s.loading { McpView::Loading } else { McpView::Tabs },
            }
        }),
{
    if !has_node {
        McpView::NoNode
    } else {
        match state {
            None => McpView::Loading,
            Some(s) => if s.loading {
                McpView::Loading
            } else {
                McpView::Tabs
            },
        }
    }
}

/// Whether the servers tab shows its empty state: no server and no error.
pub fn servers_empty(state: &McpPanelState) -> (r: bool)
    ensures
        r == (state.servers@.len() == 0 && state.error is None),
{
    state.servers.len() == 0 && state.error.is_none()
}

/// Color of an MCP server status.
pub open spec fn spec_server_status_color(status: Seq<char>) -> Seq<char> {
    if status == "connected"@ {
        "#40c040"@
    } else if status == "connecting"@ {
        "#f0c040"@
    } else if status == "disconnected"@ {
        "#888"@
    } else {
        "#c04040"@
    }
}

/// Color of an MCP server status.
pub fn server_status_color(status: &str) -> (c: &'static str)
    ensures
        c@ == spec_server_status_color(status@),
{
    if str_eq(status, "connected") {
        "#40c040"
    } else if str_eq(status, "connecting") {
        "#f0c040"
    } else if str_eq(status, "disconnected") {
        "#888"
    } else {
        "#c04040"
    }
}

/// A server offers the reconnect button unless it is connected or connecting.
pub fn shows_reconnect(status: &str) -> (r: bool)
    ensures
        r == (status@ != "connected"@ && status@ != "connecting"@),
{
    !str_eq(status, "connected") && !str_eq(status, "connecting")
}

} // verus!
