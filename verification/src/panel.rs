//! The list panels (tasks, skills, tools, MCP, agents): per-node cached lists with
//! their loading and error state, answers that arrive after the user switched nodes,
//! and which view a panel shows.
use vstd::prelude::*;
use crate::cache::{NodeData, NodeDataCache, key_index, lookup};
use crate::conversation::ConversationState;
use crate::graph::TaskEntry;
use crate::text::{owned, str_eq};

verus! {

/// A panel's list for one node, with its loading state.
#[derive(Debug)]
pub struct PanelState<T> {
    pub items: Vec<T>,
    pub loading: bool,
    pub error: Option<String>,
}

impl<T> PanelState<T> {
    /// The state while the list is being fetched.
    pub fn loading() -> (s: Self)
        ensures
            s.items@.len() == 0,
            s.loading,
            s.error is None,
    {
        PanelState { items: Vec::new(), loading: true, error: None }
    }
}

/// What the cache holds for `node` under `key`.
pub open spec fn cached<T>(entries: Seq<(String, NodeData<PanelState<T>>)>, node: Seq<char>, key: Seq<char>) -> Option<PanelState<T>> {
    match lookup(entries, node) {
        Some(d) => lookup(d.data@, key),
        None => None,
    }
}

/// Whether `node`'s list must be fetched: nothing is cached for it under `key`.
pub fn needs_fetch<T>(cache: &NodeDataCache<PanelState<T>>, node_id: &str, key: &str) -> (r: bool)
    ensures
        r == (cached(cache.entries@, node_id@, key@) is None),
{
    match cache.get(node_id) {
        Some(d) => d.get(key).is_none(),
        None => true,
    }
}

/// Record that `node`'s list is being fetched.
pub fn mark_loading<T>(cache: &mut NodeDataCache<PanelState<T>>, node_id: &str, key: &str)
    ensures
        cached(final(cache).entries@, node_id@, key@) matches Some(s)
            && s.items@.len() == 0 && s.loading && s.error is None,
        forall|k: Seq<char>| k != key@ ==> cached(final(cache).entries@, node_id@, k)
            == cached(old(cache).entries@, node_id@, k),
{
    let ghost before = cache.entries@;
    let d = cache.get_or_insert(node_id);
    let _ = d.insert(owned(key), PanelState::loading());
    proof {
        crate::cache::lemma_key_index(before, node_id@);
        crate::cache::lemma_key_index(cache.entries@, node_id@);
        match key_index(before, node_id@) {
            Some(i) => {
                assert(cache.entries@[i] == (before[i].0, cache.entries@[i].1));
                crate::cache::lemma_same_keys_same_index(before, cache.entries@, node_id@);
            },
            None => {
                crate::cache::lemma_inserted_entry_found(before, cache.entries@.last());
                assert(cache.entries@ =~= before.push(cache.entries@.last()));
            },
        }
    }
}

/// Apply the answer to a fetch of `target`'s list: dropped when the user has since
/// switched to another node (or nothing is cached for it); otherwise the list (on
/// success) or the error (on failure) is recorded and loading ends. Says whether it
/// was applied.
pub fn apply_result<T>(
    cache: &mut NodeDataCache<PanelState<T>>,
    active: Option<&str>,
    target: &str,
    key: &str,
    result: Result<Vec<T>, String>,
) -> (applied: bool)
    ensures
        !(active matches Some(a) && a@ == target@) ==> !applied && *final(cache) == *old(cache),
        (active matches Some(a) && a@ == target@) ==> match cached(old(cache).entries@, target@, key@) {
            None => !applied && *final(cache) == *old(cache),
            Some(s) => applied && (cached(final(cache).entries@, target@, key@) matches Some(n) && !n.loading
                && match result {
                    Ok(items) => n.items == items && n.error == s.error,
                    Err(e) => n.items == s.items && n.error == Some(e),
                }),
        },
        forall|n: Seq<char>, k: Seq<char>| !(n == target@ && k == key@) ==> #[trigger] cached(final(cache).entries@, n, k)
            == cached(old(cache).entries@, n, k),
{
    let current_is_target = match active {
        Some(a) => str_eq(a, target),
        None => false,
    };
    if !current_is_target {
        return false;
    }
    if needs_fetch(cache, target, key) {
        return false;
    }
    let ghost before = cache.entries@;
    let applied = match cache.get_mut(target) {
        Some(d) => {
            match d.get_mut(key) {
                Some(s) => {
                    match result {
                        Ok(items) => {
                            s.items = items;
                        },
                        Err(e) => {
                            s.error = Some(e);
                        },
                    }
                    s.loading = false;
                    true
                },
                None => false,
            }
        },
        None => false,
    };
    proof {
        crate::cache::lemma_key_index(before, target@);
        if let Some(i) = key_index(before, target@) {
            assert forall|j: int| 0 <= j < before.len() implies #[trigger] before[j].0 == cache.entries@[j].0 by {}
            crate::cache::lemma_same_keys_same_index(before, cache.entries@, target@);
            let dold = before[i].1;
            let dnew = cache.entries@[i].1;
            crate::cache::lemma_key_index(dold.data@, key@);
            assert forall|j: int| 0 <= j < dold.data@.len() implies #[trigger] dold.data@[j].0 == dnew.data@[j].0 by {}
            crate::cache::lemma_same_keys_same_index(dold.data@, dnew.data@, key@);
            assert forall|n: Seq<char>, k: Seq<char>| !(n == target@ && k == key@) implies #[trigger] cached(cache.entries@, n, k)
                == cached(before, n, k) by {
                crate::cache::lemma_same_keys_same_index(before, cache.entries@, n);
                crate::cache::lemma_key_index(before, n);
                if n != target@ {
                    if let Some(j) = key_index(before, n) {
                        assert(j != i);
                        assert(cache.entries@[j] == before[j]);
                    }
                } else {
                    crate::cache::lemma_same_keys_same_index(dold.data@, dnew.data@, k);
                    crate::cache::lemma_key_index(dold.data@, k);
                    crate::cache::lemma_key_index(dold.data@, key@);
                    if let Some(j) = key_index(dold.data@, k) {
                        if let Some(ki) = key_index(dold.data@, key@) {
                            assert(j != ki);
                        }
                        assert(dnew.data@[j] == dold.data@[j]);
                    }
                }
            }
        }
    }
    applied
}

/// After a reconnect: forget what was cached for the node and fetch its list again.
pub fn refetch_on_connect<T>(cache: &mut NodeDataCache<PanelState<T>>, node_id: &str, key: &str)
    ensures
        cached(final(cache).entries@, node_id@, key@) matches Some(s)
            && s.items@.len() == 0 && s.loading && s.error is None,
        forall|k: Seq<char>| k != key@ ==> cached(final(cache).entries@, node_id@, k) is None,
{
    cache.invalidate(node_id);
    proof {
        crate::cache::lemma_invalidate(old(cache).entries@, node_id@, node_id@);
    }
    let ghost mid = cache.entries@;
    mark_loading(cache, node_id, key);
}

/// What a list panel shows.
#[derive(Clone, Debug)]
pub enum PanelView {
    /// No node is selected.
    NoNode,
    /// Loading failed and there is nothing to show: the error, with a retry button.
    Failed(String),
    /// The list is loading and nothing is shown yet.
    Loading,
    /// Loaded, but the list is empty.
    Empty,
    /// The list (possibly with a loading line).
    List,
}

/// The view of the tasks and agents panels: a failure only counts when there is
/// nothing to show; then loading; an empty list shows the empty state when the panel
/// has one (`has_empty`), the list otherwise.
pub open spec fn spec_list_view(has_node: bool, count: nat, loading: bool, error: Option<String>, has_empty: bool) -> PanelView {
    if !has_node {
        PanelView::NoNode
    } else if count == 0 && error is Some {
        PanelView::Failed(error.unwrap())
    } else if loading && count == 0 {
        PanelView::Loading
    } else if count == 0 && has_empty {
        PanelView::Empty
    } else {
        PanelView::List
    }
}

/// The view of a panel that shows its list when possible (tasks, agents).
pub fn list_view(has_node: bool, count: usize, loading: bool, error: &Option<String>, has_empty: bool) -> (v: PanelView)
    ensures
        v == spec_list_view(has_node, count as nat, loading, *error, has_empty),
{
    if !has_node {
        PanelView::NoNode
    } else if count == 0 && error.is_some() {
        match error {
            Some(e) => PanelView::Failed(e.clone()),
            None => PanelView::List,
        }
    } else if loading && count == 0 {
        PanelView::Loading
    } else if count == 0 && has_empty {
        PanelView::Empty
    } else {
        PanelView::List
    }
}

/// The view of the skills panel: any error fails it; an empty, loaded list shows the
/// empty state.
pub fn skills_view(has_node: bool, count: usize, loading: bool, error: &Option<String>) -> (v: PanelView)
    ensures
        !has_node ==> v is NoNode,
        has_node && error.is_some() ==> v == PanelView::Failed(error.unwrap()),
        has_node && error.is_none() && count == 0 && !loading ==> v is Empty,
        has_node && error.is_none() && !(count == 0 && !loading) ==> v is List,
{
    if !has_node {
        PanelView::NoNode
    } else {
        match error {
            Some(e) => PanelView::Failed(e.clone()),
            None => if count == 0 && !loading {
                PanelView::Empty
            } else {
                PanelView::List
            },
        }
    }
}

/// The tasks whose status is `f`, in order.
pub open spec fn tasks_with_status(tasks: Seq<TaskEntry>, f: Seq<char>) -> Seq<TaskEntry>
    decreases tasks.len(),
{
    if tasks.len() == 0 {
        Seq::empty()
    } else {
        let prev = tasks_with_status(tasks.drop_last(), f);
        if tasks.last().status@ == f {
            prev.push(tasks.last())
        } else {
            prev
        }
    }
}

/// The tasks the status filter shows: all of them with no filter or `all`, else
/// those with that status, in order.
pub open spec fn spec_filter_tasks(tasks: Seq<TaskEntry>, filter: Option<Seq<char>>) -> Seq<TaskEntry> {
    match filter {
        Some(f) => if f == "all"@ {
            tasks
        } else {
            tasks_with_status(tasks, f)
        },
        None => tasks,
    }
}

/// The positions of the tasks the status filter shows, in order.
pub fn filter_tasks(tasks: &Vec<TaskEntry>, filter: Option<&str>) -> (r: Vec<usize>)
    ensures
        r@.map_values(|i: usize| tasks@[i as int]) == spec_filter_tasks(tasks@, match filter {
            Some(f) => Some(f@),
            None => None,
        }),
        forall|k: int| 0 <= k < r@.len() ==> r@[k] < tasks@.len(),
{
    let ghost fv: Option<Seq<char>> = match filter {
        Some(f) => Some(f@),
        None => None,
    };
    let show_all = match filter {
        Some(f) => str_eq(f, "all"),
        None => true,
    };
    let mut r: Vec<usize> = Vec::new();
    let mut i: usize = 0;
    while i < tasks.len()
        invariant
            i <= tasks@.len(),
            forall|k: int| 0 <= k < r@.len() ==> r@[k] < i,
            fv == (match filter {
                Some(f) => Some(f@),
                None => None,
            }),
            show_all == (match fv {
                Some(f) => f == "all"@,
                None => true,
            }),
            r@.map_values(|j: usize| tasks@[j as int]) == spec_filter_tasks(tasks@.take(i as int), fv),
        decreases tasks.len() - i,
    {
        let keep = show_all || match filter {
            Some(f) => str_eq(tasks[i].status.as_str(), f),
            None => true,
        };
        let ghost before = r@.map_values(|j: usize| tasks@[j as int]);
        proof {
            assert(tasks@.take(i + 1).drop_last() =~= tasks@.take(i as int));
            assert(tasks@.take(i + 1).last() == tasks@[i as int]);
            assert(tasks@.take(i as int).push(tasks@[i as int]) =~= tasks@.take(i + 1));
        }
        if keep {
            r.push(i);
            assert(r@.map_values(|j: usize| tasks@[j as int]) =~= before.push(tasks@[i as int]));
        }
        i = i + 1;
    }
    assert(tasks@.take(tasks@.len() as int) =~= tasks@);
    r
}

/// Clicking a task row selects it, or clears the selection when it was selected.
pub fn toggle_selected(selected: Option<u64>, id: u64) -> (r: Option<u64>)
    ensures
        r == (if selected == Some(id) { None } else { Some(id) }),
{
    if selected == Some(id) {
        None
    } else {
        Some(id)
    }
}

/// Color of a task status.
pub open spec fn status_color_spec(status: Seq<char>) -> Seq<char> {
    if status == "pending"@ {
        "#888"@
    } else if status == "running"@ {
        "#4080ff"@
    } else if status == "completed"@ {
        "#40c040"@
    } else if status == "failed"@ {
        "#ff4040"@
    } else if status == "killed"@ {
        "#ff8800"@
    } else {
        "#888"@
    }
}

/// Color of a task status.
pub fn status_color(status: &str) -> (c: &'static str)
    ensures
        c@ == status_color_spec(status@),
{
    if str_eq(status, "pending") {
        "#888"
    } else if str_eq(status, "running") {
        "#4080ff"
    } else if str_eq(status, "completed") {
        "#40c040"
    } else if str_eq(status, "failed") {
        "#ff4040"
    } else if str_eq(status, "killed") {
        "#ff8800"
    } else {
        "#888"
    }
}

/// An agent listed by the server.
#[derive(Clone, Debug)]
pub struct AgentListEntry {
    pub id: String,
    pub name: String,
    pub type_: String,
    pub description: String,
    pub scope: String,
}

/// The agent sub tabs.
#[derive(Clone, Copy, Debug, PartialEq, Eq, Structural)]
pub enum AgentSubTab {
    Conversation,
    Sessions,
}

/// State of the agents panel.
#[derive(Debug)]
pub struct AgentsState {
    pub agents: Vec<AgentListEntry>,
    pub loading: bool,
    pub error: Option<String>,
    pub selected: Option<String>,
    pub sub_tab: AgentSubTab,
}

impl AgentsState {
    /// Nothing loaded, nothing selected, the conversation tab first.
    pub fn new() -> (s: Self)
        ensures
            s.agents@.len() == 0,
            !s.loading,
            s.error is None,
            s.selected is None,
            s.sub_tab == AgentSubTab::Conversation,
    {
        AgentsState { agents: Vec::new(), loading: false, error: None, selected: None, sub_tab: AgentSubTab::Conversation }
    }

    /// The agent list is being fetched.
    pub fn begin_load(&mut self)
        ensures
            final(self).loading,
            final(self).error is None,
            final(self).agents == old(self).agents,
            final(self).selected == old(self).selected,
            final(self).sub_tab == old(self).sub_tab,
    {
        self.loading = true;
        self.error = None;
    }

    /// The agent list arrived (or failed).
    pub fn finish_load(&mut self, result: Result<Vec<AgentListEntry>, String>)
        ensures
            !final(self).loading,
            final(self).selected == old(self).selected,
            final(self).sub_tab == old(self).sub_tab,
            match result {
                Ok(a) => final(self).agents == a && final(self).error is None,
                Err(e) => final(self).agents == old(self).agents && final(self).error == Some(e),
            },
    {
        self.loading = false;
        match result {
            Ok(a) => {
                self.agents = a;
                self.error = None;
            },
            Err(e) => {
                self.error = Some(e);
            },
        }
    }

    /// Clicking an agent card: deselect it when it was selected, else select it and
    /// show its conversation; the shown conversation follows the selection.
    pub fn click_agent(&mut self, conv: &mut ConversationState, agent_id: &str)
        ensures
            match old(self).selected {
                Some(s) if s@ == agent_id@ => final(self).selected is None && final(conv).active_agent is None
                    && final(self).sub_tab == old(self).sub_tab,
                _ => (final(self).selected matches Some(s) && s@ == agent_id@)
                    && (final(conv).active_agent matches Some(a) && a@ == agent_id@)
                    && final(self).sub_tab == AgentSubTab::Conversation,
            },
            final(self).agents == old(self).agents,
            final(conv).agents == old(conv).agents,
    {
        let is_selected = match &self.selected {
            Some(s) => str_eq(s.as_str(), agent_id),
            None => false,
        };
        if is_selected {
            self.selected = None;
            conv.active_agent = None;
        } else {
            self.selected = Some(owned(agent_id));
            self.sub_tab = AgentSubTab::Conversation;
            conv.active_agent = Some(owned(agent_id));
        }
    }
}

/// Color of an agent's scope.
pub fn scope_color(scope: &str) -> (c: &'static str)
    ensures
        c@ == (if scope@ == "repo"@ {
            "#4080ff"@
        } else if scope@ == "user"@ {
            "#40c040"@
        } else {
            "#888"@
        }),
{
    if str_eq(scope, "repo") {
        "#4080ff"
    } else if str_eq(scope, "user") {
        "#40c040"
    } else {
        "#888"
    }
}

/// Counts the five answers that fill the MCP panel; loading ends with the last.
#[derive(Debug)]
pub struct McpFanIn {
    pub remaining: u32,
}

impl McpFanIn {
    /// Five answers to wait for.
    pub fn new() -> (f: Self)
        ensures
            f.remaining == 5,
    {
        McpFanIn { remaining: 5 }
    }

    /// One answer is in; says whether it was the last one.
    pub fn finish_one(&mut self) -> (last: bool)
        requires
            old(self).remaining > 0,
        ensures
            final(self).remaining == old(self).remaining - 1,
            last == (old(self).remaining == 1),
    {
        self.remaining = self.remaining - 1;
        self.remaining == 0
    }
}

} // verus!
