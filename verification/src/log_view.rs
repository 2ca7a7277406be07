//! The log viewer: the runs a node has logged, the events of the run the user opened,
//! answers that arrive after the user switched nodes, and how runs and events are
//! labelled.
use vstd::prelude::*;
use vstd::utf8::{decode_utf8, is_char_boundary};
use vstd::string::StringSliceAdditionalSpecFns;
use crate::text::{owned, concat2, str_eq};

verus! {

/// A logged run as listed by the node.
#[derive(Clone, Debug)]
pub struct LogRunSummary {
    pub run_id: String,
    pub event_count: u64,
    pub last_event: String,
    pub last_event_time: String,
}

/// One event of a logged run.
#[derive(Clone, Debug)]
pub struct LogLine {
    pub timestamp: String,
    pub event_type: String,
    pub summary: String,
}

/// What the log viewer holds for one node.
#[derive(Debug)]
pub struct LogViewerState {
    pub selected_run: Option<String>,
    pub entries: Vec<LogLine>,
    pub run_logs: Vec<LogRunSummary>,
    pub loading: bool,
    pub error: Option<String>,
}

impl LogViewerState {
    /// The state while the run list is fetched: nothing selected or listed, loading.
    pub fn loading() -> (s: Self)
        ensures
            s.selected_run is None,
            s.entries@.len() == 0,
            s.run_logs@.len() == 0,
            s.loading,
            s.error is None,
    {
        LogViewerState { selected_run: None, entries: Vec::new(), run_logs: Vec::new(), loading: true, error: None }
    }

    /// The run list arrived (or failed); loading ends.
    pub fn apply_run_list(&mut self, result: Result<Vec<LogRunSummary>, String>)
        ensures
            !final(self).loading,
            final(self).selected_run == old(self).selected_run,
            final(self).entries == old(self).entries,
            match result {
                Ok(runs) => final(self).run_logs == runs && final(self).error == old(self).error,
                Err(e) => final(self).run_logs == old(self).run_logs && final(self).error == Some(e),
            },
    {
        match result {
            Ok(runs) => {
                self.run_logs = runs;
            },
            Err(e) => {
                self.error = Some(e);
            },
        }
        self.loading = false;
    }

    /// The user opened a run: it is selected, its events are fetched.
    pub fn select_run(&mut self, run_id: &str)
        ensures
            final(self).selected_run matches Some(r) && r@ == run_id@,
            final(self).loading,
            final(self).entries@.len() == 0,
            final(self).run_logs == old(self).run_logs,
            final(self).error == old(self).error,
    {
        self.selected_run = Some(owned(run_id));
        self.loading = true;
        self.entries = Vec::new();
    }

    /// Back to the run list.
    pub fn back_to_list(&mut self)
        ensures
            final(self).selected_run is None,
            final(self).entries == old(self).entries,
            final(self).run_logs == old(self).run_logs,
            final(self).loading == old(self).loading,
            final(self).error == old(self).error,
    {
        self.selected_run = None;
    }

    /// The events of the opened run arrived (or failed); loading ends.
    pub fn apply_entries(&mut self, result: Result<Vec<LogLine>, String>)
        ensures
            !final(self).loading,
            final(self).selected_run == old(self).selected_run,
            final(self).run_logs == old(self).run_logs,
            match result {
                Ok(lines) => final(self).entries == lines && final(self).error == old(self).error,
                Err(e) => final(self).entries == old(self).entries && final(self).error == Some(e),
            },
    {
        match result {
            Ok(lines) => {
                self.entries = lines;
            },
            Err(e) => {
                self.error = Some(e);
            },
        }
        self.loading = false;
    }
}

/// Whether an answer fetched for `target` still applies: the user has not switched
/// to another node since.
pub fn still_current(active: Option<&str>, target: &str) -> (r: bool)
    ensures
        r == (active matches Some(a) && a@ == target@),
{
    match active {
        Some(a) => str_eq(a, target),
        None => false,
    }
}

/// What the log viewer shows.
#[derive(Clone, Debug)]
pub enum LogView {
    /// No node is selected.
    NoNode,
    /// The run list is loading and nothing is listed yet.
    LoadingRuns,
    /// No run was logged.
    NoRuns,
    /// The run list.
    Runs,
    /// The opened run's events are loading.
    LoadingEntries,
    /// The opened run has no events.
    NoEntries,
    /// The opened run's events.
    Entries,
}

/// The view of the log viewer.
pub open spec fn spec_log_view(has_node: bool, s: Option<LogViewerState>) -> LogView {
    if !has_node {
        LogView::NoNode
    } else {
        match s {
            None => LogView::NoRuns,
            Some(st) => if st.loading && st.run_logs@.len() == 0 {
                LogView::LoadingRuns
            } else if st.selected_run is Some {
                if st.loading && st.entries@.len() == 0 {
                    LogView::LoadingEntries
                } else if st.entries@.len() == 0 {
                    LogView::NoEntries
                } else {
                    LogView::Entries
                }
            } else if st.run_logs@.len() == 0 {
                LogView::NoRuns
            } else {
                LogView::Runs
            },
        }
    }
}

/// The view of the log viewer, from whether a node is selected and what is cached
/// for it.
pub fn log_view(has_node: bool, s: Option<&LogViewerState>) -> (v: LogView)
    ensures
        v == spec_log_view(has_node, match s { Some(x) => Some(*x), None => None }),
{
    if !has_node {
        return LogView::NoNode;
    }
    match s {
        None => LogView::NoRuns,
        Some(st) => if st.loading && st.run_logs.len() == 0 {
            LogView::LoadingRuns
        } else if st.selected_run.is_some() {
            if st.loading && st.entries.len() == 0 {
                LogView::LoadingEntries
            } else if st.entries.len() == 0 {
                LogView::NoEntries
            } else {
                LogView::Entries
            }
        } else if st.run_logs.len() == 0 {
            LogView::NoRuns
        } else {
            LogView::Runs
        },
    }
}

/// A run id as listed: ids longer than 12 bytes show their first 9 bytes and `...`.
pub fn short_run_id(run_id: &str) -> (r: String)
    requires
        run_id.spec_bytes().len() <= usize::MAX,
        run_id.spec_bytes().len() > 12 ==> is_char_boundary(run_id.spec_bytes(), 9),
    ensures
        run_id.spec_bytes().len() <= 12 ==> r@ == run_id@,
        run_id.spec_bytes().len() > 12 ==> r@ == decode_utf8(run_id.spec_bytes().subrange(0, 9)) + "..."@,
{
    if run_id.len() > 12 {
        let (head, _) = run_id.split_at(9);
        proof {
            vstd::utf8::encode_utf8_decode_utf8(head@);
        }
        concat2(head, "...")
    } else {
        owned(run_id)
    }
}

/// Color of a logged event: green for a run starting or completing, yellow for a
/// tool call starting or completing, red for a failed tool call or an aborted run.
pub open spec fn spec_log_event_color(event_type: Seq<char>) -> Seq<char> {
    if event_type == "AgentStart"@ || event_type == "AgentComplete"@ {
        "#40c040"@
    } else if event_type == "ToolCallBegin"@ || event_type == "ToolCallComplete"@ {
        "#c0c040"@
    } else if event_type == "ToolCallError"@ || event_type == "AgentAborted"@ {
        "#c04040"@
    } else {
        "#e0e0e0"@
    }
}

/// Color of a logged event.
pub fn log_event_color(event_type: &str) -> (c: &'static str)
    ensures
        c@ == spec_log_event_color(event_type@),
{
    if str_eq(event_type, "AgentStart") || str_eq(event_type, "AgentComplete") {
        "#40c040"
    } else if str_eq(event_type, "ToolCallBegin") || str_eq(event_type, "ToolCallComplete") {
        "#c0c040"
    } else if str_eq(event_type, "ToolCallError") || str_eq(event_type, "AgentAborted") {
        "#c04040"
    } else {
        "#e0e0e0"
    }
}

} // verus!
