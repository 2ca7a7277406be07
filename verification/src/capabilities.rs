//! The capability drawer: which tools, skills and MCP servers an agent uses, the
//! toggles that change them with their saving feedback, and the filtered lists the
//! drawer shows.
use vstd::prelude::*;
use crate::cache::{NodeData, lookup, without_key};
use crate::json::{Json, json_get, str_or};
use crate::text::{owned, concat3, str_eq, to_lowercase, spec_to_lowercase};
use crate::workspace::StringSet;

verus! {

/// Whether `needle` occurs in `hay`.
pub open spec fn contains_seq(hay: Seq<char>, needle: Seq<char>) -> bool {
    exists|i: int| 0 <= i && i + needle.len() <= hay.len() && #[trigger] hay.subrange(i, i + needle.len()) == needle
}

/// Whether `needle` occurs in `hay` (`str::contains`).
#[verifier::external_body]
pub(crate) fn str_contains(hay: &str, needle: &str) -> (r: bool)
    ensures
        r == contains_seq(hay@, needle@),
{
    hay.contains(needle)
}

/// The capability groups of the drawer.
#[derive(Clone, Copy, Debug, PartialEq, Eq, Structural)]
pub enum CapGroup {
    Tools,
    Skills,
    Mcps,
}

/// The group a group key names.
pub open spec fn cap_group(key: Seq<char>) -> Option<CapGroup> {
    if key == "tools"@ {
        Some(CapGroup::Tools)
    } else if key == "skills"@ {
        Some(CapGroup::Skills)
    } else if key == "mcps"@ {
        Some(CapGroup::Mcps)
    } else {
        None
    }
}

fn cap_group_of(key: &str) -> (r: Option<CapGroup>)
    ensures
        r == cap_group(key@),
{
    if str_eq(key, "tools") {
        Some(CapGroup::Tools)
    } else if str_eq(key, "skills") {
        Some(CapGroup::Skills)
    } else if str_eq(key, "mcps") {
        Some(CapGroup::Mcps)
    } else {
        None
    }
}

/// Saving feedback of a toggle.
#[derive(Clone, Debug)]
pub enum ToggleSavingState {
    Saving,
    Saved,
    Error(String),
}

/// The capabilities selected in the drawer, per group.
#[derive(Debug)]
pub struct CapabilitySelection {
    pub tools: StringSet,
    pub skills: StringSet,
    pub mcps: StringSet,
}

/// The selected names of a group.
pub open spec fn selected(s: CapabilitySelection, g: CapGroup) -> Set<Seq<char>> {
    match g {
        CapGroup::Tools => s.tools@,
        CapGroup::Skills => s.skills@,
        CapGroup::Mcps => s.mcps@,
    }
}

impl CapabilitySelection {
    /// Well formed: each group's set is.
    pub open spec fn wf(&self) -> bool {
        self.tools.wf() && self.skills.wf() && self.mcps.wf()
    }

    /// Selections that are the effective capabilities.
    pub fn from_effective(tools: &Vec<String>, skills: &Vec<String>, mcps: &Vec<String>) -> (s: Self)
        ensures
            s.wf(),
            s.tools@ == tools@.map_values(|x: String| x@).to_set(),
            s.skills@ == skills@.map_values(|x: String| x@).to_set(),
            s.mcps@ == mcps@.map_values(|x: String| x@).to_set(),
    {
        CapabilitySelection {
            tools: StringSet::from_strings(tools),
            skills: StringSet::from_strings(skills),
            mcps: StringSet::from_strings(mcps),
        }
    }

    fn set_selected(&mut self, g: CapGroup, name: &str, on: bool)
        requires
            old(self).wf(),
        ensures
            final(self).wf(),
            selected(*final(self), g) == if on {
                selected(*old(self), g).insert(name@)
            } else {
                selected(*old(self), g).remove(name@)
            },
            forall|h: CapGroup| h != g ==> selected(*final(self), h) == selected(*old(self), h),
    {
        match g {
            CapGroup::Tools => if on {
                self.tools.insert(name)
            } else {
                self.tools.remove(name)
            },
            CapGroup::Skills => if on {
                self.skills.insert(name)
            } else {
                self.skills.remove(name)
            },
            CapGroup::Mcps => if on {
                self.mcps.insert(name)
            } else {
                self.mcps.remove(name)
            },
        }
    }

    fn is_selected(&self, g: CapGroup, name: &str) -> (r: bool)
        ensures
            r == selected(*self, g).contains(name@),
    {
        match g {
            CapGroup::Tools => self.tools.contains(name),
            CapGroup::Skills => self.skills.contains(name),
            CapGroup::Mcps => self.mcps.contains(name),
        }
    }
}

/// The effective capabilities an agent has.
#[derive(Debug)]
pub struct EffectiveCapabilities {
    pub effective_tools: Vec<String>,
    pub effective_skills: Vec<String>,
    pub effective_mcp_servers: Vec<String>,
}

/// State of the capability drawer.
#[derive(Debug)]
pub struct CapabilityDrawerState {
    pub open: bool,
    pub loaded: bool,
    pub load_error: Option<String>,
    pub search: String,
    pub collapsed_sections: StringSet,
    pub saving_states: NodeData<ToggleSavingState>,
}

impl CapabilityDrawerState {
    /// Close the drawer; its capabilities are fetched again when it next opens.
    pub fn close(&mut self)
        ensures
            !final(self).open,
            !final(self).loaded,
            final(self).load_error is None,
            final(self).search == old(self).search,
            final(self).saving_states == old(self).saving_states,
    {
        self.open = false;
        self.loaded = false;
        self.load_error = None;
    }

    /// Collapse or expand the section titled `title`.
    pub fn toggle_section(&mut self, title: &str)
        requires
            old(self).collapsed_sections.wf(),
        ensures
            final(self).collapsed_sections.wf(),
            final(self).collapsed_sections@ == if old(self).collapsed_sections@.contains(title@) {
                old(self).collapsed_sections@.remove(title@)
            } else {
                old(self).collapsed_sections@.insert(title@)
            },
    {
        if self.collapsed_sections.contains(title) {
            self.collapsed_sections.remove(title);
        } else {
            self.collapsed_sections.insert(title);
        }
    }
}

/// The key of a toggle's saving feedback: `group:name`.
pub open spec fn toggle_key(group: Seq<char>, name: Seq<char>) -> Seq<char> {
    group + ":"@ + name
}

/// The request that saves the selections of an agent's session.
#[derive(Debug)]
pub struct UpdateRequest {
    pub agent_id: String,
    pub session_id: String,
    pub tools: Vec<String>,
    pub skills: Vec<String>,
    pub mcps: Vec<String>,
}

/// Names as a set.
pub open spec fn name_set(v: Seq<String>) -> Set<Seq<char>> {
    v.map_values(|x: String| x@).to_set()
}

/// `s` with `name` selected (`on`) or deselected.
pub open spec fn toggled(s: Set<Seq<char>>, name: Seq<char>, on: bool) -> Set<Seq<char>> {
    if on {
        s.insert(name)
    } else {
        s.remove(name)
    }
}

/// A toggle flipped: select or deselect `name` in `group`, mark the toggle as saving,
/// and return the request that saves the new selections (none without a selected
/// agent). An unknown group changes nothing.
pub fn begin_toggle(
    sel: &mut CapabilitySelection,
    drawer: &mut CapabilityDrawerState,
    group: &str,
    name: &str,
    enabled: bool,
    agent_id: &str,
    session_id: &str,
) -> (r: Option<UpdateRequest>)
    requires
        old(sel).wf(),
    ensures
        final(sel).wf(),
        match cap_group(group@) {
            None => r is None && *final(sel) == *old(sel) && *final(drawer) == *old(drawer),
            Some(g) => {
                &&& selected(*final(sel), g) == toggled(selected(*old(sel), g), name@, enabled)
                &&& forall|h: CapGroup| h != g ==> selected(*final(sel), h) == selected(*old(sel), h)
                &&& (lookup(final(drawer).saving_states.data@, toggle_key(group@, name@)) matches Some(ToggleSavingState::Saving))
                &&& forall|k: Seq<char>| k != toggle_key(group@, name@) ==> lookup(final(drawer).saving_states.data@, k)
                    == lookup(old(drawer).saving_states.data@, k)
                &&& final(drawer).open == old(drawer).open
                &&& final(drawer).loaded == old(drawer).loaded
                &&& (if agent_id@.len() == 0 {
                    r is None
                } else {
                    (r matches Some(req) && req.agent_id@ == agent_id@ && req.session_id@ == session_id@
                        && name_set(req.tools@) == final(sel).tools@ && name_set(req.skills@) == final(sel).skills@
                        && name_set(req.mcps@) == final(sel).mcps@)
                })
            },
        },
{
    let g = match cap_group_of(group) {
        Some(g) => g,
        None => {
            return None;
        },
    };
    sel.set_selected(g, name, enabled);
    drawer.saving_states.insert(concat3(group, ":", name), ToggleSavingState::Saving);
    if agent_id.unicode_len() == 0 {
        return None;
    }
    Some(UpdateRequest {
        agent_id: owned(agent_id),
        session_id: owned(session_id),
        tools: sel.tools.to_vec(),
        skills: sel.skills.to_vec(),
        mcps: sel.mcps.to_vec(),
    })
}

/// The answer to a toggle's save arrived. It is dropped when the toggle has been
/// flipped again since (the selection no longer matches `enabled`) or the group is
/// unknown. A success takes the server's effective capabilities and marks the
/// toggle saved (the runner clears the mark 1.5 s later: the result says when to
/// schedule that); a failure undoes the selection change and records the error.
pub fn finish_toggle(
    sel: &mut CapabilitySelection,
    drawer: &mut CapabilityDrawerState,
    caps: &mut EffectiveCapabilities,
    group: &str,
    name: &str,
    enabled: bool,
    result: Result<EffectiveCapabilities, String>,
) -> (schedule_clear: bool)
    requires
        old(sel).wf(),
    ensures
        final(sel).wf(),
        match cap_group(group@) {
            None => !schedule_clear && *final(sel) == *old(sel) && *final(drawer) == *old(drawer) && *final(caps) == *old(caps),
            Some(g) => if selected(*old(sel), g).contains(name@) != enabled {
                !schedule_clear && *final(sel) == *old(sel) && *final(drawer) == *old(drawer) && *final(caps) == *old(caps)
            } else {
                &&& forall|k: Seq<char>| k != toggle_key(group@, name@) ==> lookup(final(drawer).saving_states.data@, k)
                    == lookup(old(drawer).saving_states.data@, k)
                &&& match result {
                    Ok(upd) => {
                        &&& schedule_clear
                        &&& *final(caps) == upd
                        &&& *final(sel) == *old(sel)
                        &&& (lookup(final(drawer).saving_states.data@, toggle_key(group@, name@)) matches Some(ToggleSavingState::Saved))
                    },
                    Err(e) => {
                        &&& !schedule_clear
                        &&& *final(caps) == *old(caps)
                        &&& selected(*final(sel), g) == toggled(selected(*old(sel), g), name@, !enabled)
                        &&& forall|h: CapGroup| h != g ==> selected(*final(sel), h) == selected(*old(sel), h)
                        &&& lookup(final(drawer).saving_states.data@, toggle_key(group@, name@))
                            == Some(ToggleSavingState::Error(e))
                    },
                }
            },
        },
{
    let g = match cap_group_of(group) {
        Some(g) => g,
        None => {
            return false;
        },
    };
    if sel.is_selected(g, name) != enabled {
        return false;
    }
    match result {
        Ok(upd) => {
            *caps = upd;
            drawer.saving_states.insert(concat3(group, ":", name), ToggleSavingState::Saved);
            true
        },
        Err(e) => {
            sel.set_selected(g, name, !enabled);
            drawer.saving_states.insert(concat3(group, ":", name), ToggleSavingState::Error(e));
            false
        },
    }
}

/// Clear the saved mark of toggle `key`, unless it has changed since.
pub fn clear_saved(drawer: &mut CapabilityDrawerState, key: &str)
    ensures
        match lookup(old(drawer).saving_states.data@, key@) {
            Some(ToggleSavingState::Saved) => final(drawer).saving_states.data@
                == without_key(old(drawer).saving_states.data@, key@),
            _ => *final(drawer) == *old(drawer),
        },
{
    let saved = match drawer.saving_states.get(key) {
        Some(ToggleSavingState::Saved) => true,
        _ => false,
    };
    if saved {
        drawer.saving_states.remove(key);
    }
}

/// The name of an available capability: its `name` text, empty when it has none.
pub open spec fn item_name(v: Json) -> Seq<char> {
    str_or(json_get(v, "name"@), Seq::empty())
}

/// Whether a name matches the search: an empty search matches everything, else
/// the lower-cased name must contain the lower-cased search.
pub open spec fn matches_search(name: Seq<char>, search: Seq<char>) -> bool {
    let s = spec_to_lowercase(search);
    s.len() == 0 || contains_seq(spec_to_lowercase(name), s)
}

/// Whether `name` is one of `names`.
pub open spec fn has_name(names: Seq<String>, name: Seq<char>) -> bool {
    exists|i: int| 0 <= i < names.len() && #[trigger] names[i]@ == name
}

/// The rows of a section: the named items that match the search, in order, each
/// with whether it is part of the agent's base set.
pub open spec fn section_rows(items: Seq<Json>, base: Seq<String>, search: Seq<char>) -> Seq<(Seq<char>, bool)>
    decreases items.len(),
{
    if items.len() == 0 {
        Seq::empty()
    } else {
        let prev = section_rows(items.drop_last(), base, search);
        let n = item_name(items.last());
        if n.len() == 0 || !matches_search(n, search) {
            prev
        } else {
            prev.push((n, has_name(base, n)))
        }
    }
}

fn contains_name(names: &Vec<String>, name: &str) -> (r: bool)
    ensures
        r == has_name(names@, name@),
{
    let mut i: usize = 0;
    while i < names.len()
        invariant
            i <= names@.len(),
            forall|j: int| 0 <= j < i ==> names@[j]@ != name@,
        decreases names.len() - i,
    {
        if str_eq(names[i].as_str(), name) {
            return true;
        }
        i = i + 1;
    }
    false
}

/// The rows a section of the drawer lists.
pub fn section_items(items: &Vec<Json>, base_set: &Vec<String>, search: &str) -> (r: Vec<(String, bool)>)
    ensures
        r@.map_values(|x: (String, bool)| (x.0@, x.1)) == section_rows(items@, base_set@, search@),
{
    let search_lower = to_lowercase(search);
    let mut r: Vec<(String, bool)> = Vec::new();
    let mut i: usize = 0;
    while i < items.len()
        invariant
            i <= items@.len(),
            search_lower@ == spec_to_lowercase(search@),
            r@.map_values(|x: (String, bool)| (x.0@, x.1)) == section_rows(items@.take(i as int), base_set@, search@),
        decreases items.len() - i,
    {
        assert(items@.take(i + 1).drop_last() =~= items@.take(i as int));
        assert(items@.take(i + 1).last() == items@[i as int]);
        proof {
            reveal_strlit("");
        }
        let name = crate::json::member_str_or(&items[i], "name", "");
        assert(name@ == item_name(items@[i as int]));
        let shown = if name.as_str().unicode_len() == 0 {
            false
        } else if search_lower.as_str().unicode_len() == 0 {
            true
        } else {
            let lower = to_lowercase(name.as_str());
            str_contains(lower.as_str(), search_lower.as_str())
        };
        if shown {
            let is_base = contains_name(base_set, name.as_str());
            let ghost before = r@.map_values(|x: (String, bool)| (x.0@, x.1));
            r.push((name, is_base));
            assert(r@.map_values(|x: (String, bool)| (x.0@, x.1)) =~= before.push((item_name(items@[i as int]), is_base)));
        }
        i = i + 1;
    }
    assert(items@.take(items@.len() as int) =~= items@);
    r
}

/// The icon and style of a toggle's saving feedback.
pub fn saving_indicator(state: Option<&ToggleSavingState>) -> (r: (&'static str, &'static str))
    ensures
        match state {
            Some(ToggleSavingState::Saving) => r.0@ == "\u{25CC}"@ && r.1@ == "text-[#c0a040] animate-spin"@,
            Some(ToggleSavingState::Saved) => r.0@ == "\u{2713}"@ && r.1@ == "text-[#40c040]"@,
            Some(ToggleSavingState::Error(_)) => r.0@ == "\u{26A0}"@ && r.1@ == "text-[#c04040]"@,
            None => r.0@ == ""@ && r.1@ == ""@,
        },
{
    match state {
        Some(ToggleSavingState::Saving) => ("\u{25CC}", "text-[#c0a040] animate-spin"),
        Some(ToggleSavingState::Saved) => ("\u{2713}", "text-[#40c040]"),
        Some(ToggleSavingState::Error(_)) => ("\u{26A0}", "text-[#c04040]"),
        None => ("", ""),
    }
}

/// The tools panel's capability overlay: the agent's effective and default tools,
/// the tools ticked in the panel, and whether the ticks differ from what was last
/// loaded or applied.
#[derive(Debug)]
pub struct ToolOverlay {
    pub effective_tools: Vec<String>,
    pub base_tools: Vec<String>,
    pub selected: StringSet,
    pub dirty: bool,
    pub loading: bool,
}

impl ToolOverlay {
    /// Well formed: the ticked set is.
    pub open spec fn wf(&self) -> bool {
        self.selected.wf()
    }

    /// Nothing loaded yet.
    pub fn new() -> (o: Self)
        ensures
            o.wf(),
            o.effective_tools@.len() == 0,
            o.base_tools@.len() == 0,
            o.selected@ == Set::<Seq<char>>::empty(),
            !o.dirty,
            o.loading,
    {
        ToolOverlay {
            effective_tools: Vec::new(),
            base_tools: Vec::new(),
            selected: StringSet::new(),
            dirty: false,
            loading: true,
        }
    }

    /// The agent's capabilities arrived (`effective`, `base`) or failed: loading
    /// ends; on success the effective tools become the ticked ones and nothing is
    /// pending.
    pub fn on_loaded(&mut self, result: Result<(Vec<String>, Vec<String>), String>)
        requires
            old(self).wf(),
        ensures
            final(self).wf(),
            !final(self).loading,
            match result {
                Ok((effective, base)) => {
                    &&& final(self).effective_tools == effective
                    &&& final(self).base_tools == base
                    &&& final(self).selected@ == name_set(effective@)
                    &&& !final(self).dirty
                },
                Err(_) => {
                    &&& final(self).effective_tools == old(self).effective_tools
                    &&& final(self).base_tools == old(self).base_tools
                    &&& final(self).selected@ == old(self).selected@
                    &&& final(self).dirty == old(self).dirty
                },
            },
    {
        match result {
            Ok((effective, base)) => {
                self.selected = StringSet::from_strings(&effective);
                self.effective_tools = effective;
                self.base_tools = base;
                self.dirty = false;
            },
            Err(_) => {},
        }
        self.loading = false;
    }

    /// A tool's box was clicked: it is ticked or unticked, and the overlay has
    /// changes to apply.
    pub fn toggle_tool(&mut self, name: &str)
        requires
            old(self).wf(),
        ensures
            final(self).wf(),
            final(self).selected@ == toggled(old(self).selected@, name@, !old(self).selected@.contains(name@)),
            final(self).dirty,
            final(self).effective_tools == old(self).effective_tools,
            final(self).base_tools == old(self).base_tools,
            final(self).loading == old(self).loading,
    {
        if self.selected.contains(name) {
            self.selected.remove(name);
        } else {
            self.selected.insert(name);
        }
        self.dirty = true;
    }

    /// "Reset to default": the default tools become the ticked ones, to be applied.
    pub fn reset_to_default(&mut self)
        requires
            old(self).wf(),
        ensures
            final(self).wf(),
            final(self).selected@ == name_set(old(self).base_tools@),
            final(self).dirty,
            final(self).effective_tools == old(self).effective_tools,
            final(self).base_tools == old(self).base_tools,
            final(self).loading == old(self).loading,
    {
        self.selected = StringSet::from_strings(&self.base_tools);
        self.dirty = true;
    }

    /// "Apply": the tools to send for the selected agent, when there are changes to
    /// apply and an agent is selected; nothing otherwise.
    pub fn apply_request(&self, agent_id: &str) -> (r: Option<Vec<String>>)
        requires
            self.wf(),
        ensures
            !self.dirty || agent_id@.len() == 0 ==> r is None,
            self.dirty && agent_id@.len() > 0 ==> (r matches Some(tools) && name_set(tools@) == self.selected@
                && tools@.len() == self.selected@.len()),
    {
        if !self.dirty || agent_id.unicode_len() == 0 {
            return None;
        }
        Some(self.selected.to_vec())
    }

    /// The answer to "Apply": on success the server's effective tools are taken and
    /// nothing is pending; a failure changes nothing.
    pub fn on_applied(&mut self, result: Result<Vec<String>, String>)
        ensures
            match result {
                Ok(effective) => final(self).effective_tools == effective && !final(self).dirty,
                Err(_) => final(self).effective_tools == old(self).effective_tools && final(self).dirty == old(self).dirty,
            },
            final(self).selected == old(self).selected,
            final(self).base_tools == old(self).base_tools,
            final(self).loading == old(self).loading,
    {
        match result {
            Ok(effective) => {
                self.effective_tools = effective;
                self.dirty = false;
            },
            Err(_) => {},
        }
    }
}

/// A toggle and the reply to its save: right after the toggle the group's selection
/// holds `name` exactly when `enabled`, so the reply is taken, not dropped as stale;
/// other names keep their selection throughout. A failed save leaves `name`
/// selected exactly when `!enabled`, which is the starting selection whenever the
/// toggle changed it.
pub proof fn lemma_toggle_then_reply(before: Set<Seq<char>>, name: Seq<char>, enabled: bool)
    ensures
        toggled(before, name, enabled).contains(name) == enabled,
        toggled(toggled(before, name, enabled), name, !enabled).contains(name) == !enabled,
        forall|x: Seq<char>| #![trigger before.contains(x)] x != name ==> (toggled(before, name, enabled).contains(x) == before.contains(x)
            && toggled(toggled(before, name, enabled), name, !enabled).contains(x) == before.contains(x)),
        before.contains(name) != enabled ==> toggled(toggled(before, name, enabled), name, !enabled) == before,
{
    if before.contains(name) != enabled {
        if enabled {
            assert(before.insert(name).remove(name) =~= before);
        } else {
            assert(before.remove(name).insert(name) =~= before);
        }
    }
}

} // verus!
