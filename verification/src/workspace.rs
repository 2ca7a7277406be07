//! Workspace file tree: icons, collapsing, flattening and open file tabs.
use vstd::prelude::*;
use crate::text::{owned, spec_to_lowercase, str_eq, to_lowercase};

verus! {

broadcast use vstd::seq_lib::group_seq_properties;

/// A node of the workspace file tree.
#[derive(Debug)]
pub struct WorkspaceTreeNode {
    pub name: String,
    pub path: String,
    pub is_dir: bool,
    pub loaded: bool,
    pub load_error: bool,
    pub children: Vec<WorkspaceTreeNode>,
}

/// The part of `s` after its last `c` (all of `s` when it has none), which is what
/// `s.rsplit(c).next()` gives.
pub open spec fn after_last(s: Seq<char>, c: char) -> Seq<char>
    decreases s.len(),
{
    if s.len() == 0 {
        s
    } else if s.last() == c {
        Seq::empty()
    } else {
        after_last(s.drop_last(), c).push(s.last())
    }
}

/// The icon of a directory, or of a file by its lower-cased extension.
pub open spec fn icon_for(is_dir: bool, ext: Seq<char>) -> Seq<char> {
    if is_dir {
        "\u{1f4c2}"@
    } else if ext == "rs"@ {
        "\u{1f980}"@
    } else if ext == "toml"@ || ext == "lock"@ {
        "\u{2699}\u{fe0f}"@
    } else if ext == "md"@ {
        "\u{1f4dd}"@
    } else if ext == "json"@ {
        "\u{1f4ca}"@
    } else if ext == "yaml"@ || ext == "yml"@ {
        "\u{1f4dc}"@
    } else if ext == "sh"@ || ext == "bash"@ {
        "\u{1f41a}"@
    } else if ext == "html"@ || ext == "htm"@ {
        "\u{1f310}"@
    } else if ext == "css"@ {
        "\u{1f3a8}"@
    } else if ext == "js"@ || ext == "ts"@ || ext == "jsx"@ || ext == "tsx"@ {
        "\u{1f4dc}"@
    } else {
        "\u{1f4c4}"@
    }
}

/// The text after the last `c` of `s`.
pub fn after_last_char(s: &str, c: char) -> (r: String)
    ensures
        r@ == after_last(s@, c),
{
    let n = s.unicode_len();
    let mut i: usize = n;
    while i > 0
        invariant
            i <= n,
            n == s@.len(),
            after_last(s@, c) == after_last(s@.take(i as int), c) + s@.subrange(i as int, n as int),
            forall|q: int| i <= q < n ==> s@[q] != c,
        decreases i,
    {
        let ch = s.get_char(i - 1);
        proof {
            assert(s@.take(i as int).drop_last() =~= s@.take(i - 1));
            assert(s@.take(i as int).last() == ch);
        }
        if ch == c {
            proof {
                assert(after_last(s@.take(i as int), c) == Seq::<char>::empty());
                assert(after_last(s@, c) =~= s@.subrange(i as int, n as int));
            }
            let part = s.substring_char(i, n);
            return part.to_owned();
        }
        proof {
            assert(s@.subrange(i - 1, n as int) =~= seq![ch] + s@.subrange(i as int, n as int));
            assert(after_last(s@.take(i as int), c) == after_last(s@.take(i - 1), c).push(ch));
            assert(after_last(s@.take(i - 1), c).push(ch) + s@.subrange(i as int, n as int)
                =~= after_last(s@.take(i - 1), c) + s@.subrange(i - 1, n as int));
        }
        i = i - 1;
    }
    proof {
        assert(s@.take(0) =~= Seq::<char>::empty());
        assert(s@.subrange(0, n as int) =~= s@);
    }
    s.to_owned()
}

/// Icon for a directory, or for a file by the lower-cased text after its last dot.
pub fn file_icon(is_dir: bool, name: &str) -> (icon: &'static str)
    ensures
        icon@ == icon_for(is_dir, spec_to_lowercase(after_last(name@, '.'))),
{
    if is_dir {
        return "\u{1f4c2}";
    }
    let last = after_last_char(name, '.');
    let ext = to_lowercase(last.as_str());
    let e = ext.as_str();
    if str_eq(e, "rs") {
        "\u{1f980}"
    } else if str_eq(e, "toml") || str_eq(e, "lock") {
        "\u{2699}\u{fe0f}"
    } else if str_eq(e, "md") {
        "\u{1f4dd}"
    } else if str_eq(e, "json") {
        "\u{1f4ca}"
    } else if str_eq(e, "yaml") || str_eq(e, "yml") {
        "\u{1f4dc}"
    } else if str_eq(e, "sh") || str_eq(e, "bash") {
        "\u{1f41a}"
    } else if str_eq(e, "html") || str_eq(e, "htm") {
        "\u{1f310}"
    } else if str_eq(e, "css") {
        "\u{1f3a8}"
    } else if str_eq(e, "js") || str_eq(e, "ts") || str_eq(e, "jsx") || str_eq(e, "tsx") {
        "\u{1f4dc}"
    } else {
        "\u{1f4c4}"
    }
}

/// A set of strings (none occurs twice).
#[derive(Debug)]
pub struct StringSet {
    items: Vec<String>,
}

impl View for StringSet {
    type V = Set<Seq<char>>;

    closed spec fn view(&self) -> Set<Seq<char>> {
        self.items@.map_values(|s: String| s@).to_set()
    }
}

impl StringSet {
    /// The set is well formed: no path occurs twice.
    pub closed spec fn wf(&self) -> bool {
        forall|i: int, j: int| 0 <= i < j < self.items@.len() ==> self.items@[i]@ != self.items@[j]@
    }

    proof fn lemma_view_contains(&self, p: Seq<char>)
        ensures
            self@.contains(p) <==> exists|i: int| 0 <= i < self.items@.len() && self.items@[i]@ == p,
    {
        let m = self.items@.map_values(|s: String| s@);
        if self@.contains(p) {
            let i = choose|i: int| 0 <= i < m.len() && m[i] == p;
            assert(self.items@[i]@ == p);
        }
        if exists|i: int| 0 <= i < self.items@.len() && self.items@[i]@ == p {
            let i = choose|i: int| 0 <= i < self.items@.len() && self.items@[i]@ == p;
            assert(m[i] == p);
        }
    }

    /// The empty set.
    pub fn new() -> (s: Self)
        ensures
            s.wf(),
            s@ == Set::<Seq<char>>::empty(),
    {
        let s = StringSet { items: Vec::new() };
        assert(s@ =~= Set::<Seq<char>>::empty());
        s
    }

    fn find(&self, path: &str) -> (r: Option<usize>)
        ensures
            match r {
                Some(i) => i < self.items@.len() && self.items@[i as int]@ == path@,
                None => forall|i: int| 0 <= i < self.items@.len() ==> self.items@[i]@ != path@,
            },
    {
        let mut i: usize = 0;
        while i < self.items.len()
            invariant
                i <= self.items@.len(),
                forall|q: int| 0 <= q < i ==> self.items@[q]@ != path@,
            decreases self.items.len() - i,
        {
            if str_eq(self.items[i].as_str(), path) {
                return Some(i);
            }
            i = i + 1;
        }
        None
    }

    /// The strings of the set, in insertion order.
    pub fn to_vec(&self) -> (r: Vec<String>)
        ensures
            r@.map_values(|x: String| x@).to_set() == self@,
            r@.len() == self@.len() || !self.wf(),
    {
        let mut r: Vec<String> = Vec::new();
        let mut i: usize = 0;
        while i < self.items.len()
            invariant
                i <= self.items@.len(),
                r@ == self.items@.take(i as int),
            decreases self.items.len() - i,
        {
            r.push(self.items[i].clone());
            assert(r@ =~= self.items@.take(i + 1));
            i = i + 1;
        }
        assert(self.items@.take(self.items@.len() as int) =~= self.items@);
        proof {
            let m = self.items@.map_values(|x: String| x@);
            if self.wf() {
                assert(m.no_duplicates()) by {
                    assert forall|a: int, b: int| 0 <= a < m.len() && 0 <= b < m.len() && a != b implies m[a] != m[b] by {
                        if a < b {
                            assert(self.items@[a]@ != self.items@[b]@);
                        } else {
                            assert(self.items@[b]@ != self.items@[a]@);
                        }
                    }
                }
                m.unique_seq_to_set();
            }
        }
        r
    }

    /// The set of the given strings.
    pub fn from_strings(v: &Vec<String>) -> (s: Self)
        ensures
            s.wf(),
            s@ == v@.map_values(|x: String| x@).to_set(),
    {
        let mut s = Self::new();
        let mut i: usize = 0;
        while i < v.len()
            invariant
                i <= v@.len(),
                s.wf(),
                s@ == v@.take(i as int).map_values(|x: String| x@).to_set(),
            decreases v.len() - i,
        {
            s.insert(v[i].as_str());
            proof {
                let a = v@.take(i as int).map_values(|x: String| x@);
                let b = v@.take(i + 1).map_values(|x: String| x@);
                assert(b =~= a.push(v@[i as int]@));
                vstd::seq_lib::seq_to_set_distributes_over_add(a, seq![v@[i as int]@]);
                assert(seq![v@[i as int]@].to_set() =~= Set::empty().insert(v@[i as int]@)) by {
                    assert(seq![v@[i as int]@].to_set().contains(v@[i as int]@)) by {
                        assert(seq![v@[i as int]@][0] == v@[i as int]@);
                    }
                }
                assert(a + seq![v@[i as int]@] =~= b);
                assert(s@ =~= b.to_set());
            }
            i = i + 1;
        }
        assert(v@.take(v@.len() as int) =~= v@);
        s
    }

    /// Whether the set holds `path`.
    pub fn contains(&self, path: &str) -> (r: bool)
        ensures
            r == self@.contains(path@),
    {
        proof {
            self.lemma_view_contains(path@);
        }
        self.find(path).is_some()
    }

    /// Add `path`.
    pub fn insert(&mut self, path: &str)
        requires
            old(self).wf(),
        ensures
            final(self).wf(),
            final(self)@ == old(self)@.insert(path@),
    {
        proof {
            old(self).lemma_view_contains(path@);
        }
        match self.find(path) {
            Some(_) => {
                assert(self@ =~= old(self)@.insert(path@));
            },
            None => {
                self.items.push(owned(path));
                proof {
                    assert forall|p: Seq<char>| self@.contains(p) <==> old(self)@.insert(path@).contains(p) by {
                        self.lemma_view_contains(p);
                        old(self).lemma_view_contains(p);
                        if exists|i: int| 0 <= i < self.items@.len() && self.items@[i]@ == p {
                            let i = choose|i: int| 0 <= i < self.items@.len() && self.items@[i]@ == p;
                            if i < old(self).items@.len() {
                                assert(old(self).items@[i] == self.items@[i]);
                            }
                        }
                        if old(self)@.contains(p) {
                            let i = choose|i: int| 0 <= i < old(self).items@.len() && old(self).items@[i]@ == p;
                            assert(self.items@[i] == old(self).items@[i]);
                        }
                        if p == path@ {
                            assert(self.items@[old(self).items@.len() as int]@ == p);
                        }
                    }
                    assert(self@ =~= old(self)@.insert(path@));
                }
            },
        }
    }

    /// Remove `path`.
    pub fn remove(&mut self, path: &str)
        requires
            old(self).wf(),
        ensures
            final(self).wf(),
            final(self)@ == old(self)@.remove(path@),
    {
        proof {
            old(self).lemma_view_contains(path@);
        }
        match self.find(path) {
            Some(i) => {
                let _ = self.items.remove(i);
                proof {
                    assert forall|p: Seq<char>| self@.contains(p) <==> old(self)@.remove(path@).contains(p) by {
                        self.lemma_view_contains(p);
                        old(self).lemma_view_contains(p);
                        if exists|j: int| 0 <= j < self.items@.len() && self.items@[j]@ == p {
                            let j = choose|j: int| 0 <= j < self.items@.len() && self.items@[j]@ == p;
                            if j < i {
                                assert(self.items@[j] == old(self).items@[j]);
                            } else {
                                assert(self.items@[j] == old(self).items@[j + 1]);
                            }
                        }
                        if old(self)@.contains(p) && p != path@ {
                            let j = choose|j: int| 0 <= j < old(self).items@.len() && old(self).items@[j]@ == p;
                            if j < i {
                                assert(self.items@[j] == old(self).items@[j]);
                            } else {
                                assert(j != i);
                                assert(self.items@[j - 1] == old(self).items@[j]);
                            }
                        }
                    }
                    assert(self@ =~= old(self)@.remove(path@));
                }
            },
            None => {
                assert(self@ =~= old(self)@.remove(path@));
            },
        }
    }
}

/// A directory is drawn collapsed when the user collapsed it, or when it is not
/// loaded yet and has no children.
pub fn directory_is_collapsed(node: &WorkspaceTreeNode, collapsed_dirs: &StringSet) -> (r: bool)
    ensures
        r == (collapsed_dirs@.contains(node.path@) || (!node.loaded && node.children@.len() == 0)),
{
    collapsed_dirs.contains(node.path.as_str()) || (!node.loaded && node.children.len() == 0)
}

/// A click on a directory: an unloaded directory is expanded and must be loaded; a
/// collapsed one is expanded and reloaded; an expanded one is collapsed. The
/// result says whether to load the directory.
pub fn toggle_directory_for_click(node: &WorkspaceTreeNode, collapsed_dirs: &mut StringSet) -> (should_load: bool)
    requires
        old(collapsed_dirs).wf(),
    ensures
        final(collapsed_dirs).wf(),
        !node.loaded ==> should_load && final(collapsed_dirs)@ == old(collapsed_dirs)@.remove(node.path@),
        node.loaded && old(collapsed_dirs)@.contains(node.path@) ==> should_load && final(collapsed_dirs)@
            == old(collapsed_dirs)@.remove(node.path@),
        node.loaded && !old(collapsed_dirs)@.contains(node.path@) ==> !should_load && final(collapsed_dirs)@
            == old(collapsed_dirs)@.insert(node.path@),
{
    if !node.loaded {
        collapsed_dirs.remove(node.path.as_str());
        true
    } else if collapsed_dirs.contains(node.path.as_str()) {
        collapsed_dirs.remove(node.path.as_str());
        true
    } else {
        collapsed_dirs.insert(node.path.as_str());
        false
    }
}

/// Law: two clicks on a loaded, expanded directory leave the collapsed set as it was
/// (the first collapses it, the second expands it again).
pub proof fn lemma_toggle_twice(dirs: Set<Seq<char>>, path: Seq<char>)
    requires
        !dirs.contains(path),
    ensures
        dirs.insert(path).remove(path) == dirs,
{
    assert(dirs.insert(path).remove(path) =~= dirs);
}

/// Classes of a directory's chevron: turned down (rotated) when the directory is
/// expanded.
pub fn chevron_class(collapsed: bool) -> (class: &'static str)
    ensures
        collapsed ==> class@ == "w-3 h-3 flex-shrink-0 origin-center transition-transform duration-150"@,
        !collapsed ==> class@ == "w-3 h-3 flex-shrink-0 origin-center transition-transform duration-150 rotate-90"@,
{
    if collapsed {
        "w-3 h-3 flex-shrink-0 origin-center transition-transform duration-150"
    } else {
        "w-3 h-3 flex-shrink-0 origin-center transition-transform duration-150 rotate-90"
    }
}

/// Left indent of a tree row, in pixels: 16 per level.
pub fn indent_px(depth: usize) -> (px: usize)
    requires
        depth * 16 <= usize::MAX,
    ensures
        px == depth * 16,
{
    depth * 16
}

/// Outer classes of the file tree panel: an inline sidebar on desktop; on mobile an
/// inline rail when closed and a drawer inside the main content when open.
pub fn file_tree_outer_class(drawer_open: bool) -> (class: &'static str)
    ensures
        drawer_open ==> class@ == "absolute inset-y-0 left-0 z-50 flex w-[80vw] max-w-[300px] flex-col overflow-hidden border-r border-[#2a2a44] bg-[#16162a] sm:static sm:z-auto sm:max-w-none sm:border-r sm:border-[#2a2a44] sm:flex-shrink-0 sm:transform-none sm:transition-none sm:h-full sm:min-h-0 sm:w-[33.33%] md:w-[33.33%] lg:w-[240px] sm:min-w-[160px] md:min-w-[160px] lg:min-w-[180px]"@,
        !drawer_open ==> class@ == "flex h-full min-h-0 w-10 flex-col flex-shrink-0 overflow-hidden border-r border-[#2a2a44] bg-[#16162a] sm:w-[33.33%] md:w-[33.33%] lg:w-[240px] sm:min-w-[160px] md:min-w-[160px] lg:min-w-[180px] sm:flex sm:h-full sm:min-h-0 sm:border-r sm:flex-col sm:overflow-hidden sm:flex-shrink-0 sm:bg-[#16162a]"@,
{
    if drawer_open {
        "absolute inset-y-0 left-0 z-50 flex w-[80vw] max-w-[300px] flex-col overflow-hidden border-r border-[#2a2a44] bg-[#16162a] sm:static sm:z-auto sm:max-w-none sm:border-r sm:border-[#2a2a44] sm:flex-shrink-0 sm:transform-none sm:transition-none sm:h-full sm:min-h-0 sm:w-[33.33%] md:w-[33.33%] lg:w-[240px] sm:min-w-[160px] md:min-w-[160px] lg:min-w-[180px]"
    } else {
        "flex h-full min-h-0 w-10 flex-col flex-shrink-0 overflow-hidden border-r border-[#2a2a44] bg-[#16162a] sm:w-[33.33%] md:w-[33.33%] lg:w-[240px] sm:min-w-[160px] md:min-w-[160px] lg:min-w-[180px] sm:flex sm:h-full sm:min-h-0 sm:border-r sm:flex-col sm:overflow-hidden sm:flex-shrink-0 sm:bg-[#16162a]"
    }
}

/// Classes of the panel content: always shown in the open drawer; on mobile hidden
/// behind the rail when closed, shown on desktop.
pub fn file_tree_panel_content_class(drawer_open: bool) -> (class: &'static str)
    ensures
        drawer_open ==> class@ == "flex min-h-0 flex-1 flex-col"@,
        !drawer_open ==> class@ == "hidden min-h-0 flex-1 flex-col sm:flex"@,
{
    if drawer_open {
        "flex min-h-0 flex-1 flex-col"
    } else {
        "hidden min-h-0 flex-1 flex-col sm:flex"
    }
}

/// One line of the flat file list: name, whether it is a directory, and indentation.
pub type FlatEntry = (String, bool, usize);

/// The descendants of the children `cs` in display order: each child followed, when
/// it is a directory, by its own descendants one level deeper.
pub open spec fn spec_flatten_children(cs: Seq<WorkspaceTreeNode>, indent: int) -> Seq<(Seq<char>, bool, int)>
    decreases cs,
{
    if cs.len() == 0 {
        Seq::empty()
    } else {
        let head = cs[0];
        let below = if head.is_dir {
            spec_flatten_children(head.children@, indent + 1)
        } else {
            Seq::empty()
        };
        seq![(head.name@, head.is_dir, indent)] + below + spec_flatten_children(cs.subrange(1, cs.len() as int), indent)
    }
}

/// Depth of the tree below the children `cs` (0 when empty).
pub open spec fn depth(cs: Seq<WorkspaceTreeNode>) -> nat
    decreases cs,
{
    if cs.len() == 0 {
        0
    } else {
        let d0 = 1 + depth(cs[0].children@);
        let d1 = depth(cs.subrange(1, cs.len() as int));
        if d0 >= d1 { d0 } else { d1 }
    }
}

/// Views of the flat entries.
pub open spec fn flat_views(v: Seq<FlatEntry>) -> Seq<(Seq<char>, bool, int)> {
    v.map_values(|e: FlatEntry| (e.0@, e.1, e.2 as int))
}

/// Flatten the children of `node` into (name, is_dir, indent) lines.
pub fn flatten_tree(node: &WorkspaceTreeNode, indent: usize) -> (r: Vec<FlatEntry>)
    requires
        indent + depth(node.children@) <= usize::MAX,
    ensures
        flat_views(r@) == spec_flatten_children(node.children@, indent as int),
    decreases node,
{
    flatten_children(node.children.as_slice(), indent)
}

fn flatten_children(cs: &[WorkspaceTreeNode], indent: usize) -> (r: Vec<FlatEntry>)
    requires
        indent + depth(cs@) <= usize::MAX,
    ensures
        flat_views(r@) == spec_flatten_children(cs@, indent as int),
    decreases cs@,
{
    let mut result: Vec<FlatEntry> = Vec::new();
    let mut i: usize = 0;
    proof {
        assert(cs@.subrange(0, cs@.len() as int) =~= cs@);
    }
    while i < cs.len()
        invariant
            i <= cs@.len(),
            indent + depth(cs@.subrange(i as int, cs@.len() as int)) <= usize::MAX,
            flat_views(result@) + spec_flatten_children(cs@.subrange(i as int, cs@.len() as int), indent as int)
                == spec_flatten_children(cs@, indent as int),
        decreases cs.len() - i,
    {
        let ghost rest = cs@.subrange(i as int, cs@.len() as int);
        let child = &cs[i];
        proof {
            assert(rest[0] == *child);
            assert(rest.subrange(1, rest.len() as int) =~= cs@.subrange(i + 1, cs@.len() as int));
        }
        let ghost before = flat_views(result@);
        result.push((child.name.clone(), child.is_dir, indent));
        proof {
            assert(flat_views(result@) =~= before + seq![(child.name@, child.is_dir, indent as int)]);
        }
        if child.is_dir {
            proof {
                assert(decreases_to!(cs@ => cs@[i as int]));
                assert(decreases_to!(cs@[i as int] => cs@[i as int].children));
                assert(decreases_to!(cs@[i as int].children => cs@[i as int].children@));
                assert(decreases_to!(cs@ => child.children@));
            }
            let below = flatten_children(child.children.as_slice(), indent + 1);
            let ghost mid = flat_views(result@);
            let mut k: usize = 0;
            while k < below.len()
                invariant
                    k <= below@.len(),
                    flat_views(result@) == mid + flat_views(below@).take(k as int),
                decreases below.len() - k,
            {
                let ghost pre = flat_views(result@);
                result.push((below[k].0.clone(), below[k].1, below[k].2));
                proof {
                    assert(flat_views(below@).take(k + 1) =~= flat_views(below@).take(k as int).push(flat_views(below@)[k as int]));
                    assert(flat_views(result@) =~= pre.push(flat_views(below@)[k as int]));
                }
                k = k + 1;
            }
            proof {
                assert(flat_views(below@).take(below@.len() as int) =~= flat_views(below@));
            }
        }
        proof {
            assert(flat_views(result@) + spec_flatten_children(cs@.subrange(i + 1, cs@.len() as int), indent as int)
                =~= spec_flatten_children(cs@, indent as int));
        }
        i = i + 1;
    }
    proof {
        assert(cs@.subrange(cs@.len() as int, cs@.len() as int) =~= Seq::<WorkspaceTreeNode>::empty());
        assert(flat_views(result@) =~= spec_flatten_children(cs@, indent as int));
    }
    result
}

/// A file opened in the workspace viewer.
#[derive(Debug)]
pub struct OpenFileTab {
    pub path: String,
    pub content: Option<String>,
    pub error: Option<String>,
}

/// First tab showing `path`.
pub open spec fn tab_index(tabs: Seq<OpenFileTab>, path: Seq<char>) -> Option<int>
    decreases tabs.len(),
{
    if tabs.len() == 0 {
        None
    } else if tabs[0].path@ == path {
        Some(0)
    } else {
        match tab_index(tabs.subrange(1, tabs.len() as int), path) {
            Some(i) => Some(i + 1),
            None => None,
        }
    }
}

pub proof fn lemma_tab_index(tabs: Seq<OpenFileTab>, path: Seq<char>)
    ensures
        tab_index(tabs, path) matches Some(i) ==> 0 <= i < tabs.len() && tabs[i].path@ == path,
    decreases tabs.len(),
{
    if tabs.len() > 0 && tabs[0].path@ != path {
        lemma_tab_index(tabs.subrange(1, tabs.len() as int), path);
    }
}

fn find_tab(tabs: &Vec<OpenFileTab>, path: &str) -> (r: Option<usize>)
    ensures
        r matches Some(i) ==> i < tabs@.len(),
        r matches Some(i) ==> tab_index(tabs@, path@) == Some(i as int),
        r is None ==> tab_index(tabs@, path@) is None,
{
    let mut i: usize = 0;
    proof {
        assert(tabs@.subrange(0, tabs@.len() as int) =~= tabs@);
    }
    while i < tabs.len()
        invariant
            i <= tabs@.len(),
            tab_index(tabs@, path@) == (match tab_index(tabs@.subrange(i as int, tabs@.len() as int), path@) {
                Some(j) => Some(j + i),
                None => None,
            }),
        decreases tabs.len() - i,
    {
        let ghost rest = tabs@.subrange(i as int, tabs@.len() as int);
        assert(rest.subrange(1, rest.len() as int) =~= tabs@.subrange(i + 1, tabs@.len() as int));
        if str_eq(tabs[i].path.as_str(), path) {
            return Some(i);
        }
        i = i + 1;
    }
    None
}

/// Select the tab of `path`, opening a new empty tab at the end when there is none.
/// The result says whether a tab was opened (and so the file must be read).
pub fn open_file_tab(tabs: &mut Vec<OpenFileTab>, selected: &mut Option<usize>, path: &str) -> (is_new: bool)
    ensures
        match tab_index(old(tabs)@, path@) {
            Some(i) => !is_new && final(tabs)@ == old(tabs)@ && *final(selected) == Some(i as usize),
            None => {
                &&& is_new
                &&& final(tabs)@.len() == old(tabs)@.len() + 1
                &&& final(tabs)@.subrange(0, old(tabs)@.len() as int) == old(tabs)@
                &&& final(tabs)@.last().path@ == path@
                &&& final(tabs)@.last().content is None
                &&& final(tabs)@.last().error is None
                &&& *final(selected) == Some(old(tabs)@.len() as usize)
            },
        },
{
    match find_tab(tabs, path) {
        Some(i) => {
            *selected = Some(i);
            false
        },
        None => {
            let n = tabs.len();
            tabs.push(OpenFileTab { path: owned(path), content: None, error: None });
            *selected = Some(n);
            proof {
                assert(tabs@.subrange(0, n as int) =~= old(tabs)@);
            }
            true
        },
    }
}

/// Store the result of reading `path` in its tab (content on success, error
/// otherwise); nothing happens when no tab shows `path` any more.
pub fn apply_file_read(tabs: &mut Vec<OpenFileTab>, path: &str, result: Result<String, String>)
    ensures
        match tab_index(old(tabs)@, path@) {
            Some(i) => {
                &&& final(tabs)@.len() == old(tabs)@.len()
                &&& forall|q: int| 0 <= q < old(tabs)@.len() && q != i ==> final(tabs)@[q] == old(tabs)@[q]
                &&& final(tabs)@[i].path == old(tabs)@[i].path
                &&& match result {
                    Ok(c) => final(tabs)@[i].content == Some(c) && final(tabs)@[i].error == old(tabs)@[i].error,
                    Err(e) => final(tabs)@[i].error == Some(e) && final(tabs)@[i].content == old(tabs)@[i].content,
                }
            },
            None => final(tabs)@ == old(tabs)@,
        },
{
    match find_tab(tabs, path) {
        Some(i) => {
            let mut tab = tabs.remove(i);
            match result {
                Ok(c) => {
                    tab.content = Some(c);
                },
                Err(e) => {
                    tab.error = Some(e);
                },
            }
            tabs.insert(i, tab);
        },
        None => {},
    }
}

} // verus!
