//! Drawing the task dependency graph: canvas size, node positions and node labels.
use vstd::prelude::*;
use crate::graph::{GraphLayout, GraphNode, TaskEntry};
use crate::text::{owned, concat2, decimal, spec_decimal, char_count, take_chars};

verus! {

/// Node width.
pub const NODE_W: i32 = 150;
/// Node height.
pub const NODE_H: i32 = 44;
/// Horizontal distance between nodes of a layer.
pub const COL: i32 = 180;
/// Vertical distance between layers.
pub const ROW: i32 = 100;
/// Canvas padding.
pub const PAD: i32 = 30;

/// Smallest layer of the nodes (0 when there are none).
pub open spec fn min_layer(nodes: Seq<GraphNode>) -> int
    decreases nodes.len(),
{
    if nodes.len() == 0 {
        0
    } else if nodes.len() == 1 {
        nodes[0].layer as int
    } else {
        let m = min_layer(nodes.drop_last());
        if nodes.last().layer < m { nodes.last().layer as int } else { m }
    }
}

/// Largest layer of the nodes (0 when there are none).
pub open spec fn max_layer(nodes: Seq<GraphNode>) -> int
    decreases nodes.len(),
{
    if nodes.len() == 0 {
        0
    } else if nodes.len() == 1 {
        nodes[0].layer as int
    } else {
        let m = max_layer(nodes.drop_last());
        if nodes.last().layer > m { nodes.last().layer as int } else { m }
    }
}

/// How many of the nodes are on layer `l`.
pub open spec fn layer_count(nodes: Seq<GraphNode>, l: int) -> nat
    decreases nodes.len(),
{
    if nodes.len() == 0 {
        0
    } else {
        layer_count(nodes.drop_last(), l) + if nodes.last().layer == l { 1nat } else { 0nat }
    }
}

/// The most nodes on one layer, over the layers of the first `k` nodes (1 when
/// there are none).
pub open spec fn widest(nodes: Seq<GraphNode>, k: int) -> nat
    decreases k,
{
    if k <= 0 {
        1
    } else {
        let m = widest(nodes, k - 1);
        let c = layer_count(nodes, nodes[k - 1].layer as int);
        if k == 1 { c } else if c > m { c } else { m }
    }
}

/// Size of the canvas and the layer range of a layout.
#[derive(Clone, Copy, Debug)]
pub struct GraphGeometry {
    pub min_layer: i32,
    pub max_layer: i32,
    pub max_per_layer: usize,
    pub width: i32,
    pub height: i32,
}

/// The canvas measures of the nodes fit in `i32`: the height over the layer range and
/// the width over the widest layer.
pub open spec fn drawable(nodes: Seq<GraphNode>) -> bool {
    &&& PAD * 2 + (max_layer(nodes) - min_layer(nodes)) * ROW + NODE_H <= i32::MAX
    &&& PAD * 2 + (if widest(nodes, nodes.len() as int) >= 1 { widest(nodes, nodes.len() as int) - 1 } else { 0 }) * COL
        + NODE_W <= i32::MAX
}

proof fn lemma_layer_range(nodes: Seq<GraphNode>)
    ensures
        i32::MIN <= min_layer(nodes) <= max_layer(nodes) <= i32::MAX,
        forall|i: int| 0 <= i < nodes.len() ==> min_layer(nodes) <= #[trigger] nodes[i].layer <= max_layer(nodes),
    decreases nodes.len(),
{
    if nodes.len() > 1 {
        let p = nodes.drop_last();
        lemma_layer_range(p);
        assert forall|i: int| 0 <= i < nodes.len() implies min_layer(nodes) <= #[trigger] nodes[i].layer <= max_layer(nodes) by {
            if i < nodes.len() - 1 {
                assert(p[i] == nodes[i]);
            }
        }
    }
}

proof fn lemma_layer_count_bound(nodes: Seq<GraphNode>, l: int)
    ensures
        layer_count(nodes, l) <= nodes.len(),
    decreases nodes.len(),
{
    if nodes.len() > 0 {
        lemma_layer_count_bound(nodes.drop_last(), l);
    }
}

proof fn lemma_widest_bound(nodes: Seq<GraphNode>, k: int)
    requires
        0 <= k <= nodes.len(),
    ensures
        widest(nodes, k) <= if nodes.len() > 0 { nodes.len() } else { 1 },
    decreases k,
{
    if k > 0 {
        lemma_widest_bound(nodes, k - 1);
        lemma_layer_count_bound(nodes, nodes[k - 1].layer as int);
    }
}

/// Number of nodes on `layer`.
fn count_on_layer(nodes: &Vec<GraphNode>, layer: i32) -> (c: usize)
    ensures
        c == layer_count(nodes@, layer as int),
{
    let mut c: usize = 0;
    let mut i: usize = 0;
    while i < nodes.len()
        invariant
            i <= nodes@.len(),
            c == layer_count(nodes@.take(i as int), layer as int),
            c <= i,
        decreases nodes.len() - i,
    {
        assert(nodes@.take(i + 1).drop_last() =~= nodes@.take(i as int));
        assert(nodes@.take(i + 1).last() == nodes@[i as int]);
        if nodes[i].layer == layer {
            c = c + 1;
        }
        i = i + 1;
    }
    assert(nodes@.take(nodes@.len() as int) =~= nodes@);
    c
}

/// The canvas size and layer range of a layout: the widest layer sets the width,
/// the layer range the height.
pub fn graph_geometry(layout: &GraphLayout) -> (g: GraphGeometry)
    requires
        drawable(layout.nodes@),
    ensures
        g.min_layer == min_layer(layout.nodes@),
        g.max_layer == max_layer(layout.nodes@),
        g.max_per_layer == widest(layout.nodes@, layout.nodes@.len() as int),
        g.width == PAD * 2 + (if g.max_per_layer >= 1 { g.max_per_layer - 1 } else { 0 }) * COL + NODE_W,
        g.height == PAD * 2 + (g.max_layer - g.min_layer) * ROW + NODE_H,
{
    let nodes = &layout.nodes;
    proof {
        lemma_layer_range(nodes@);
        lemma_widest_bound(nodes@, nodes@.len() as int);
    }
    let mut lo: i32 = 0;
    let mut hi: i32 = 0;
    let mut widest_n: usize = 1;
    let mut i: usize = 0;
    while i < nodes.len()
        invariant
            i <= nodes@.len(),
            lo as int == min_layer(nodes@.take(i as int)),
            hi as int == max_layer(nodes@.take(i as int)),
            widest_n == widest(nodes@, i as int),
        decreases nodes.len() - i,
    {
        let ghost pre = nodes@.take(i as int);
        assert(nodes@.take(i + 1).drop_last() =~= pre);
        assert(nodes@.take(i + 1).last() == nodes@[i as int]);
        assert(nodes@.take(i + 1)[0] == nodes@[0]);
        let l = nodes[i].layer;
        if i == 0 {
            lo = l;
            hi = l;
        } else {
            if l < lo {
                lo = l;
            }
            if l > hi {
                hi = l;
            }
        }
        let c = count_on_layer(nodes, l);
        if i == 0 || c > widest_n {
            widest_n = c;
        }
        i = i + 1;
    }
    assert(nodes@.take(nodes@.len() as int) =~= nodes@);
    assert(widest_n <= usize::MAX);
    let span: i32 = if widest_n >= 1 { (widest_n - 1) as i32 } else { 0 };
    let width = PAD * 2 + span * COL + NODE_W;
    let height = PAD * 2 + (hi - lo) * ROW + NODE_H;
    GraphGeometry { min_layer: lo, max_layer: hi, max_per_layer: widest_n, width, height }
}

/// Top-left corner of a node: its order across, its layer (from the top layer) down.
pub fn node_position(layer: i32, order: usize, min_layer: i32) -> (p: (i32, i32))
    requires
        PAD + order * COL <= i32::MAX,
        i32::MIN <= layer - min_layer <= i32::MAX,
        i32::MIN <= (layer - min_layer) * ROW,
        i32::MIN <= PAD + (layer - min_layer) * ROW <= i32::MAX,
    ensures
        p.0 == PAD + order * COL,
        p.1 == PAD + (layer - min_layer) * ROW,
{
    (PAD + (order as i32) * COL, PAD + (layer - min_layer) * ROW)
}

/// A label cut to `max` characters, followed by `…` when it was longer.
pub open spec fn spec_truncate(s: Seq<char>, max: nat) -> Seq<char> {
    if s.len() > max {
        s.take(max as int) + "…"@
    } else {
        s
    }
}

/// Cut a label to `max` characters.
pub fn truncate(s: &str, max: usize) -> (r: String)
    ensures
        r@ == spec_truncate(s@, max as nat),
{
    if char_count(s) > max {
        let head = take_chars(s, max);
        concat2(head.as_str(), "…")
    } else {
        owned(s)
    }
}

/// The label of a node: `t{id}`, starred for the center task.
pub open spec fn spec_node_label(id: u64, is_center: bool) -> Seq<char> {
    if is_center {
        "★ t"@ + spec_decimal(id as nat)
    } else {
        "t"@ + spec_decimal(id as nat)
    }
}

/// The label of a node.
pub fn node_label(id: u64, is_center: bool) -> (s: String)
    ensures
        s@ == spec_node_label(id, is_center),
{
    let d = decimal(id);
    if is_center {
        concat2("★ t", d.as_str())
    } else {
        concat2("t", d.as_str())
    }
}

/// The subject line of a node: its task's subject cut to 18 characters, or
/// `(not loaded)` for a task outside the list.
pub fn node_subject(task: Option<&TaskEntry>) -> (s: String)
    ensures
        match task {
            Some(t) => s@ == spec_truncate(t.subject@, 18),
            None => s@ == "(not loaded)"@,
        },
{
    match task {
        Some(t) => truncate(t.subject.as_str(), 18),
        None => owned("(not loaded)"),
    }
}

/// The fill of a node: its task's status color, or grey for a task outside the list.
pub fn node_fill(known: bool, status: &str) -> (c: &'static str)
    ensures
        known ==> c@ == crate::panel::status_color_spec(status@),
        !known ==> c@ == "#3a3a44"@,
{
    if known {
        crate::panel::status_color(status)
    } else {
        "#3a3a44"
    }
}

} // verus!
