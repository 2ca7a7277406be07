//! Layered layout of the task dependency graph around a center task.
//!
//! The layout walks the transitive closure of the center task: upstream via
//! `dependencies` (negative layers, drawn above) and downstream via `blocks`
//! (positive layers, drawn below), then relaxes the layers so that edges point
//! downward, numbers the nodes inside each layer, and lists the edges.
use vstd::prelude::*;

verus! {

broadcast use vstd::seq_lib::group_seq_properties, vstd::set_lib::group_set_properties;

/// A task as listed by the task service.
#[derive(Clone, Debug)]
pub struct TaskEntry {
    pub id: u64,
    pub status: String,
    pub kind: String,
    pub publisher: Option<String>,
    pub assignee: Option<String>,
    pub subject: String,
    pub description: String,
    pub active_form: Option<String>,
    pub dependencies: Vec<u64>,
    pub blocks: Vec<u64>,
    pub created_at: i64,
    pub started_at: Option<i64>,
    pub completed_at: Option<i64>,
}

/// A node placed in the layered layout. `known = false` means the id was
/// referenced (as a dependency or block) but is not present in the task list.
#[derive(Clone, Copy, Debug, PartialEq, Eq, Structural)]
pub struct GraphNode {
    pub id: u64,
    pub layer: i32,
    pub order: usize,
    pub known: bool,
}

/// A directed edge in dependency direction: `from` is the dependency, `to` is
/// the dependent task it unblocks.
#[derive(Clone, Copy, Debug, PartialEq, Eq, Structural)]
pub struct GraphEdge {
    pub from: u64,
    pub to: u64,
}

/// Nodes and edges of the layered layout.
#[derive(Clone, Debug)]
pub struct GraphLayout {
    pub nodes: Vec<GraphNode>,
    pub edges: Vec<GraphEdge>,
}

// ---------------------------------------------------------------------------
// Looking tasks up by id: when ids repeat, the last task with the id wins.
// ---------------------------------------------------------------------------

/// Index of the last task with the given id.
pub open spec fn task_index(tasks: Seq<TaskEntry>, id: u64) -> Option<int>
    decreases tasks.len(),
{
    if tasks.len() == 0 {
        None
    } else if tasks.last().id == id {
        Some(tasks.len() - 1)
    } else {
        task_index(tasks.drop_last(), id)
    }
}

/// Whether a task with the given id is in the list.
pub open spec fn is_known(tasks: Seq<TaskEntry>, id: u64) -> bool {
    task_index(tasks, id) is Some
}

/// Dependencies of the task with the given id (empty when unknown).
pub open spec fn deps_of(tasks: Seq<TaskEntry>, id: u64) -> Seq<u64> {
    match task_index(tasks, id) {
        Some(i) => tasks[i].dependencies@,
        None => Seq::empty(),
    }
}

/// Tasks blocked by the task with the given id (empty when unknown).
pub open spec fn blocks_of(tasks: Seq<TaskEntry>, id: u64) -> Seq<u64> {
    match task_index(tasks, id) {
        Some(i) => tasks[i].blocks@,
        None => Seq::empty(),
    }
}

pub proof fn lemma_task_index_range(tasks: Seq<TaskEntry>, id: u64)
    ensures
        task_index(tasks, id) matches Some(i) ==> 0 <= i < tasks.len() && tasks[i].id == id,
    decreases tasks.len(),
{
    if tasks.len() > 0 && tasks.last().id != id {
        lemma_task_index_range(tasks.drop_last(), id);
    }
}

/// Every id that some task mentions as a dependency or as a block.
pub open spec fn refs(tasks: Seq<TaskEntry>) -> Set<u64>
    decreases tasks.len(),
{
    if tasks.len() == 0 {
        Set::empty()
    } else {
        refs(tasks.drop_last()).union(tasks.last().dependencies@.to_set()).union(
            tasks.last().blocks@.to_set(),
        )
    }
}

pub proof fn lemma_refs_finite(tasks: Seq<TaskEntry>)
    ensures
        refs(tasks).finite(),
    decreases tasks.len(),
{
    if tasks.len() > 0 {
        lemma_refs_finite(tasks.drop_last());
    }
}

pub proof fn lemma_refs_contains(tasks: Seq<TaskEntry>, i: int)
    requires
        0 <= i < tasks.len(),
    ensures
        tasks[i].dependencies@.to_set().subset_of(refs(tasks)),
        tasks[i].blocks@.to_set().subset_of(refs(tasks)),
    decreases tasks.len(),
{
    if i < tasks.len() - 1 {
        lemma_refs_contains(tasks.drop_last(), i);
        assert(tasks.drop_last()[i] == tasks[i]);
    }
}

pub proof fn lemma_neighbors_in_refs(tasks: Seq<TaskEntry>, id: u64)
    ensures
        deps_of(tasks, id).to_set().subset_of(refs(tasks)),
        blocks_of(tasks, id).to_set().subset_of(refs(tasks)),
{
    lemma_task_index_range(tasks, id);
    if let Some(i) = task_index(tasks, id) {
        lemma_refs_contains(tasks, i);
    }
}

// ---------------------------------------------------------------------------
// Discovery: a breadth-first walk that appends each newly seen id.
// ---------------------------------------------------------------------------

/// Append `x` unless it is already present.
pub open spec fn add_one(ids: Seq<u64>, x: u64) -> Seq<u64> {
    if ids.contains(x) {
        ids
    } else {
        ids.push(x)
    }
}

/// Append, in order, the elements of `xs` from position `t` on that are not yet present.
pub open spec fn add_new_from(ids: Seq<u64>, xs: Seq<u64>, t: int) -> Seq<u64>
    decreases xs.len() - t,
{
    if t < 0 || t >= xs.len() {
        ids
    } else {
        add_new_from(add_one(ids, xs[t]), xs, t + 1)
    }
}

/// Number of mentioned ids that are not yet discovered; it bounds the walk.
pub open spec fn undiscovered(tasks: Seq<TaskEntry>, ids: Seq<u64>) -> nat {
    refs(tasks).difference(ids.to_set()).len()
}

pub proof fn lemma_add_new_from(tasks: Seq<TaskEntry>, ids: Seq<u64>, xs: Seq<u64>, t: int)
    requires
        xs.to_set().subset_of(refs(tasks)),
        0 <= t,
    ensures
        ({
            let r = add_new_from(ids, xs, t);
            &&& r.len() >= ids.len()
            &&& r.subrange(0, ids.len() as int) == ids
            &&& r.len() == ids.len() ==> r == ids
            &&& r.len() > ids.len() ==> undiscovered(tasks, r) < undiscovered(tasks, ids)
            &&& r.len() > ids.len() ==> undiscovered(tasks, r) <= undiscovered(tasks, ids) - (r.len() - ids.len())
            &&& ids.no_duplicates() ==> r.no_duplicates()
            &&& forall|x: u64| ids.contains(x) ==> r.contains(x)
            &&& forall|u: int| 0 <= u < xs.len() && t <= u ==> r.contains(xs[u])
            &&& forall|p: int| #![trigger r[p]] ids.len() <= p < r.len() ==> exists|u: int| #![trigger xs[u]] t <= u < xs.len() && xs[u] == r[p]
        }),
    decreases xs.len() - t,
{
    lemma_refs_finite(tasks);
    if t < 0 || t >= xs.len() {
    } else {
        let x = xs[t];
        let ids1 = add_one(ids, x);
        lemma_add_new_from(tasks, ids1, xs, t + 1);
        let r = add_new_from(ids1, xs, t + 1);
        assert(r == add_new_from(ids, xs, t));
        assert(ids1.contains(x));
        assert(r.contains(x));
        assert forall|u: int| 0 <= u < xs.len() && t <= u implies r.contains(xs[u]) by {
            if u == t {
            }
        }
        if !ids.contains(x) {
            assert(xs.to_set().contains(x));
            assert(refs(tasks).contains(x));
            ids.lemma_push_to_set_commute(x);
            let d0 = refs(tasks).difference(ids.to_set());
            let d1 = refs(tasks).difference(ids1.to_set());
            assert(d1 =~= d0.remove(x));
            assert(d0.contains(x));
            assert(undiscovered(tasks, ids1) == undiscovered(tasks, ids) - 1);
            assert(ids1.subrange(0, ids.len() as int) =~= ids);
            assert(r.subrange(0, ids.len() as int) =~= r.subrange(0, ids1.len() as int).subrange(
                0,
                ids.len() as int,
            ));
            assert forall|y: u64| ids.contains(y) implies r.contains(y) by {
                assert(ids1.contains(y));
            }
            assert forall|p: int| #![trigger r[p]] ids.len() <= p < r.len() implies exists|u: int|
                #![trigger xs[u]] t <= u < xs.len() && xs[u] == r[p] by {
                if p == ids.len() {
                    assert(r[p] == r.subrange(0, ids1.len() as int)[p]);
                    assert(xs[t] == r[p]);
                } else {
                    let u = choose|u: int| #![trigger xs[u]] t + 1 <= u < xs.len() && xs[u] == r[p];
                    assert(t <= u);
                }
            }
            assert(r.contains(x)) by {
                assert(r.subrange(0, ids1.len() as int)[ids.len() as int] == x);
                assert(r[ids.len() as int] == x);
            }
        } else {
            assert(ids1 == ids);
            assert forall|p: int| #![trigger r[p]] ids.len() <= p < r.len() implies exists|u: int|
                #![trigger xs[u]] t <= u < xs.len() && xs[u] == r[p] by {
                let u = choose|u: int| #![trigger xs[u]] t + 1 <= u < xs.len() && xs[u] == r[p];
                assert(t <= u);
            }
        }
    }
}

/// Upstream walk: process discovered ids from position `i` on, appending unseen dependencies.
pub open spec fn up_from(tasks: Seq<TaskEntry>, ids: Seq<u64>, i: int) -> Seq<u64>
    decreases undiscovered(tasks, ids), ids.len() - i,
{
    if i < 0 || i >= ids.len() {
        ids
    } else {
        let next = add_new_from(ids, deps_of(tasks, ids[i]), 0);
        proof {
            lemma_neighbors_in_refs(tasks, ids[i]);
            lemma_add_new_from(tasks, ids, deps_of(tasks, ids[i]), 0);
        }
        up_from(tasks, next, i + 1)
    }
}

/// Downstream walk: process discovered ids from position `i` on, appending unseen blocks.
pub open spec fn down_from(tasks: Seq<TaskEntry>, ids: Seq<u64>, i: int) -> Seq<u64>
    decreases undiscovered(tasks, ids), ids.len() - i,
{
    if i < 0 || i >= ids.len() {
        ids
    } else {
        let next = add_new_from(ids, blocks_of(tasks, ids[i]), 0);
        proof {
            lemma_neighbors_in_refs(tasks, ids[i]);
            lemma_add_new_from(tasks, ids, blocks_of(tasks, ids[i]), 0);
        }
        down_from(tasks, next, i + 1)
    }
}

/// The center followed by everything found upstream of it.
pub open spec fn up_phase(tasks: Seq<TaskEntry>, center: u64) -> Seq<u64> {
    up_from(tasks, seq![center], 0)
}

/// All discovered ids in discovery order: the center, the upstream ids, then the
/// downstream ids (the downstream walk starts from the center's blocks).
pub open spec fn discovery(tasks: Seq<TaskEntry>, center: u64) -> Seq<u64> {
    let up = up_phase(tasks, center);
    down_from(tasks, add_new_from(up, blocks_of(tasks, center), 0), up.len() as int)
}


// ---------------------------------------------------------------------------
// Layering: longest-path relaxation, capped at one pass per node.
// ---------------------------------------------------------------------------

/// Position of the first occurrence of `x` in `ids`, or -1.
pub open spec fn pos_of(ids: Seq<u64>, x: u64) -> int
    decreases ids.len(),
{
    if ids.len() == 0 {
        -1
    } else if ids[0] == x {
        0
    } else {
        let r = pos_of(ids.drop_first(), x);
        if r < 0 {
            -1
        } else {
            r + 1
        }
    }
}

pub proof fn lemma_pos_of(ids: Seq<u64>, x: u64)
    ensures
        -1 <= pos_of(ids, x) < ids.len(),
        pos_of(ids, x) >= 0 ==> ids[pos_of(ids, x)] == x,
        pos_of(ids, x) >= 0 <==> ids.contains(x),
        forall|q: int| 0 <= q < pos_of(ids, x) ==> ids[q] != x,
        pos_of(ids, x) < 0 ==> forall|q: int| 0 <= q < ids.len() ==> ids[q] != x,
    decreases ids.len(),
{
    if ids.len() > 0 && ids[0] != x {
        lemma_pos_of(ids.drop_first(), x);
        assert forall|q: int| 0 <= q < pos_of(ids, x) implies ids[q] != x by {
            if q > 0 {
                assert(ids[q] == ids.drop_first()[q - 1]);
            }
        }
        if pos_of(ids.drop_first(), x) >= 0 {
            assert(ids.contains(x)) by {
                assert(ids[pos_of(ids, x)] == x);
            }
        }
        if pos_of(ids, x) < 0 {
            assert forall|q: int| 0 <= q < ids.len() implies ids[q] != x by {
                if q > 0 {
                    assert(ids[q] == ids.drop_first()[q - 1]);
                }
            }
        }
    }
}

/// Initial layers: the center on layer 0, upstream ids on -1, downstream ids on 1.
pub open spec fn init_layers(n: int, k: int) -> Seq<int> {
    Seq::new(n as nat, |p: int| if p == 0 { 0 } else if p < k { -1 } else { 1 })
}

/// Push a downstream block to at least one layer below `here`.
pub open spec fn step_block(ids: Seq<u64>, k: int, layers: Seq<int>, here: int, b: u64) -> (Seq<int>, bool) {
    let p = pos_of(ids, b);
    if p >= k && here + 1 > layers[p] {
        (layers.update(p, here + 1), true)
    } else {
        (layers, false)
    }
}

/// Push an upstream dependency to at least one layer above `here`.
pub open spec fn step_dep(ids: Seq<u64>, k: int, layers: Seq<int>, here: int, d: u64) -> (Seq<int>, bool) {
    let p = pos_of(ids, d);
    if 1 <= p < k && here - 1 < layers[p] {
        (layers.update(p, here - 1), true)
    } else {
        (layers, false)
    }
}

/// Apply `step_block` to the blocks `xs[t..]`, recording whether anything changed.
pub open spec fn blocks_from(
    ids: Seq<u64>,
    k: int,
    layers: Seq<int>,
    here: int,
    xs: Seq<u64>,
    t: int,
    changed: bool,
) -> (Seq<int>, bool)
    decreases xs.len() - t,
{
    if t < 0 || t >= xs.len() {
        (layers, changed)
    } else {
        let (l1, c1) = step_block(ids, k, layers, here, xs[t]);
        blocks_from(ids, k, l1, here, xs, t + 1, changed || c1)
    }
}

/// Apply `step_dep` to the dependencies `xs[t..]`, recording whether anything changed.
pub open spec fn deps_from(
    ids: Seq<u64>,
    k: int,
    layers: Seq<int>,
    here: int,
    xs: Seq<u64>,
    t: int,
    changed: bool,
) -> (Seq<int>, bool)
    decreases xs.len() - t,
{
    if t < 0 || t >= xs.len() {
        (layers, changed)
    } else {
        let (l1, c1) = step_dep(ids, k, layers, here, xs[t]);
        deps_from(ids, k, l1, here, xs, t + 1, changed || c1)
    }
}

/// Relax the edges of the node at position `j` (nothing for an unknown id).
pub open spec fn node_step(
    tasks: Seq<TaskEntry>,
    ids: Seq<u64>,
    k: int,
    layers: Seq<int>,
    j: int,
    changed: bool,
) -> (Seq<int>, bool) {
    match task_index(tasks, ids[j]) {
        None => (layers, changed),
        Some(ti) => {
            let here = layers[j];
            let (l1, c1) = blocks_from(ids, k, layers, here, tasks[ti].blocks@, 0, changed);
            deps_from(ids, k, l1, here, tasks[ti].dependencies@, 0, c1)
        },
    }
}

/// One relaxation pass over the nodes from position `j` on, in discovery order.
pub open spec fn pass_from(
    tasks: Seq<TaskEntry>,
    ids: Seq<u64>,
    k: int,
    layers: Seq<int>,
    j: int,
    changed: bool,
) -> (Seq<int>, bool)
    decreases ids.len() - j,
{
    if j < 0 || j >= ids.len() {
        (layers, changed)
    } else {
        let (l1, c1) = node_step(tasks, ids, k, layers, j, changed);
        pass_from(tasks, ids, k, l1, j + 1, c1)
    }
}

/// Up to `passes` relaxation passes, stopping after the first pass that changes nothing.
pub open spec fn relax(tasks: Seq<TaskEntry>, ids: Seq<u64>, k: int, layers: Seq<int>, passes: nat) -> Seq<int>
    decreases passes,
{
    if passes == 0 {
        layers
    } else {
        let (l1, c1) = pass_from(tasks, ids, k, layers, 0, false);
        if c1 {
            relax(tasks, ids, k, l1, (passes - 1) as nat)
        } else {
            l1
        }
    }
}

/// Final layer of each discovered id (same positions as `discovery`).
pub open spec fn graph_layers(tasks: Seq<TaskEntry>, center: u64) -> Seq<int> {
    let ids = discovery(tasks, center);
    let k = up_phase(tasks, center).len() as int;
    relax(tasks, ids, k, init_layers(ids.len() as int, k), ids.len())
}

/// `after` moved the upstream layers (positions 1..k) only up and the downstream
/// layers (positions k..) only down the page, and kept the center.
pub open spec fn moved_outward(before: Seq<int>, after: Seq<int>, k: int) -> bool {
    &&& after.len() == before.len()
    &&& (before.len() > 0 ==> after[0] == before[0])
    &&& forall|p: int| 1 <= p < k && p < before.len() ==> after[p] <= before[p]
    &&& forall|p: int| k <= p < before.len() && 1 <= p ==> after[p] >= before[p]
}

pub proof fn lemma_blocks_from(ids: Seq<u64>, k: int, layers: Seq<int>, here: int, xs: Seq<u64>, t: int, changed: bool)
    requires
        k >= 1,
        0 <= t,
        layers.len() == ids.len(),
    ensures
        ({
            let (l2, c2) = blocks_from(ids, k, layers, here, xs, t, changed);
            &&& moved_outward(layers, l2, k)
            &&& (changed ==> c2)
            &&& (!c2 ==> l2 == layers)
            &&& (!c2 ==> forall|u: int| t <= u < xs.len() && 0 <= u ==>
                !(pos_of(ids, #[trigger] xs[u]) >= k && here + 1 > layers[pos_of(ids, xs[u])]))
        }),
    decreases xs.len() - t,
{
    if t < 0 || t >= xs.len() {
    } else {
        let (l1, c1) = step_block(ids, k, layers, here, xs[t]);
        lemma_pos_of(ids, xs[t]);
        lemma_blocks_from(ids, k, l1, here, xs, t + 1, changed || c1);
        let (l2, c2) = blocks_from(ids, k, layers, here, xs, t, changed);
        if !c2 {
            assert(!c1);
            assert(l1 == layers);
            assert forall|u: int| t <= u < xs.len() && 0 <= u implies
                !(pos_of(ids, #[trigger] xs[u]) >= k && here + 1 > layers[pos_of(ids, xs[u])]) by {
                if u > t {
                }
            }
        }
    }
}

pub proof fn lemma_deps_from(ids: Seq<u64>, k: int, layers: Seq<int>, here: int, xs: Seq<u64>, t: int, changed: bool)
    requires
        k >= 1,
        0 <= t,
        layers.len() == ids.len(),
    ensures
        ({
            let (l2, c2) = deps_from(ids, k, layers, here, xs, t, changed);
            &&& moved_outward(layers, l2, k)
            &&& (changed ==> c2)
            &&& (!c2 ==> l2 == layers)
            &&& (!c2 ==> forall|u: int| t <= u < xs.len() && 0 <= u ==>
                !(1 <= pos_of(ids, #[trigger] xs[u]) < k && here - 1 < layers[pos_of(ids, xs[u])]))
        }),
    decreases xs.len() - t,
{
    if t < 0 || t >= xs.len() {
    } else {
        let (l1, c1) = step_dep(ids, k, layers, here, xs[t]);
        lemma_pos_of(ids, xs[t]);
        lemma_deps_from(ids, k, l1, here, xs, t + 1, changed || c1);
        let (l2, c2) = deps_from(ids, k, layers, here, xs, t, changed);
        if !c2 {
            assert(!c1);
            assert(l1 == layers);
            assert forall|u: int| t <= u < xs.len() && 0 <= u implies
                !(1 <= pos_of(ids, #[trigger] xs[u]) < k && here - 1 < layers[pos_of(ids, xs[u])]) by {
                if u > t {
                }
            }
        }
    }
}

/// The node's edges already point downward: every discovered downstream block sits
/// below it and every discovered upstream dependency sits above it.
pub open spec fn node_settled(tasks: Seq<TaskEntry>, ids: Seq<u64>, k: int, layers: Seq<int>, j: int) -> bool {
    task_index(tasks, ids[j]) matches Some(ti) ==> {
        &&& forall|u: int| 0 <= u < tasks[ti].blocks@.len() ==> {
            let p = #[trigger] pos_of(ids, tasks[ti].blocks@[u]);
            p >= k ==> layers[p] >= layers[j] + 1
        }
        &&& forall|u: int| 0 <= u < tasks[ti].dependencies@.len() ==> {
            let p = #[trigger] pos_of(ids, tasks[ti].dependencies@[u]);
            1 <= p < k ==> layers[p] <= layers[j] - 1
        }
    }
}

pub proof fn lemma_node_step(tasks: Seq<TaskEntry>, ids: Seq<u64>, k: int, layers: Seq<int>, j: int, changed: bool)
    requires
        k >= 1,
        layers.len() == ids.len(),
        0 <= j < ids.len(),
    ensures
        ({
            let (l2, c2) = node_step(tasks, ids, k, layers, j, changed);
            &&& moved_outward(layers, l2, k)
            &&& (changed ==> c2)
            &&& (!c2 ==> l2 == layers && node_settled(tasks, ids, k, layers, j))
        }),
{
    match task_index(tasks, ids[j]) {
        None => {},
        Some(ti) => {
            let here = layers[j];
            let (l1, c1) = blocks_from(ids, k, layers, here, tasks[ti].blocks@, 0, changed);
            lemma_blocks_from(ids, k, layers, here, tasks[ti].blocks@, 0, changed);
            lemma_deps_from(ids, k, l1, here, tasks[ti].dependencies@, 0, c1);
            let (l2, c2) = node_step(tasks, ids, k, layers, j, changed);
            if !c2 {
                assert forall|u: int| 0 <= u < tasks[ti].blocks@.len() implies {
                    let p = #[trigger] pos_of(ids, tasks[ti].blocks@[u]);
                    p >= k ==> layers[p] >= layers[j] + 1
                } by {
                    lemma_pos_of(ids, tasks[ti].blocks@[u]);
                }
                assert forall|u: int| 0 <= u < tasks[ti].dependencies@.len() implies {
                    let p = #[trigger] pos_of(ids, tasks[ti].dependencies@[u]);
                    1 <= p < k ==> layers[p] <= layers[j] - 1
                } by {
                    lemma_pos_of(ids, tasks[ti].dependencies@[u]);
                }
            }
        },
    }
}

pub proof fn lemma_moved_outward_trans(a: Seq<int>, b: Seq<int>, c: Seq<int>, k: int)
    requires
        moved_outward(a, b, k),
        moved_outward(b, c, k),
    ensures
        moved_outward(a, c, k),
{
}

pub proof fn lemma_pass_from(tasks: Seq<TaskEntry>, ids: Seq<u64>, k: int, layers: Seq<int>, j: int, changed: bool)
    requires
        k >= 1,
        layers.len() == ids.len(),
        0 <= j,
    ensures
        ({
            let (l2, c2) = pass_from(tasks, ids, k, layers, j, changed);
            &&& moved_outward(layers, l2, k)
            &&& (changed ==> c2)
            &&& (!c2 ==> l2 == layers && forall|q: int| j <= q < ids.len() ==> node_settled(tasks, ids, k, layers, q))
        }),
    decreases ids.len() - j,
{
    if j >= ids.len() {
    } else {
        let (l1, c1) = node_step(tasks, ids, k, layers, j, changed);
        lemma_node_step(tasks, ids, k, layers, j, changed);
        lemma_pass_from(tasks, ids, k, l1, j + 1, c1);
        let (l2, c2) = pass_from(tasks, ids, k, l1, j + 1, c1);
        lemma_moved_outward_trans(layers, l1, l2, k);
    }
}

pub proof fn lemma_relax(tasks: Seq<TaskEntry>, ids: Seq<u64>, k: int, layers: Seq<int>, passes: nat)
    requires
        k >= 1,
        layers.len() == ids.len(),
    ensures
        moved_outward(layers, relax(tasks, ids, k, layers, passes), k),
    decreases passes,
{
    if passes > 0 {
        let (l1, c1) = pass_from(tasks, ids, k, layers, 0, false);
        lemma_pass_from(tasks, ids, k, layers, 0, false);
        if c1 {
            lemma_relax(tasks, ids, k, l1, (passes - 1) as nat);
            lemma_moved_outward_trans(layers, l1, relax(tasks, ids, k, l1, (passes - 1) as nat), k);
        }
    }
}

/// Law: once a relaxation pass changes nothing, every edge that the relaxation
/// considers points downward (dependencies above, blocked tasks below).
pub proof fn lemma_fixpoint_edges_point_down(tasks: Seq<TaskEntry>, ids: Seq<u64>, k: int, layers: Seq<int>)
    requires
        k >= 1,
        layers.len() == ids.len(),
        !pass_from(tasks, ids, k, layers, 0, false).1,
    ensures
        forall|j: int| 0 <= j < ids.len() ==> node_settled(tasks, ids, k, layers, j),
{
    lemma_pass_from(tasks, ids, k, layers, 0, false);
}


/// Whether position `b` is reached from position `a` by a blocked-task edge into the
/// downstream part (`b >= k`).
pub open spec fn block_step(tasks: Seq<TaskEntry>, ids: Seq<u64>, k: int, a: int, b: int) -> bool {
    &&& k <= b < ids.len()
    &&& task_index(tasks, ids[a]) matches Some(ti)
    &&& exists|u: int| 0 <= u < tasks[ti].blocks@.len() && #[trigger] pos_of(ids, tasks[ti].blocks@[u]) == b
}

/// Whether position `b` is reached from position `a` by a dependency edge into the
/// upstream part (`1 <= b < k`).
pub open spec fn dep_step(tasks: Seq<TaskEntry>, ids: Seq<u64>, k: int, a: int, b: int) -> bool {
    &&& 1 <= b < k
    &&& b < ids.len()
    &&& task_index(tasks, ids[a]) matches Some(ti)
    &&& exists|u: int| 0 <= u < tasks[ti].dependencies@.len() && #[trigger] pos_of(ids, tasks[ti].dependencies@[u]) == b
}

/// A chain of positions starting at the center, each reached from the one before by
/// a blocked-task edge (`down`) or a dependency edge (`!down`).
pub open spec fn is_chain(tasks: Seq<TaskEntry>, ids: Seq<u64>, k: int, chain: Seq<int>, down: bool) -> bool {
    &&& chain.len() >= 1
    &&& chain[0] == 0
    &&& forall|i: int| 0 <= i < chain.len() ==> 0 <= #[trigger] chain[i] < ids.len()
    &&& forall|i: int| 0 <= i < chain.len() - 1 ==> if down {
        block_step(tasks, ids, k, #[trigger] chain[i], chain[i + 1])
    } else {
        dep_step(tasks, ids, k, #[trigger] chain[i], chain[i + 1])
    }
}

/// Law: once the relaxation settles, with the center on layer 0, every task reached
/// from the center by a chain of `m` blocked-task edges lies at least `m` layers
/// below it, and every task reached by a chain of `m` dependency edges at least `m`
/// layers above it: each layer is at least as far out as the longest such chain.
pub proof fn lemma_settled_layers_follow_chains(
    tasks: Seq<TaskEntry>,
    ids: Seq<u64>,
    k: int,
    layers: Seq<int>,
    chain: Seq<int>,
    down: bool,
)
    requires
        k >= 1,
        layers.len() == ids.len(),
        ids.len() > 0,
        layers[0] == 0,
        !pass_from(tasks, ids, k, layers, 0, false).1,
        is_chain(tasks, ids, k, chain, down),
    ensures
        down ==> layers[chain.last()] >= chain.len() - 1,
        !down ==> layers[chain.last()] <= -(chain.len() - 1),
    decreases chain.len(),
{
    lemma_fixpoint_edges_point_down(tasks, ids, k, layers);
    if chain.len() > 1 {
        let prev = chain.drop_last();
        assert forall|i: int| 0 <= i < prev.len() implies 0 <= #[trigger] prev[i] < ids.len() by {
            assert(prev[i] == chain[i]);
        }
        assert forall|i: int| 0 <= i < prev.len() - 1 implies (if down {
            block_step(tasks, ids, k, #[trigger] prev[i], prev[i + 1])
        } else {
            dep_step(tasks, ids, k, #[trigger] prev[i], prev[i + 1])
        }) by {
            assert(prev[i] == chain[i] && prev[i + 1] == chain[i + 1]);
            if down {
                assert(block_step(tasks, ids, k, chain[i], chain[i + 1]));
            } else {
                assert(dep_step(tasks, ids, k, chain[i], chain[i + 1]));
            }
        }
        lemma_settled_layers_follow_chains(tasks, ids, k, layers, prev, down);
        let a = chain[chain.len() - 2];
        let b = chain.last();
        assert(prev.last() == a);
        assert(0 <= a < ids.len());
        assert(node_settled(tasks, ids, k, layers, a));
        if down {
            assert(block_step(tasks, ids, k, chain[chain.len() - 2], chain[chain.len() - 1]));
            let ti = task_index(tasks, ids[a]).unwrap();
            let u = choose|u: int| 0 <= u < tasks[ti].blocks@.len() && #[trigger] pos_of(ids, tasks[ti].blocks@[u]) == b;
            assert(pos_of(ids, tasks[ti].blocks@[u]) == b);
        } else {
            assert(dep_step(tasks, ids, k, chain[chain.len() - 2], chain[chain.len() - 1]));
            let ti = task_index(tasks, ids[a]).unwrap();
            let u = choose|u: int| 0 <= u < tasks[ti].dependencies@.len() && #[trigger] pos_of(ids, tasks[ti].dependencies@[u]) == b;
            assert(pos_of(ids, tasks[ti].dependencies@[u]) == b);
        }
    }
}

// ---------------------------------------------------------------------------
// Executable layout.
// ---------------------------------------------------------------------------

/// The exact integer values of a vector of layers.
pub open spec fn ints(v: Seq<i32>) -> Seq<int> {
    v.map_values(|x: i32| x as int)
}

/// Number of positions before `j` whose layer equals `v`.
pub open spec fn count_before(layers: Seq<int>, v: int, j: int) -> nat
    decreases j,
{
    if j <= 0 {
        0
    } else {
        count_before(layers, v, j - 1) + (if layers[j - 1] == v { 1nat } else { 0nat })
    }
}

/// An edge that the layout draws: a dependency of a discovered task or a task it
/// blocks, both ends discovered and distinct.
pub open spec fn wanted_edge(tasks: Seq<TaskEntry>, ids: Seq<u64>, e: GraphEdge) -> bool {
    &&& e.from != e.to
    &&& ids.contains(e.from)
    &&& ids.contains(e.to)
    &&& (deps_of(tasks, e.to).contains(e.from) || blocks_of(tasks, e.from).contains(e.to))
}

/// The rest of the relaxation from the middle of a pass.
pub open spec fn finish(
    tasks: Seq<TaskEntry>,
    ids: Seq<u64>,
    k: int,
    layers: Seq<int>,
    j: int,
    changed: bool,
    rest: nat,
) -> Seq<int> {
    let (l2, c2) = pass_from(tasks, ids, k, layers, j, changed);
    if c2 {
        relax(tasks, ids, k, l2, rest)
    } else {
        l2
    }
}

pub proof fn lemma_finish(
    tasks: Seq<TaskEntry>,
    ids: Seq<u64>,
    k: int,
    layers: Seq<int>,
    j: int,
    changed: bool,
    rest: nat,
)
    requires
        k >= 1,
        layers.len() == ids.len(),
        0 <= j,
    ensures
        moved_outward(layers, finish(tasks, ids, k, layers, j, changed, rest), k),
{
    lemma_pass_from(tasks, ids, k, layers, j, changed);
    let (l2, c2) = pass_from(tasks, ids, k, layers, j, changed);
    if c2 {
        lemma_relax(tasks, ids, k, l2, rest);
        lemma_moved_outward_trans(layers, l2, relax(tasks, ids, k, l2, rest), k);
    }
}

/// The rest of the relaxation from inside the blocks (`in_deps == false`) or the
/// dependencies (`in_deps == true`) of the node at position `j`.
pub open spec fn finish_node(
    tasks: Seq<TaskEntry>,
    ids: Seq<u64>,
    k: int,
    layers: Seq<int>,
    here: int,
    blks: Seq<u64>,
    deps: Seq<u64>,
    in_deps: bool,
    t: int,
    j: int,
    changed: bool,
    rest: nat,
) -> Seq<int> {
    if in_deps {
        let (ld, cd) = deps_from(ids, k, layers, here, deps, t, changed);
        finish(tasks, ids, k, ld, j + 1, cd, rest)
    } else {
        let (lb, cb) = blocks_from(ids, k, layers, here, blks, t, changed);
        let (ld, cd) = deps_from(ids, k, lb, here, deps, 0, cb);
        finish(tasks, ids, k, ld, j + 1, cd, rest)
    }
}

pub proof fn lemma_finish_node(
    tasks: Seq<TaskEntry>,
    ids: Seq<u64>,
    k: int,
    layers: Seq<int>,
    here: int,
    blks: Seq<u64>,
    deps: Seq<u64>,
    in_deps: bool,
    t: int,
    j: int,
    changed: bool,
    rest: nat,
)
    requires
        k >= 1,
        layers.len() == ids.len(),
        0 <= j,
        0 <= t,
    ensures
        moved_outward(
            layers,
            finish_node(tasks, ids, k, layers, here, blks, deps, in_deps, t, j, changed, rest),
            k,
        ),
{
    if in_deps {
        lemma_deps_from(ids, k, layers, here, deps, t, changed);
        let (ld, cd) = deps_from(ids, k, layers, here, deps, t, changed);
        lemma_finish(tasks, ids, k, ld, j + 1, cd, rest);
        lemma_moved_outward_trans(layers, ld, finish(tasks, ids, k, ld, j + 1, cd, rest), k);
    } else {
        lemma_blocks_from(ids, k, layers, here, blks, t, changed);
        let (lb, cb) = blocks_from(ids, k, layers, here, blks, t, changed);
        lemma_deps_from(ids, k, lb, here, deps, 0, cb);
        let (ld, cd) = deps_from(ids, k, lb, here, deps, 0, cb);
        lemma_finish(tasks, ids, k, ld, j + 1, cd, rest);
        lemma_moved_outward_trans(layers, lb, ld, k);
        lemma_moved_outward_trans(layers, ld, finish(tasks, ids, k, ld, j + 1, cd, rest), k);
    }
}

/// Index of the task with the given id (the last one when ids repeat).
pub fn find_task(tasks: &[TaskEntry], id: u64) -> (r: Option<usize>)
    ensures
        r matches Some(i) ==> task_index(tasks@, id) == Some(i as int),
        r is None ==> task_index(tasks@, id) is None,
{
    let mut i: usize = tasks.len();
    assert(tasks@.subrange(0, i as int) =~= tasks@);
    while i > 0
        invariant
            i <= tasks@.len(),
            task_index(tasks@, id) == task_index(tasks@.subrange(0, i as int), id),
        decreases i,
    {
        i = i - 1;
        assert(tasks@.subrange(0, i + 1).drop_last() =~= tasks@.subrange(0, i as int));
        if tasks[i].id == id {
            return Some(i);
        }
    }
    assert(tasks@.subrange(0, 0).len() == 0);
    None
}

/// Position of `x` in `ids`.
pub fn position(ids: &Vec<u64>, x: u64) -> (r: Option<usize>)
    ensures
        r matches Some(p) ==> pos_of(ids@, x) == p as int,
        r is None ==> pos_of(ids@, x) == -1,
{
    proof {
        lemma_pos_of(ids@, x);
    }
    let mut i: usize = 0;
    while i < ids.len()
        invariant
            i <= ids@.len(),
            -1 <= pos_of(ids@, x) < ids@.len(),
            pos_of(ids@, x) >= 0 ==> ids@[pos_of(ids@, x)] == x,
            forall|q: int| 0 <= q < pos_of(ids@, x) ==> ids@[q] != x,
            pos_of(ids@, x) < 0 ==> forall|q: int| 0 <= q < ids@.len() ==> ids@[q] != x,
            forall|q: int| 0 <= q < i ==> ids@[q] != x,
        decreases ids.len() - i,
    {
        if ids[i] == x {
            return Some(i);
        }
        i = i + 1;
    }
    None
}

/// Append each element of `xs` that is not yet in `ids`.
pub fn add_new_ids(ids: &mut Vec<u64>, xs: &Vec<u64>)
    ensures
        final(ids)@ == add_new_from(old(ids)@, xs@, 0),
{
    let mut t: usize = 0;
    while t < xs.len()
        invariant
            t <= xs@.len(),
            add_new_from(ids@, xs@, t as int) == add_new_from(old(ids)@, xs@, 0),
        decreases xs.len() - t,
    {
        let x = xs[t];
        let found = position(ids, x);
        proof {
            lemma_pos_of(ids@, x);
        }
        if found.is_none() {
            ids.push(x);
        }
        t = t + 1;
    }
}

/// Discovery order of the walk and the number of ids found by the upstream walk
/// (the center included).
pub fn discover(tasks: &[TaskEntry], center: u64) -> (r: (Vec<u64>, usize))
    ensures
        r.0@ == discovery(tasks@, center),
        r.1 as int == up_phase(tasks@, center).len(),
{
    let mut ids: Vec<u64> = Vec::new();
    ids.push(center);
    proof {
        assert(ids@ =~= seq![center]);
        lemma_refs_finite(tasks@);
    }
    let mut i: usize = 0;
    while i < ids.len()
        invariant
            i <= ids@.len(),
            up_from(tasks@, ids@, i as int) == up_phase(tasks@, center),
        decreases undiscovered(tasks@, ids@), ids@.len() - i,
    {
        let cur = ids[i];
        proof {
            lemma_neighbors_in_refs(tasks@, cur);
            lemma_add_new_from(tasks@, ids@, deps_of(tasks@, cur), 0);
            lemma_task_index_range(tasks@, cur);
        }
        match find_task(tasks, cur) {
            Some(ti) => {
                add_new_ids(&mut ids, &tasks[ti].dependencies);
            },
            None => {
                assert(add_new_from(ids@, deps_of(tasks@, cur), 0) == ids@);
            },
        }
        i = i + 1;
    }
    let k = ids.len();
    assert(ids@ == up_phase(tasks@, center));
    proof {
        lemma_task_index_range(tasks@, center);
    }
    match find_task(tasks, center) {
        Some(ti) => {
            add_new_ids(&mut ids, &tasks[ti].blocks);
        },
        None => {
            assert(add_new_from(ids@, blocks_of(tasks@, center), 0) == ids@);
        },
    }
    let mut i: usize = k;
    proof {
        lemma_neighbors_in_refs(tasks@, center);
        lemma_add_new_from(tasks@, up_phase(tasks@, center), blocks_of(tasks@, center), 0);
    }
    while i < ids.len()
        invariant
            k <= i <= ids@.len(),
            k == up_phase(tasks@, center).len(),
            down_from(tasks@, ids@, i as int) == discovery(tasks@, center),
        decreases undiscovered(tasks@, ids@), ids@.len() - i,
    {
        let cur = ids[i];
        proof {
            lemma_neighbors_in_refs(tasks@, cur);
            lemma_add_new_from(tasks@, ids@, blocks_of(tasks@, cur), 0);
            lemma_task_index_range(tasks@, cur);
        }
        match find_task(tasks, cur) {
            Some(ti) => {
                add_new_ids(&mut ids, &tasks[ti].blocks);
            },
            None => {
                assert(add_new_from(ids@, blocks_of(tasks@, cur), 0) == ids@);
            },
        }
        i = i + 1;
    }
    (ids, k)
}


/// Every value of the relaxation lies strictly inside the range of `i32`.
pub open spec fn layers_fit(layers: Seq<int>) -> bool {
    forall|p: int| 0 <= p < layers.len() ==> i32::MIN < #[trigger] layers[p] < i32::MAX
}

/// Bounds that the current layers inherit from the initial and the final ones.
pub open spec fn between(init: Seq<int>, cur: Seq<int>, fin: Seq<int>, k: int) -> bool {
    &&& moved_outward(init, cur, k)
    &&& moved_outward(cur, fin, k)
}

/// Relax the initial layers of the discovered ids (`ids[..k]` the center and the
/// upstream ids, the rest downstream).
pub fn relax_layers(tasks: &[TaskEntry], ids: &Vec<u64>, k: usize) -> (layers: Vec<i32>)
    requires
        1 <= k <= ids@.len(),
        layers_fit(relax(tasks@, ids@, k as int, init_layers(ids@.len() as int, k as int), ids@.len())),
    ensures
        ints(layers@) == relax(tasks@, ids@, k as int, init_layers(ids@.len() as int, k as int), ids@.len()),
{
    let n = ids.len();
    let ghost kk = k as int;
    let ghost init = init_layers(n as int, kk);
    let ghost fin = relax(tasks@, ids@, kk, init, n as nat);
    let mut layers: Vec<i32> = Vec::new();
    let mut p: usize = 0;
    while p < n
        invariant
            p <= n,
            n == ids@.len(),
            layers@.len() == p,
            kk == k,
            init == init_layers(n as int, kk),
            forall|q: int| 0 <= q < p ==> ints(layers@)[q] == init[q],
        decreases n - p,
    {
        let v: i32 = if p == 0 { 0 } else if p < k { -1 } else { 1 };
        let ghost before = layers@;
        layers.push(v);
        assert(ints(layers@) =~= ints(before).push(v as int));
        p = p + 1;
    }
    assert(ints(layers@) =~= init);
    proof {
        lemma_relax(tasks@, ids@, kk, init, n as nat);
    }
    let mut pass: usize = 0;
    while pass < n
        invariant
            pass <= n,
            n == ids@.len(),
            kk == k,
            1 <= k <= n,
            init == init_layers(n as int, kk),
            fin == relax(tasks@, ids@, kk, init, n as nat),
            layers_fit(fin),
            layers@.len() == n,
            relax(tasks@, ids@, kk, ints(layers@), (n - pass) as nat) == fin,
            between(init, ints(layers@), fin, kk),
        decreases n - pass,
    {
        let ghost rest = (n - pass - 1) as nat;
        let mut changed = false;
        let mut j: usize = 0;
        while j < n
            invariant
                j <= n,
                pass < n,
                rest == (n - pass - 1) as nat,
                n == ids@.len(),
                kk == k,
                1 <= k <= n,
                init == init_layers(n as int, kk),
                layers_fit(fin),
                layers@.len() == n,
                finish(tasks@, ids@, kk, ints(layers@), j as int, changed, rest) == fin,
                between(init, ints(layers@), fin, kk),
            decreases n - j,
        {
            let ghost l0 = ints(layers@);
            let ghost c0 = changed;
            let cur = ids[j];
            proof {
                lemma_task_index_range(tasks@, cur);
            }
            match find_task(tasks, cur) {
                None => {},
                Some(ti) => {
                    let here: i32 = layers[j];
                    let blks = &tasks[ti].blocks;
                    let deps = &tasks[ti].dependencies;
                    assert(finish_node(tasks@, ids@, kk, l0, here as int, blks@, deps@, false, 0, j as int, c0, rest) == fin);
                    let mut t: usize = 0;
                    while t < blks.len()
                        invariant
                            t <= blks@.len(),
                            j < n,
                            n == ids@.len(),
                            kk == k,
                            1 <= k <= n,
                            init == init_layers(n as int, kk),
                            layers_fit(fin),
                            layers@.len() == n,
                            here as int == l0[j as int],
                            moved_outward(init, l0, kk),
                            moved_outward(l0, fin, kk),
                            finish_node(tasks@, ids@, kk, ints(layers@), here as int, blks@, deps@, false, t as int, j as int, changed, rest) == fin,
                            between(init, ints(layers@), fin, kk),
                        decreases blks.len() - t,
                    {
                        proof {
                            lemma_finish_node(tasks@, ids@, kk, ints(layers@), here as int, blks@, deps@, false, t as int, j as int, changed, rest);
                            lemma_pos_of(ids@, blks@[t as int]);
                        }
                        let ghost old_layers = layers@;
                        match position(ids, blks[t]) {
                            Some(q) => {
                                if q >= k {
                                    assert(fin[j as int] < i32::MAX);
                                    let up = here + 1;
                                    if up > layers[q] {
                                        let ghost before = ints(layers@);
                                        layers.set(q, up);
                                        changed = true;
                                        assert(ints(layers@) =~= before.update(q as int, here + 1));
                                    }
                                }
                            },
                            None => {},
                        }
                        proof {
                            lemma_finish_node(tasks@, ids@, kk, ints(layers@), here as int, blks@, deps@, false, t + 1, j as int, changed, rest);
                            lemma_moved_outward_trans(init, ints(old_layers), ints(layers@), kk);
                        }
                        t = t + 1;
                    }
                    let mut t: usize = 0;
                    while t < deps.len()
                        invariant
                            t <= deps@.len(),
                            j < n,
                            n == ids@.len(),
                            kk == k,
                            1 <= k <= n,
                            init == init_layers(n as int, kk),
                            layers_fit(fin),
                            layers@.len() == n,
                            here as int == l0[j as int],
                            moved_outward(init, l0, kk),
                            moved_outward(l0, fin, kk),
                            finish_node(tasks@, ids@, kk, ints(layers@), here as int, blks@, deps@, true, t as int, j as int, changed, rest) == fin,
                            between(init, ints(layers@), fin, kk),
                        decreases deps.len() - t,
                    {
                        proof {
                            lemma_finish_node(tasks@, ids@, kk, ints(layers@), here as int, blks@, deps@, true, t as int, j as int, changed, rest);
                            lemma_pos_of(ids@, deps@[t as int]);
                        }
                        let ghost old_layers = layers@;
                        match position(ids, deps[t]) {
                            Some(q) => {
                                if 1 <= q && q < k {
                                    assert(fin[j as int] > i32::MIN);
                                    let down = here - 1;
                                    if down < layers[q] {
                                        let ghost before = ints(layers@);
                                        layers.set(q, down);
                                        changed = true;
                                        assert(ints(layers@) =~= before.update(q as int, here - 1));
                                    }
                                }
                            },
                            None => {},
                        }
                        proof {
                            lemma_finish_node(tasks@, ids@, kk, ints(layers@), here as int, blks@, deps@, true, t + 1, j as int, changed, rest);
                            lemma_moved_outward_trans(init, ints(old_layers), ints(layers@), kk);
                        }
                        t = t + 1;
                    }
                },
            }
            j = j + 1;
        }
        if !changed {
            return layers;
        }
        pass = pass + 1;
    }
    layers
}


/// For each position, the number of earlier positions on the same layer.
pub fn layer_orders(layers: &Vec<i32>) -> (orders: Vec<usize>)
    ensures
        orders@.len() == layers@.len(),
        forall|j: int| 0 <= j < layers@.len() ==>
            #[trigger] orders@[j] as int == count_before(ints(layers@), ints(layers@)[j], j),
{
    let ghost l = ints(layers@);
    let mut orders: Vec<usize> = Vec::new();
    let mut j: usize = 0;
    while j < layers.len()
        invariant
            j <= layers@.len(),
            l == ints(layers@),
            orders@.len() == j,
            forall|q: int| 0 <= q < j ==> #[trigger] orders@[q] as int == count_before(l, l[q], q),
        decreases layers.len() - j,
    {
        let v = layers[j];
        let mut count: usize = 0;
        let mut m: usize = 0;
        while m < j
            invariant
                m <= j,
                j < layers@.len(),
                l == ints(layers@),
                v as int == l[j as int],
                count as int == count_before(l, l[j as int], m as int),
                count <= m,
            decreases j - m,
        {
            if layers[m] == v {
                count = count + 1;
            }
            m = m + 1;
        }
        orders.push(count);
        j = j + 1;
    }
    orders
}

/// Whether `edges` already holds `e`.
pub fn contains_edge(edges: &Vec<GraphEdge>, e: GraphEdge) -> (r: bool)
    ensures
        r == edges@.contains(e),
{
    let mut i: usize = 0;
    while i < edges.len()
        invariant
            i <= edges@.len(),
            forall|q: int| 0 <= q < i ==> edges@[q] != e,
        decreases edges.len() - i,
    {
        if edges[i].from == e.from && edges[i].to == e.to {
            assert(edges@[i as int] == e);
            return true;
        }
        i = i + 1;
    }
    false
}

/// Edges whose head is among the first `j` discovered ids (for dependencies) or
/// whose tail is (for blocks).
pub open spec fn covered(tasks: Seq<TaskEntry>, ids: Seq<u64>, j: int, e: GraphEdge) -> bool {
    ||| ids.subrange(0, j).contains(e.to) && deps_of(tasks, e.to).contains(e.from)
    ||| ids.subrange(0, j).contains(e.from) && blocks_of(tasks, e.from).contains(e.to)
}

/// The drawn edges, without duplicates.
pub fn collect_edges(tasks: &[TaskEntry], ids: &Vec<u64>) -> (edges: Vec<GraphEdge>)
    ensures
        edges@.no_duplicates(),
        forall|i: int| 0 <= i < edges@.len() ==> wanted_edge(tasks@, ids@, #[trigger] edges@[i]),
        forall|e: GraphEdge| wanted_edge(tasks@, ids@, e) ==> edges@.contains(e),
{
    let mut edges: Vec<GraphEdge> = Vec::new();
    let mut j: usize = 0;
    while j < ids.len()
        invariant
            j <= ids@.len(),
            edges@.no_duplicates(),
            forall|i: int| 0 <= i < edges@.len() ==> wanted_edge(tasks@, ids@, #[trigger] edges@[i]),
            forall|e: GraphEdge| wanted_edge(tasks@, ids@, e) && covered(tasks@, ids@, j as int, e) ==> edges@.contains(e),
        decreases ids.len() - j,
    {
        let id = ids[j];
        proof {
            lemma_task_index_range(tasks@, id);
        }
        match find_task(tasks, id) {
            None => {},
            Some(ti) => {
                let deps = &tasks[ti].dependencies;
                let blks = &tasks[ti].blocks;
                let mut t: usize = 0;
                while t < deps.len()
                    invariant
                        t <= deps@.len(),
                        j < ids@.len(),
                        id == ids@[j as int],
                        task_index(tasks@, id) == Some(ti as int),
                        ti < tasks@.len(),
                        deps@ == tasks@[ti as int].dependencies@,
                        edges@.no_duplicates(),
                        forall|i: int| 0 <= i < edges@.len() ==> wanted_edge(tasks@, ids@, #[trigger] edges@[i]),
                        forall|e: GraphEdge| wanted_edge(tasks@, ids@, e) && covered(tasks@, ids@, j as int, e) ==> edges@.contains(e),
                        forall|e: GraphEdge| wanted_edge(tasks@, ids@, e) && e.to == id && deps@.subrange(0, t as int).contains(e.from) ==> edges@.contains(e),
                    decreases deps.len() - t,
                {
                    let d = deps[t];
                    let e = GraphEdge { from: d, to: id };
                    let found = position(ids, d);
                    proof {
                        lemma_pos_of(ids@, d);
                        assert(ids@.contains(id)) by {
                            assert(ids@[j as int] == id);
                        }
                        assert(deps@.contains(d)) by {
                            assert(deps@[t as int] == d);
                        }
                    }
                    if d != id && found.is_some() {
                        if !contains_edge(&edges, e) {
                            edges.push(e);
                            proof {
                                assert(edges@.last() == e);
                            }
                        }
                    }
                    proof {
                        assert forall|e2: GraphEdge| wanted_edge(tasks@, ids@, e2) && e2.to == id
                            && deps@.subrange(0, t + 1).contains(e2.from) implies edges@.contains(e2) by {
                            let u = choose|u: int| #![trigger deps@.subrange(0, t + 1)[u]] 0 <= u < t + 1 && deps@.subrange(0, t + 1)[u] == e2.from;
                            if u < t {
                                assert(deps@.subrange(0, t as int)[u] == e2.from);
                            } else {
                                assert(e2 == e);
                            }
                        }
                    }
                    t = t + 1;
                }
                let mut t: usize = 0;
                while t < blks.len()
                    invariant
                        t <= blks@.len(),
                        j < ids@.len(),
                        id == ids@[j as int],
                        task_index(tasks@, id) == Some(ti as int),
                        ti < tasks@.len(),
                        deps@ == tasks@[ti as int].dependencies@,
                        blks@ == tasks@[ti as int].blocks@,
                        edges@.no_duplicates(),
                        forall|i: int| 0 <= i < edges@.len() ==> wanted_edge(tasks@, ids@, #[trigger] edges@[i]),
                        forall|e: GraphEdge| wanted_edge(tasks@, ids@, e) && covered(tasks@, ids@, j as int, e) ==> edges@.contains(e),
                        forall|e: GraphEdge| wanted_edge(tasks@, ids@, e) && e.to == id && deps@.subrange(0, deps@.len() as int).contains(e.from) ==> edges@.contains(e),
                        forall|e: GraphEdge| wanted_edge(tasks@, ids@, e) && e.from == id && blks@.subrange(0, t as int).contains(e.to) ==> edges@.contains(e),
                    decreases blks.len() - t,
                {
                    let b = blks[t];
                    let e = GraphEdge { from: id, to: b };
                    let found = position(ids, b);
                    proof {
                        lemma_pos_of(ids@, b);
                        assert(ids@.contains(id)) by {
                            assert(ids@[j as int] == id);
                        }
                        assert(blks@.contains(b)) by {
                            assert(blks@[t as int] == b);
                        }
                    }
                    if b != id && found.is_some() {
                        if !contains_edge(&edges, e) {
                            edges.push(e);
                            proof {
                                assert(edges@.last() == e);
                            }
                        }
                    }
                    proof {
                        assert forall|e2: GraphEdge| wanted_edge(tasks@, ids@, e2) && e2.from == id
                            && blks@.subrange(0, t + 1).contains(e2.to) implies edges@.contains(e2) by {
                            let u = choose|u: int| #![trigger blks@.subrange(0, t + 1)[u]] 0 <= u < t + 1 && blks@.subrange(0, t + 1)[u] == e2.to;
                            if u < t {
                                assert(blks@.subrange(0, t as int)[u] == e2.to);
                            } else {
                                assert(e2 == e);
                            }
                        }
                    }
                    t = t + 1;
                }
                proof {
                    assert(deps@.subrange(0, deps@.len() as int) =~= deps@);
                    assert(blks@.subrange(0, blks@.len() as int) =~= blks@);
                }
            },
        }
        proof {
            assert forall|e: GraphEdge| wanted_edge(tasks@, ids@, e) && covered(tasks@, ids@, j + 1, e)
                implies edges@.contains(e) by {
                let pre = ids@.subrange(0, j as int);
                let pre1 = ids@.subrange(0, j + 1);
                if pre1.contains(e.to) && deps_of(tasks@, e.to).contains(e.from) {
                    let q = choose|q: int| #![trigger pre1[q]] 0 <= q < pre1.len() && pre1[q] == e.to;
                    if q < j {
                        assert(pre[q] == e.to);
                    } else {
                        assert(e.to == id);
                        assert(deps_of(tasks@, id).subrange(0, deps_of(tasks@, id).len() as int) =~= deps_of(tasks@, id));
                    }
                }
                if pre1.contains(e.from) && blocks_of(tasks@, e.from).contains(e.to) {
                    let q = choose|q: int| #![trigger pre1[q]] 0 <= q < pre1.len() && pre1[q] == e.from;
                    if q < j {
                        assert(pre[q] == e.from);
                    } else {
                        assert(e.from == id);
                        assert(blocks_of(tasks@, id).subrange(0, blocks_of(tasks@, id).len() as int) =~= blocks_of(tasks@, id));
                    }
                }
            }
        }
        j = j + 1;
    }
    proof {
        assert forall|e: GraphEdge| wanted_edge(tasks@, ids@, e) implies covered(tasks@, ids@, ids@.len() as int, e) by {
            assert(ids@.subrange(0, ids@.len() as int) =~= ids@);
        }
    }
    edges
}

/// Whether `layout` is the layered layout of the graph around `center`: one node per
/// discovered id, in discovery order, with its final layer, its position among the
/// earlier nodes of that layer and whether the id is a listed task; and each wanted
/// edge exactly once.
pub open spec fn is_layout(tasks: Seq<TaskEntry>, center: u64, layout: GraphLayout) -> bool {
    let ids = discovery(tasks, center);
    let layers = graph_layers(tasks, center);
    &&& layout.nodes@.len() == ids.len()
    &&& forall|j: int| 0 <= j < ids.len() ==> {
        let n = #[trigger] layout.nodes@[j];
        &&& n.id == ids[j]
        &&& n.layer as int == layers[j]
        &&& n.order as int == count_before(layers, layers[j], j)
        &&& n.known == is_known(tasks, ids[j])
    }
    &&& layout.edges@.no_duplicates()
    &&& forall|i: int| 0 <= i < layout.edges@.len() ==> wanted_edge(tasks, ids, #[trigger] layout.edges@[i])
    &&& forall|e: GraphEdge| wanted_edge(tasks, ids, e) ==> layout.edges@.contains(e)
}

/// Every layer lies within `-m ..= m`.
pub open spec fn layers_within(layers: Seq<int>, m: int) -> bool {
    forall|p: int| 0 <= p < layers.len() ==> -m <= #[trigger] layers[p] <= m
}

proof fn lemma_blocks_bound(ids: Seq<u64>, k: int, layers: Seq<int>, here: int, xs: Seq<u64>, t: int, changed: bool, m: int)
    requires
        k >= 1,
        layers.len() == ids.len(),
        layers_within(layers, m + 1),
        -m <= here <= m,
    ensures
        blocks_from(ids, k, layers, here, xs, t, changed).0.len() == layers.len(),
        layers_within(blocks_from(ids, k, layers, here, xs, t, changed).0, m + 1),
    decreases xs.len() - t,
{
    if 0 <= t < xs.len() {
        let (l1, c1) = step_block(ids, k, layers, here, xs[t]);
        lemma_pos_of(ids, xs[t]);
        lemma_blocks_bound(ids, k, l1, here, xs, t + 1, changed || c1, m);
    }
}

proof fn lemma_deps_bound(ids: Seq<u64>, k: int, layers: Seq<int>, here: int, xs: Seq<u64>, t: int, changed: bool, m: int)
    requires
        k >= 1,
        layers.len() == ids.len(),
        layers_within(layers, m + 1),
        -m <= here <= m,
    ensures
        deps_from(ids, k, layers, here, xs, t, changed).0.len() == layers.len(),
        layers_within(deps_from(ids, k, layers, here, xs, t, changed).0, m + 1),
    decreases xs.len() - t,
{
    if 0 <= t < xs.len() {
        let (l1, c1) = step_dep(ids, k, layers, here, xs[t]);
        lemma_pos_of(ids, xs[t]);
        lemma_deps_bound(ids, k, l1, here, xs, t + 1, changed || c1, m);
    }
}

proof fn lemma_pass_bound(tasks: Seq<TaskEntry>, ids: Seq<u64>, k: int, layers: Seq<int>, j: int, changed: bool, m: int)
    requires
        k >= 1,
        0 <= j <= ids.len(),
        m >= 0,
        layers.len() == ids.len(),
        layers_within(layers, m),
    ensures
        pass_from(tasks, ids, k, layers, j, changed).0.len() == layers.len(),
        layers_within(pass_from(tasks, ids, k, layers, j, changed).0, m + ids.len() - j),
    decreases ids.len() - j,
{
    if j < ids.len() {
        let (l1, c1) = node_step(tasks, ids, k, layers, j, changed);
        match task_index(tasks, ids[j]) {
            None => {},
            Some(ti) => {
                let here = layers[j];
                lemma_blocks_bound(ids, k, layers, here, tasks[ti].blocks@, 0, changed, m);
                let (lb, cb) = blocks_from(ids, k, layers, here, tasks[ti].blocks@, 0, changed);
                lemma_deps_bound(ids, k, lb, here, tasks[ti].dependencies@, 0, cb, m);
            },
        }
        assert(layers_within(l1, m + 1));
        lemma_pass_bound(tasks, ids, k, l1, j + 1, c1, m + 1);
    }
}

proof fn lemma_relax_bound(tasks: Seq<TaskEntry>, ids: Seq<u64>, k: int, layers: Seq<int>, passes: nat, m: int)
    requires
        k >= 1,
        m >= 0,
        layers.len() == ids.len(),
        layers_within(layers, m),
    ensures
        relax(tasks, ids, k, layers, passes).len() == layers.len(),
        layers_within(relax(tasks, ids, k, layers, passes), m + (passes * ids.len()) as int),
    decreases passes,
{
    if passes > 0 {
        let (l1, c1) = pass_from(tasks, ids, k, layers, 0, false);
        lemma_pass_bound(tasks, ids, k, layers, 0, false, m);
        if c1 {
            lemma_relax_bound(tasks, ids, k, l1, (passes - 1) as nat, m + ids.len());
            assert(m + ids.len() + (passes - 1) * ids.len() == m + passes * ids.len()) by (nonlinear_arith);
        } else {
            let n = ids.len();
            assert(n <= passes * n) by (nonlinear_arith)
                requires
                    passes >= 1,
            ;
            assert forall|p: int| 0 <= p < l1.len() implies -(m + (passes * n) as int) <= #[trigger] l1[p] <= m + (passes * n) as int by {
                assert(-(m + n) <= l1[p] <= m + n);
            }
        }
    } else {
        assert(passes * ids.len() == 0) by (nonlinear_arith)
            requires
                passes == 0,
        ;
    }
}

/// The final layers of a graph with `n` discovered ids lie within `-(1 + n*n) ..=
/// 1 + n*n`: each relaxation pass moves a layer by at most one per node.
pub proof fn lemma_graph_layers_bound(tasks: Seq<TaskEntry>, center: u64)
    ensures
        layers_within(graph_layers(tasks, center), (1 + discovery(tasks, center).len() * discovery(tasks, center).len()) as int),
        discovery(tasks, center).len() <= 46340 ==> layers_fit(graph_layers(tasks, center)),
{
    lemma_discovery_shape(tasks, center);
    let ids = discovery(tasks, center);
    let k = up_phase(tasks, center).len() as int;
    let n = ids.len();
    let init = init_layers(n as int, k);
    assert(layers_within(init, 1));
    lemma_relax_bound(tasks, ids, k, init, n, 1);
    if n <= 46340 {
        assert(n * n <= 46340 * 46340) by (nonlinear_arith)
            requires
                n <= 46340,
        ;
    }
}

/// The layout when the graph is small enough for its layers to fit in 32 bits
/// (at most 46340 discovered ids); `None` otherwise.
pub fn try_build_graph_layout(tasks: &[TaskEntry], center: u64) -> (r: Option<GraphLayout>)
    ensures
        discovery(tasks@, center).len() <= 46340 ==> (r matches Some(layout) && is_layout(tasks@, center, layout)),
        discovery(tasks@, center).len() > 46340 ==> r is None,
{
    let (ids, _k) = discover(tasks, center);
    if ids.len() > 46340 {
        return None;
    }
    proof {
        lemma_graph_layers_bound(tasks@, center);
    }
    Some(build_graph_layout(tasks, center))
}

/// Build the layered layout of the dependency graph centered on `center`.
pub fn build_graph_layout(tasks: &[TaskEntry], center: u64) -> (layout: GraphLayout)
    requires
        layers_fit(graph_layers(tasks@, center)),
    ensures
        is_layout(tasks@, center, layout),
{
    let (ids, k) = discover(tasks, center);
    proof {
        lemma_discovery_shape(tasks@, center);
    }
    proof {
        lemma_graph_layers_signs(tasks@, center);
        assert(graph_layers(tasks@, center) == relax(tasks@, ids@, k as int, init_layers(ids@.len() as int, k as int), ids@.len()));
    }
    let layers = relax_layers(tasks, &ids, k);
    assert(ints(layers@).len() == layers@.len());
    let orders = layer_orders(&layers);
    let mut nodes: Vec<GraphNode> = Vec::new();
    let mut j: usize = 0;
    while j < ids.len()
        invariant
            j <= ids@.len(),
            ids@ == discovery(tasks@, center),
            ints(layers@) == graph_layers(tasks@, center),
            layers@.len() == ids@.len(),
            orders@.len() == ids@.len(),
            forall|q: int| 0 <= q < layers@.len() ==>
                #[trigger] orders@[q] as int == count_before(ints(layers@), ints(layers@)[q], q),
            nodes@.len() == j,
            forall|q: int| 0 <= q < j ==> {
                let n = #[trigger] nodes@[q];
                &&& n.id == ids@[q]
                &&& n.layer as int == ints(layers@)[q]
                &&& n.order as int == count_before(ints(layers@), ints(layers@)[q], q)
                &&& n.known == is_known(tasks@, ids@[q])
            },
        decreases ids.len() - j,
    {
        let id = ids[j];
        let known = find_task(tasks, id).is_some();
        nodes.push(GraphNode { id, layer: layers[j], order: orders[j], known });
        j = j + 1;
    }
    let edges = collect_edges(tasks, &ids);
    GraphLayout { nodes, edges }
}

/// Whether the graph's relaxation has settled: one more pass over its final layers
/// changes nothing (so on every graph whose relaxation settles within its pass
/// limit).
pub open spec fn graph_settled(tasks: Seq<TaskEntry>, center: u64) -> bool {
    !pass_from(
        tasks,
        discovery(tasks, center),
        up_phase(tasks, center).len() as int,
        graph_layers(tasks, center),
        0,
        false,
    ).1
}

/// Law on the layout's layers: when the relaxation has settled, every task reached
/// from the center by `m` blocked-task edges is at least `m` layers below it, and
/// every task reached by `m` dependency edges at least `m` layers above it.
pub proof fn lemma_graph_layers_follow_chains(tasks: Seq<TaskEntry>, center: u64, chain: Seq<int>, down: bool)
    requires
        graph_settled(tasks, center),
        is_chain(tasks, discovery(tasks, center), up_phase(tasks, center).len() as int, chain, down),
    ensures
        down ==> graph_layers(tasks, center)[chain.last()] >= chain.len() - 1,
        !down ==> graph_layers(tasks, center)[chain.last()] <= -(chain.len() - 1),
{
    lemma_discovery_shape(tasks, center);
    lemma_graph_layers_signs(tasks, center);
    lemma_settled_layers_follow_chains(
        tasks,
        discovery(tasks, center),
        up_phase(tasks, center).len() as int,
        graph_layers(tasks, center),
        chain,
        down,
    );
}

/// Shape of the discovery: the center comes first, the upstream walk is a prefix,
/// and no id is discovered twice.
pub proof fn lemma_discovery_shape(tasks: Seq<TaskEntry>, center: u64)
    ensures
        ({
            let up = up_phase(tasks, center);
            let ids = discovery(tasks, center);
            &&& 1 <= up.len() <= ids.len()
            &&& ids[0] == center
            &&& ids.subrange(0, up.len() as int) == up
            &&& ids.no_duplicates()
        }),
{
    lemma_up_from_shape(tasks, seq![center], 0);
    let up = up_phase(tasks, center);
    lemma_neighbors_in_refs(tasks, center);
    lemma_add_new_from(tasks, up, blocks_of(tasks, center), 0);
    let mid = add_new_from(up, blocks_of(tasks, center), 0);
    lemma_down_from_shape(tasks, mid, up.len() as int);
    let ids = discovery(tasks, center);
    assert(ids.subrange(0, up.len() as int) =~= ids.subrange(0, mid.len() as int).subrange(0, up.len() as int));
    assert(up[0] == up.subrange(0, 1)[0]);
}

pub proof fn lemma_up_from_shape(tasks: Seq<TaskEntry>, ids: Seq<u64>, i: int)
    requires
        0 <= i,
    ensures
        ({
            let r = up_from(tasks, ids, i);
            &&& r.len() >= ids.len()
            &&& r.subrange(0, ids.len() as int) == ids
            &&& ids.no_duplicates() ==> r.no_duplicates()
        }),
    decreases undiscovered(tasks, ids), ids.len() - i,
{
    if i < ids.len() {
        lemma_neighbors_in_refs(tasks, ids[i]);
        lemma_add_new_from(tasks, ids, deps_of(tasks, ids[i]), 0);
        let next = add_new_from(ids, deps_of(tasks, ids[i]), 0);
        lemma_up_from_shape(tasks, next, i + 1);
        let r = up_from(tasks, next, i + 1);
        assert(r.subrange(0, ids.len() as int) =~= r.subrange(0, next.len() as int).subrange(0, ids.len() as int));
    }
}

pub proof fn lemma_down_from_shape(tasks: Seq<TaskEntry>, ids: Seq<u64>, i: int)
    requires
        0 <= i,
    ensures
        ({
            let r = down_from(tasks, ids, i);
            &&& r.len() >= ids.len()
            &&& r.subrange(0, ids.len() as int) == ids
            &&& ids.no_duplicates() ==> r.no_duplicates()
        }),
    decreases undiscovered(tasks, ids), ids.len() - i,
{
    if i < ids.len() {
        lemma_neighbors_in_refs(tasks, ids[i]);
        lemma_add_new_from(tasks, ids, blocks_of(tasks, ids[i]), 0);
        let next = add_new_from(ids, blocks_of(tasks, ids[i]), 0);
        lemma_down_from_shape(tasks, next, i + 1);
        let r = down_from(tasks, next, i + 1);
        assert(r.subrange(0, ids.len() as int) =~= r.subrange(0, next.len() as int).subrange(0, ids.len() as int));
    }
}

/// Law: the center sits on layer 0, every upstream node above it (negative layer)
/// and every downstream node below it (positive layer).
pub proof fn lemma_graph_layers_signs(tasks: Seq<TaskEntry>, center: u64)
    ensures
        ({
            let ids = discovery(tasks, center);
            let k = up_phase(tasks, center).len() as int;
            let layers = graph_layers(tasks, center);
            &&& layers.len() == ids.len()
            &&& layers[0] == 0
            &&& forall|p: int| 1 <= p < k ==> layers[p] <= -1
            &&& forall|p: int| k <= p < ids.len() ==> layers[p] >= 1
        }),
{
    lemma_discovery_shape(tasks, center);
    let ids = discovery(tasks, center);
    let k = up_phase(tasks, center).len() as int;
    lemma_relax(tasks, ids, k, init_layers(ids.len() as int, k), ids.len());
}

} // verus!
