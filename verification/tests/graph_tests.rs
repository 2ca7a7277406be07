use vol_llm::graph::{build_graph_layout, try_build_graph_layout, GraphLayout, GraphNode, TaskEntry};
use vol_llm::graph_view::{graph_geometry, node_label, node_position, node_subject, truncate};

fn t(id: u64, deps: Vec<u64>, blocks: Vec<u64>) -> TaskEntry {
    TaskEntry {
        id,
        status: "pending".to_string(),
        kind: "task".to_string(),
        publisher: None,
        assignee: None,
        subject: format!("task {id}"),
        description: String::new(),
        active_form: None,
        dependencies: deps,
        blocks,
        created_at: 0,
        started_at: None,
        completed_at: None,
    }
}

fn node<'a>(layout: &'a GraphLayout, id: u64) -> &'a GraphNode {
    layout.nodes.iter().find(|n| n.id == id).expect("node present")
}

fn has_edge(layout: &GraphLayout, from: u64, to: u64) -> bool {
    layout.edges.iter().any(|e| e.from == from && e.to == to)
}

#[test]
fn linear_chain_layers_above_and_below_center() {
    let tasks = vec![t(1, vec![], vec![2]), t(2, vec![1], vec![3]), t(3, vec![2], vec![])];
    let layout = build_graph_layout(&tasks, 2);
    assert_eq!(node(&layout, 1).layer, -1);
    assert_eq!(node(&layout, 2).layer, 0);
    assert_eq!(node(&layout, 3).layer, 1);
    assert!(has_edge(&layout, 1, 2));
    assert!(has_edge(&layout, 2, 3));
    assert_eq!(layout.nodes.len(), 3);
}

#[test]
fn diamond_converges_at_deepest_layer() {
    let tasks = vec![
        t(1, vec![], vec![2, 3]),
        t(2, vec![1], vec![4]),
        t(3, vec![1], vec![4]),
        t(4, vec![2, 3], vec![]),
    ];
    let layout = build_graph_layout(&tasks, 1);
    assert_eq!(node(&layout, 1).layer, 0);
    assert_eq!(node(&layout, 2).layer, 1);
    assert_eq!(node(&layout, 3).layer, 1);
    assert_eq!(node(&layout, 4).layer, 2);
    assert!(has_edge(&layout, 1, 2));
    assert!(has_edge(&layout, 1, 3));
    assert!(has_edge(&layout, 2, 4));
    assert!(has_edge(&layout, 3, 4));
    assert_ne!(node(&layout, 2).order, node(&layout, 3).order);
}

#[test]
fn asymmetric_paths_use_longest_path_layer() {
    let tasks = vec![
        t(1, vec![], vec![2, 4]),
        t(2, vec![1], vec![3]),
        t(3, vec![2], vec![4]),
        t(4, vec![1, 3], vec![]),
    ];
    let layout = build_graph_layout(&tasks, 1);
    assert_eq!(node(&layout, 1).layer, 0);
    assert_eq!(node(&layout, 2).layer, 1);
    assert_eq!(node(&layout, 3).layer, 2);
    assert_eq!(node(&layout, 4).layer, 3);
    assert!(has_edge(&layout, 1, 4));
    assert!(has_edge(&layout, 3, 4));
}

#[test]
fn cycle_terminates_and_places_each_node_once() {
    let tasks = vec![t(1, vec![2], vec![2]), t(2, vec![1], vec![1])];
    let layout = build_graph_layout(&tasks, 1);
    assert_eq!(layout.nodes.len(), 2);
    assert_eq!(node(&layout, 1).layer, 0);
    assert_eq!(node(&layout, 2).layer, -1);
}

#[test]
fn unknown_referenced_id_is_marked_not_known() {
    let tasks = vec![t(1, vec![99], vec![])];
    let layout = build_graph_layout(&tasks, 1);
    assert!(node(&layout, 1).known);
    assert!(!node(&layout, 99).known);
    assert_eq!(node(&layout, 99).layer, -1);
    assert!(has_edge(&layout, 99, 1));
}

#[test]
fn isolated_task_is_single_node_no_edges() {
    let tasks = vec![t(1, vec![], vec![])];
    let layout = build_graph_layout(&tasks, 1);
    assert_eq!(layout.nodes.len(), 1);
    assert_eq!(node(&layout, 1).layer, 0);
    assert!(layout.edges.is_empty());
}

#[test]
fn center_comes_first_and_upstream_is_above() {
    let tasks = vec![t(1, vec![], vec![2]), t(2, vec![1], vec![3]), t(3, vec![2], vec![])];
    let layout = build_graph_layout(&tasks, 3);
    assert_eq!(layout.nodes[0].id, 3);
    for n in &layout.nodes {
        if n.id != 3 {
            assert!(n.layer <= -1);
        }
    }
}

#[test]
fn geometry_of_diamond() {
    let tasks = vec![
        t(1, vec![], vec![2, 3]),
        t(2, vec![1], vec![4]),
        t(3, vec![1], vec![4]),
        t(4, vec![2, 3], vec![]),
    ];
    let layout = build_graph_layout(&tasks, 1);
    let g = graph_geometry(&layout);
    assert_eq!(g.min_layer, 0);
    assert_eq!(g.max_layer, 2);
    assert_eq!(g.max_per_layer, 2);
    assert_eq!(g.width, 30 * 2 + 180 + 150);
    assert_eq!(g.height, 30 * 2 + 2 * 100 + 44);
}

#[test]
fn geometry_of_empty_layout() {
    let layout = GraphLayout { nodes: vec![], edges: vec![] };
    let g = graph_geometry(&layout);
    assert_eq!(g.max_per_layer, 1);
    assert_eq!(g.width, 210);
    assert_eq!(g.height, 104);
}

#[test]
fn node_position_offsets_by_layer_and_order() {
    assert_eq!(node_position(1, 2, -1), (30 + 2 * 180, 30 + 2 * 100));
}

#[test]
fn labels_and_subjects() {
    assert_eq!(node_label(7, true), "★ t7");
    assert_eq!(node_label(12, false), "t12");
    assert_eq!(truncate("abcdefghij", 4), "abcd…");
    assert_eq!(truncate("abc", 4), "abc");
    let task = t(5, vec![], vec![]);
    assert_eq!(node_subject(Some(&task)), "task 5");
    assert_eq!(node_subject(None), "(not loaded)");
}

#[test]
fn try_build_gives_the_layout_of_a_small_graph() {
    let tasks = vec![t(1, vec![], vec![2]), t(2, vec![1], vec![3]), t(3, vec![2], vec![])];
    let layout = try_build_graph_layout(&tasks, 2).expect("small graph");
    assert_eq!(node(&layout, 1).layer, -1);
    assert_eq!(node(&layout, 3).layer, 1);
    assert_eq!(layout.nodes.len(), 3);
}
