use vol_llm::workspace::{chevron_class, indent_px};
use vol_llm::workspace::{
    apply_file_read, directory_is_collapsed, file_icon, file_tree_outer_class, file_tree_panel_content_class,
    flatten_tree, open_file_tab, toggle_directory_for_click, OpenFileTab, StringSet, WorkspaceTreeNode,
};

fn dir(name: &str, path: &str, loaded: bool, children: Vec<WorkspaceTreeNode>) -> WorkspaceTreeNode {
    WorkspaceTreeNode { name: name.into(), path: path.into(), is_dir: true, loaded, load_error: false, children }
}

fn file(name: &str, path: &str) -> WorkspaceTreeNode {
    WorkspaceTreeNode {
        name: name.into(),
        path: path.into(),
        is_dir: false,
        loaded: true,
        load_error: false,
        children: Vec::new(),
    }
}

#[test]
fn desktop_sidebar_is_a_bounded_flex_column() {
    let class = file_tree_outer_class(false);
    assert!(class.contains("sm:flex"), "{class}");
    assert!(class.contains("sm:flex-col"), "{class}");
    assert!(class.contains("sm:h-full"), "{class}");
    assert!(class.contains("sm:min-h-0"), "{class}");
    assert!(!class.contains("sm:block"), "{class}");
}

#[test]
fn closed_mobile_sidebar_is_an_inline_rail() {
    let class = file_tree_outer_class(false);
    assert!(class.contains("w-10"), "{class}");
    assert!(class.contains("flex-shrink-0"), "{class}");
    assert!(!class.split_whitespace().any(|part| part == "hidden"), "{class}");
}

#[test]
fn closed_mobile_sidebar_keeps_full_tree_for_desktop_only() {
    let class = file_tree_panel_content_class(false);
    assert!(class.contains("hidden"), "{class}");
    assert!(class.contains("sm:flex"), "{class}");
}

#[test]
fn open_mobile_drawer_is_positioned_inside_main_content() {
    let class = file_tree_outer_class(true);
    assert!(class.contains("absolute"), "{class}");
    assert!(!class.split_whitespace().any(|part| part == "fixed"), "{class}");
}

#[test]
fn unloaded_empty_directory_is_visually_collapsed_by_default() {
    let node = dir("utils", "src/utils", false, Vec::new());
    let collapsed_dirs = StringSet::new();
    assert!(directory_is_collapsed(&node, &collapsed_dirs));
}

#[test]
fn loaded_directory_uses_explicit_collapsed_state() {
    let node = dir("src", "src", true, Vec::new());
    let mut collapsed_dirs = StringSet::new();
    assert!(!directory_is_collapsed(&node, &collapsed_dirs));
    collapsed_dirs.insert("src");
    assert!(directory_is_collapsed(&node, &collapsed_dirs));
}

#[test]
fn unloaded_directory_click_requests_load_without_collapsing() {
    let node = dir("utils", "src/utils", false, Vec::new());
    let mut collapsed_dirs = StringSet::new();
    assert!(toggle_directory_for_click(&node, &mut collapsed_dirs));
    assert!(!collapsed_dirs.contains("src/utils"));
}

#[test]
fn loaded_directory_click_twice_restores_collapsed_state() {
    let node = dir("src", "src", true, vec![file("a.rs", "src/a.rs")]);
    let mut collapsed_dirs = StringSet::new();
    assert!(!toggle_directory_for_click(&node, &mut collapsed_dirs));
    assert!(collapsed_dirs.contains("src"));
    assert!(toggle_directory_for_click(&node, &mut collapsed_dirs));
    assert!(!collapsed_dirs.contains("src"));
}

#[test]
fn file_icons_by_extension() {
    assert_eq!(file_icon(true, "src"), "\u{1f4c2}");
    assert_eq!(file_icon(false, "main.RS"), "\u{1f980}");
    assert_eq!(file_icon(false, "Cargo.lock"), "\u{2699}\u{fe0f}");
    assert_eq!(file_icon(false, "notes.yml"), "\u{1f4dc}");
    assert_eq!(file_icon(false, "README"), "\u{1f4c4}");
}

#[test]
fn flatten_lists_children_depth_first() {
    let root = dir(
        ".",
        ".",
        true,
        vec![dir("src", "src", true, vec![file("lib.rs", "src/lib.rs")]), file("Cargo.toml", "Cargo.toml")],
    );
    let flat = flatten_tree(&root, 0);
    assert_eq!(
        flat,
        vec![
            ("src".to_string(), true, 0),
            ("lib.rs".to_string(), false, 1),
            ("Cargo.toml".to_string(), false, 0)
        ]
    );
}

#[test]
fn opening_a_file_twice_reuses_its_tab() {
    let mut tabs: Vec<OpenFileTab> = Vec::new();
    let mut selected = None;
    assert!(open_file_tab(&mut tabs, &mut selected, "a.txt"));
    assert!(open_file_tab(&mut tabs, &mut selected, "b.txt"));
    assert_eq!(selected, Some(1));
    assert!(!open_file_tab(&mut tabs, &mut selected, "a.txt"));
    assert_eq!(selected, Some(0));
    assert_eq!(tabs.len(), 2);
    apply_file_read(&mut tabs, "b.txt", Ok("hello".to_string()));
    apply_file_read(&mut tabs, "a.txt", Err("denied".to_string()));
    apply_file_read(&mut tabs, "gone.txt", Ok("x".to_string()));
    assert_eq!(tabs[1].content.as_deref(), Some("hello"));
    assert_eq!(tabs[0].error.as_deref(), Some("denied"));
    assert_eq!(tabs[0].content, None);
}

#[test]
fn string_set_lists_its_members() {
    let mut s = StringSet::new();
    s.insert("a");
    s.insert("b");
    s.insert("a");
    s.remove("b");
    assert_eq!(s.to_vec(), vec!["a".to_string()]);
    let t = StringSet::from_strings(&vec!["x".to_string(), "x".to_string(), "y".to_string()]);
    assert_eq!(t.to_vec().len(), 2);
}

#[test]
fn chevron_turns_when_expanded_and_rows_indent() {
    assert_eq!(chevron_class(true), "w-3 h-3 flex-shrink-0 origin-center transition-transform duration-150");
    assert!(chevron_class(false).ends_with(" rotate-90"));
    assert_eq!(indent_px(0), 0);
    assert_eq!(indent_px(3), 48);
}
