use regls::request::RegLsApp;
use regls::tree::{KeyNode, ValueEntry};

fn leaf(name: &str) -> KeyNode {
    KeyNode { name: name.to_owned(), subkeys: Vec::new(), values: Vec::new() }
}

/// Root with children `A` and `B`, where `A` has one child `C`.
fn sample_tree() -> KeyNode {
    let a = KeyNode { name: "A".to_owned(), subkeys: vec![leaf("C")], values: Vec::new() };
    KeyNode { name: "R".to_owned(), subkeys: vec![a, leaf("B")], values: Vec::new() }
}

#[test]
fn nonrecursive_listing_shows_immediate_children() {
    let root = sample_tree();
    assert_eq!(root.list_keys(false), vec!["A".to_owned(), "B".to_owned()]);
}

#[test]
fn recursive_listing_is_preorder_with_indentation() {
    let root = sample_tree();
    assert_eq!(
        root.list_keys(true),
        vec!["A".to_owned(), "  C".to_owned(), "B".to_owned()]
    );
}

#[test]
fn path_resolves_to_nested_node_and_leaf_lists_nothing() {
    let root = sample_tree();
    let path = vec!["A".to_owned(), "C".to_owned()];
    let node = root.find_node(&path).expect("A/C should resolve");
    assert_eq!(node.name, "C");
    assert_eq!(node.list_keys(false), Vec::<String>::new());
    assert_eq!(node.list_keys(true), Vec::<String>::new());
}

#[test]
fn missing_segment_resolves_to_not_found_and_run_emits_nothing() {
    let root = sample_tree();
    let path = vec!["A".to_owned(), "X".to_owned()];
    assert!(root.find_node(&path).is_none());
    let app = RegLsApp::new(sample_tree()).with_path(vec!["A".to_owned(), "X".to_owned()]);
    assert_eq!(app.run(), Vec::<String>::new());
}

#[test]
fn empty_path_resolves_to_start_node() {
    let root = sample_tree();
    let node = root.find_node(&Vec::new()).expect("empty path resolves");
    assert_eq!(node.name, "R");
}

#[test]
fn duplicate_child_names_resolve_to_first_match() {
    let first = KeyNode { name: "D".to_owned(), subkeys: vec![leaf("inner")], values: Vec::new() };
    let second = leaf("D");
    let root = KeyNode { name: "R".to_owned(), subkeys: vec![first, second], values: Vec::new() };
    let node = root.find_node(&vec!["D".to_owned()]).expect("D resolves");
    assert_eq!(node.subkeys.len(), 1);
    assert_eq!(node.subkeys[0].name, "inner");
}

#[test]
fn values_listing_renders_name_and_marker_in_cursor_order() {
    let a = KeyNode {
        name: "A".to_owned(),
        subkeys: Vec::new(),
        values: vec![
            ValueEntry { name: "v1".to_owned() },
            ValueEntry { name: "v2".to_owned() },
        ],
    };
    assert_eq!(a.list_values(0), vec!["v1 = ".to_owned(), "v2 = ".to_owned()]);
}

#[test]
fn values_listing_never_shows_child_keys() {
    let a = KeyNode {
        name: "A".to_owned(),
        subkeys: vec![leaf("child")],
        values: vec![ValueEntry { name: "v".to_owned() }],
    };
    assert_eq!(a.list_values(0), vec!["v = ".to_owned()]);
}

#[test]
fn values_only_run_ignores_recursive_flag() {
    let mut root = sample_tree();
    root.subkeys[0].values.push(ValueEntry { name: "v1".to_owned() });
    let with_flag = RegLsApp::new(root)
        .with_path(vec!["A".to_owned()])
        .with_print_values(true)
        .with_recursive(true);
    let mut root2 = sample_tree();
    root2.subkeys[0].values.push(ValueEntry { name: "v1".to_owned() });
    let without_flag = RegLsApp::new(root2)
        .with_path(vec!["A".to_owned()])
        .with_print_values(true)
        .with_recursive(false);
    let expected = vec!["v1 = ".to_owned()];
    assert_eq!(with_flag.run(), expected);
    assert_eq!(without_flag.run(), expected);
}

#[test]
fn nonrecursive_enumeration_pairs_children_with_depth_zero() {
    let root = sample_tree();
    assert_eq!(
        root.enumerate_keys(false),
        vec![(0, "A".to_owned()), (0, "B".to_owned())]
    );
}

#[test]
fn recursive_enumeration_tags_each_key_with_its_ancestor_count() {
    let root = sample_tree();
    assert_eq!(
        root.enumerate_keys(true),
        vec![(0, "A".to_owned()), (1, "C".to_owned()), (0, "B".to_owned())]
    );
}

#[test]
fn run_without_path_lists_from_root() {
    let app = RegLsApp::new(sample_tree()).with_recursive(true);
    assert_eq!(
        app.run(),
        vec!["A".to_owned(), "  C".to_owned(), "B".to_owned()]
    );
}

#[test]
fn values_at_depth_are_indented() {
    let a = KeyNode {
        name: "A".to_owned(),
        subkeys: Vec::new(),
        values: vec![ValueEntry { name: "v".to_owned() }],
    };
    assert_eq!(a.list_values(2), vec!["    v = ".to_owned()]);
}

#[test]
fn deep_recursion_indents_two_spaces_per_level() {
    let c = KeyNode { name: "C".to_owned(), subkeys: vec![leaf("D")], values: Vec::new() };
    let b = KeyNode { name: "B".to_owned(), subkeys: vec![c], values: Vec::new() };
    let root = KeyNode { name: "R".to_owned(), subkeys: vec![b], values: Vec::new() };
    assert_eq!(
        root.list_keys(true),
        vec!["B".to_owned(), "  C".to_owned(), "    D".to_owned()]
    );
}
