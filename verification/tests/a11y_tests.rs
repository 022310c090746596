use andy::a11y::{
    empty_as_none, find_node, is_interesting, render_text, short_class, A11yNode, A11yTree,
    A11yWindow, Bounds,
};

fn node(id: i32, parent: Option<i32>, class: &str) -> A11yNode {
    A11yNode {
        id,
        parent_id: parent,
        class_name: Some(class.to_string()),
        text: None,
        content_desc: None,
        hint: None,
        checkable: false,
        checked: false,
        clickable: false,
        focused: false,
        scrollable: false,
        long_clickable: false,
        selected: false,
        password: false,
        bounds: Bounds { left: 0, top: 0, right: 10, bottom: 20 },
    }
}

fn with_text(mut n: A11yNode, text: &str) -> A11yNode {
    n.text = Some(text.to_string());
    n
}

fn with_desc(mut n: A11yNode, desc: &str) -> A11yNode {
    n.content_desc = Some(desc.to_string());
    n
}

fn tree_of(nodes: Vec<A11yNode>) -> A11yTree {
    A11yTree { windows: vec![A11yWindow { nodes }] }
}

#[test]
fn empty_tree_renders_nothing() {
    assert_eq!(render_text(&A11yTree { windows: vec![] }), "");
    assert_eq!(render_text(&tree_of(vec![])), "");
}

#[test]
fn single_text_node_renders_class_text_and_bounds() {
    let tree = tree_of(vec![with_text(node(1, None, "android.widget.TextView"), "Hello")]);
    assert_eq!(render_text(&tree), "TextView \"Hello\" (0,0,10,20)");
}

#[test]
fn uninteresting_root_gives_no_line_and_children_stay_at_its_depth() {
    let tree = tree_of(vec![
        node(1, None, "android.widget.FrameLayout"),
        with_text(node(2, Some(1), "android.widget.TextView"), "A"),
        with_text(node(3, Some(1), "android.widget.TextView"), "B"),
    ]);
    assert_eq!(render_text(&tree), "TextView \"A\" (0,0,10,20)\nTextView \"B\" (0,0,10,20)");
}

#[test]
fn children_of_an_interesting_node_are_indented_by_two_spaces() {
    let mut list = node(1, None, "androidx.recyclerview.widget.RecyclerView");
    list.scrollable = true;
    let mut row = with_text(node(2, Some(1), "android.widget.TextView"), "Row");
    row.clickable = true;
    let inner = with_text(node(3, Some(2), "android.widget.TextView"), "Inner");
    let tree = tree_of(vec![list, row, inner]);
    assert_eq!(
        render_text(&tree),
        "RecyclerView scrollable (0,0,10,20)\n  TextView \"Row\" clickable (0,0,10,20)\n    TextView \"Inner\" (0,0,10,20)"
    );
}

#[test]
fn container_classes_are_shown_as_view() {
    for class in [
        "android.view.ViewGroup",
        "android.widget.FrameLayout",
        "android.widget.LinearLayout",
        "android.widget.RelativeLayout",
        "androidx.constraintlayout.widget.ConstraintLayout",
    ] {
        let mut n = node(1, None, class);
        n.clickable = true;
        assert_eq!(render_text(&tree_of(vec![n])), "View clickable (0,0,10,20)");
    }
}

#[test]
fn node_without_class_is_shown_as_view() {
    let mut n = node(1, None, "x");
    n.class_name = None;
    n.focused = true;
    assert_eq!(render_text(&tree_of(vec![n])), "View focused (0,0,10,20)");
}

#[test]
fn button_says_only_when_it_is_not_clickable() {
    let mut clickable = with_text(node(1, None, "android.widget.Button"), "OK");
    clickable.clickable = true;
    assert_eq!(render_text(&tree_of(vec![clickable])), "Button \"OK\" (0,0,10,20)");
    let plain = with_text(node(1, None, "android.widget.Button"), "OK");
    assert_eq!(render_text(&tree_of(vec![plain])), "Button \"OK\" NOT-clickable (0,0,10,20)");
}

#[test]
fn all_parts_of_a_line_come_in_order() {
    let mut n = node(7, None, "android.widget.EditText");
    n.text = Some("line one\nline two".to_string());
    n.content_desc = Some("field".to_string());
    n.hint = Some("type\nhere".to_string());
    n.clickable = true;
    n.long_clickable = true;
    n.scrollable = true;
    n.checkable = true;
    n.checked = true;
    n.focused = true;
    n.selected = true;
    n.password = true;
    n.bounds = Bounds { left: -5, top: 0, right: 1080, bottom: 2147483647 };
    assert_eq!(
        render_text(&tree_of(vec![n])),
        "EditText \"line one\\nline two\" [field] hint=\"type\\nhere\" clickable long-clickable scrollable checkable checked focused selected password (-5,0,1080,2147483647)"
    );
}

#[test]
fn smallest_bound_is_written_out() {
    let mut n = with_text(node(1, None, "T"), "t");
    n.bounds = Bounds { left: -2147483648, top: -1, right: 10, bottom: 100 };
    assert_eq!(render_text(&tree_of(vec![n])), "T \"t\" (-2147483648,-1,10,100)");
}

#[test]
fn checked_and_password_alone_do_not_make_a_node_interesting() {
    let mut n = node(1, None, "android.widget.CheckBox");
    n.checked = true;
    n.password = true;
    assert!(!is_interesting(&n));
    assert_eq!(render_text(&tree_of(vec![n])), "");
}

#[test]
fn each_attribute_alone_makes_a_node_interesting() {
    let base = node(1, None, "V");
    assert!(!is_interesting(&base));
    assert!(is_interesting(&with_text(base.clone(), "t")));
    assert!(is_interesting(&with_desc(base.clone(), "d")));
    let mut n = base.clone();
    n.hint = Some("h".to_string());
    assert!(is_interesting(&n));
    let mut n = base.clone();
    n.clickable = true;
    assert!(is_interesting(&n));
    let mut n = base.clone();
    n.scrollable = true;
    assert!(is_interesting(&n));
    let mut n = base.clone();
    n.checkable = true;
    assert!(is_interesting(&n));
    let mut n = base.clone();
    n.long_clickable = true;
    assert!(is_interesting(&n));
    let mut n = base.clone();
    n.focused = true;
    assert!(is_interesting(&n));
    let mut n = base.clone();
    n.selected = true;
    assert!(is_interesting(&n));
}

#[test]
fn label_that_repeats_the_description_of_its_parent_gives_no_line() {
    let mut parent = with_desc(node(1, None, "android.widget.Button"), "OK");
    parent.clickable = true;
    let label = with_text(node(2, Some(1), "android.widget.TextView"), "OK");
    let tree = tree_of(vec![parent, label]);
    assert_eq!(render_text(&tree), "Button [OK] (0,0,10,20)");
}

#[test]
fn children_of_a_repeated_label_take_its_place() {
    let mut parent = with_desc(node(1, None, "android.widget.Button"), "OK");
    parent.clickable = true;
    let label = with_text(node(2, Some(1), "android.widget.TextView"), "OK");
    let below = with_text(node(3, Some(2), "android.widget.TextView"), "OK");
    let tree = tree_of(vec![parent, label, below]);
    assert_eq!(render_text(&tree), "Button [OK] (0,0,10,20)\n  TextView \"OK\" (0,0,10,20)");
}

#[test]
fn label_that_repeats_the_text_of_its_parent_gives_no_line() {
    let mut parent = with_text(node(1, None, "android.view.ViewGroup"), "Save");
    parent.clickable = true;
    let label = with_text(node(2, Some(1), "android.widget.TextView"), "Save");
    let other = with_text(node(3, Some(1), "android.widget.TextView"), "Other");
    let tree = tree_of(vec![parent, label, other]);
    assert_eq!(
        render_text(&tree),
        "View \"Save\" clickable (0,0,10,20)\n  TextView \"Other\" (0,0,10,20)"
    );
}

#[test]
fn label_with_another_attribute_is_kept_though_it_repeats() {
    let mut parent = with_desc(node(1, None, "android.widget.Button"), "OK");
    parent.clickable = true;
    let mut label = with_text(node(2, Some(1), "android.widget.TextView"), "OK");
    label.selected = true;
    let tree = tree_of(vec![parent, label]);
    assert_eq!(
        render_text(&tree),
        "Button [OK] (0,0,10,20)\n  TextView \"OK\" selected (0,0,10,20)"
    );
}

#[test]
fn labels_are_not_handed_down_past_an_uninteresting_node() {
    let mut parent = with_desc(node(1, None, "android.widget.Button"), "OK");
    parent.clickable = true;
    let spacer = node(2, Some(1), "android.widget.FrameLayout");
    let label = with_text(node(3, Some(2), "android.widget.TextView"), "OK");
    let tree = tree_of(vec![parent, spacer, label]);
    assert_eq!(render_text(&tree), "Button [OK] (0,0,10,20)\n  TextView \"OK\" (0,0,10,20)");
}

#[test]
fn last_parentless_node_is_the_root() {
    let tree = tree_of(vec![
        with_text(node(1, None, "T"), "first"),
        with_text(node(2, None, "T"), "second"),
        with_text(node(3, Some(2), "T"), "child"),
    ]);
    assert_eq!(render_text(&tree), "T \"second\" (0,0,10,20)\n  T \"child\" (0,0,10,20)");
}

#[test]
fn window_without_root_renders_nothing() {
    let tree = tree_of(vec![with_text(node(1, Some(9), "T"), "orphan")]);
    assert_eq!(render_text(&tree), "");
}

#[test]
fn windows_render_one_after_the_other() {
    let tree = A11yTree {
        windows: vec![
            A11yWindow { nodes: vec![with_text(node(1, None, "T"), "one")] },
            A11yWindow { nodes: vec![] },
            A11yWindow { nodes: vec![with_text(node(1, None, "T"), "two")] },
        ],
    };
    assert_eq!(render_text(&tree), "T \"one\" (0,0,10,20)\nT \"two\" (0,0,10,20)");
}

#[test]
fn children_come_in_the_order_of_the_dump() {
    let mut root = node(1, None, "L");
    root.scrollable = true;
    let tree = tree_of(vec![
        with_text(node(5, Some(1), "T"), "b"),
        root,
        with_text(node(3, Some(1), "T"), "a"),
    ]);
    assert_eq!(
        render_text(&tree),
        "L scrollable (0,0,10,20)\n  T \"b\" (0,0,10,20)\n  T \"a\" (0,0,10,20)"
    );
}

#[test]
fn node_that_is_its_own_parent_does_not_hang_the_renderer() {
    let mut root = node(1, None, "L");
    root.clickable = true;
    let mut looped = with_text(node(1, Some(1), "T"), "x");
    looped.clickable = true;
    let out = render_text(&tree_of(vec![looped, root]));
    assert!(out.starts_with("L clickable (0,0,10,20)\n  T \"x\" clickable (0,0,10,20)"));
}

#[test]
fn rendering_twice_gives_the_same_text() {
    let mut parent = with_desc(node(1, None, "android.widget.Button"), "OK");
    parent.clickable = true;
    let tree = tree_of(vec![
        parent,
        with_text(node(2, Some(1), "android.widget.TextView"), "OK"),
        with_text(node(3, Some(1), "android.widget.TextView"), "More"),
    ]);
    let first = render_text(&tree);
    let second = render_text(&tree);
    assert_eq!(first, second);
    assert_eq!(first.as_bytes(), second.as_bytes());
    assert_eq!(render_text(&tree.clone()), first);
}

#[test]
fn short_class_takes_the_last_segment() {
    assert_eq!(short_class(&Some("android.widget.Button".to_string())), Some("Button".to_string()));
    assert_eq!(short_class(&Some("Button".to_string())), Some("Button".to_string()));
    assert_eq!(short_class(&Some("a.b.".to_string())), Some("".to_string()));
    assert_eq!(short_class(&Some("android.widget.LinearLayout".to_string())), None);
    assert_eq!(short_class(&Some("ViewGroup".to_string())), None);
    assert_eq!(short_class(&None), None);
}

#[test]
fn empty_string_counts_as_absent() {
    assert_eq!(empty_as_none(Some(String::new())), None);
    assert_eq!(empty_as_none(Some(" ".to_string())), Some(" ".to_string()));
    assert_eq!(empty_as_none(Some("x".to_string())), Some("x".to_string()));
    assert_eq!(empty_as_none(None), None);
}

#[test]
fn find_node_matches_text_exactly() {
    let tree = tree_of(vec![
        with_text(node(1, None, "T"), "Settings"),
        with_text(node(2, Some(1), "T"), "Set"),
    ]);
    assert_eq!(find_node(&tree, "Set").map(|n| n.id), Some(2));
    assert_eq!(find_node(&tree, "Settings").map(|n| n.id), Some(1));
}

#[test]
fn find_node_matches_content_description() {
    let tree = tree_of(vec![node(1, None, "T"), with_desc(node(2, Some(1), "T"), "Back")]);
    assert_eq!(find_node(&tree, "Back").map(|n| n.id), Some(2));
}

#[test]
fn find_node_never_matches_a_part_of_a_label() {
    let tree = tree_of(vec![with_desc(with_text(node(1, None, "T"), "Settings"), "Open settings")]);
    assert!(find_node(&tree, "Sett").is_none());
    assert!(find_node(&tree, "settings").is_none());
    assert!(find_node(&tree, "Settings ").is_none());
    assert!(find_node(&tree, "").is_none());
    assert!(find_node(&tree, "Open").is_none());
}

#[test]
fn find_node_does_not_match_the_hint() {
    let mut n = node(1, None, "T");
    n.hint = Some("Search".to_string());
    assert!(find_node(&tree_of(vec![n]), "Search").is_none());
}

#[test]
fn find_node_returns_the_first_match_across_windows() {
    let tree = A11yTree {
        windows: vec![
            A11yWindow { nodes: vec![with_text(node(1, None, "T"), "other")] },
            A11yWindow {
                nodes: vec![
                    with_text(node(10, None, "T"), "x"),
                    with_desc(node(11, Some(10), "T"), "OK"),
                    with_text(node(12, Some(10), "T"), "OK"),
                ],
            },
            A11yWindow { nodes: vec![with_text(node(20, None, "T"), "OK")] },
        ],
    };
    let found = find_node(&tree, "OK").expect("a node is labelled OK");
    assert_eq!(found.id, 11);
    assert!(std::ptr::eq(found, &tree.windows[1].nodes[1]));
}

#[test]
fn find_node_in_an_empty_tree_finds_nothing() {
    assert!(find_node(&A11yTree { windows: vec![] }, "x").is_none());
    assert!(find_node(&tree_of(vec![]), "x").is_none());
}
