use rad_builder::tree::{flatten_forest, parse_forest, parse_tree_items, push_forest_literal, TreeNode};

fn labels(f: &[TreeNode]) -> Vec<String> {
    f.iter().map(|n| n.label.clone()).collect()
}

fn lines(xs: &[&str]) -> Vec<String> {
    xs.iter().map(|s| s.to_string()).collect()
}

#[test]
fn scenario_two_level_forest() {
    let forest = parse_forest(&lines(&["A", "  B", "  C", "D"]));
    assert_eq!(labels(&forest), vec!["A", "D"]);
    assert_eq!(labels(&forest[0].children), vec!["B", "C"]);
    assert!(forest[0].children[0].children.is_empty());
    assert!(forest[1].children.is_empty());
}

#[test]
fn canonical_lines_roundtrip() {
    let input = lines(&["Animals", "  Mammals", "    Dogs", "    Cats", "  Birds", "Plants"]);
    let forest = parse_forest(&input);
    let back = flatten_forest(&forest);
    assert_eq!(back, input);
}

#[test]
fn excess_indentation_is_absorbed() {
    let forest = parse_forest(&lines(&["A", "      B", "C"]));
    assert_eq!(labels(&forest), vec!["A", "C"]);
    assert_eq!(labels(&forest[0].children), vec!["B"]);
    assert_eq!(flatten_forest(&forest), lines(&["A", "  B", "C"]));
}

#[test]
fn leading_indent_on_first_line_is_absorbed() {
    let forest = parse_forest(&lines(&["  A", "    B"]));
    assert_eq!(labels(&forest), vec!["A"]);
    assert_eq!(labels(&forest[0].children), vec!["B"]);
}

#[test]
fn blank_lines_are_dropped() {
    let forest = parse_forest(&lines(&["", "A", "   ", "\t", "  B"]));
    assert_eq!(labels(&forest), vec!["A"]);
    assert_eq!(labels(&forest[0].children), vec!["B"]);
}

#[test]
fn blank_input_falls_back_to_default_hierarchy() {
    let forest = parse_tree_items(&lines(&["", "  "]));
    assert_eq!(labels(&forest), vec!["Root"]);
    assert_eq!(labels(&forest[0].children), vec!["Child"]);
}

#[test]
fn forest_literal_nests_children() {
    let forest = parse_forest(&lines(&["A", "  B", "C"]));
    let mut out = String::new();
    push_forest_literal(&mut out, &forest);
    assert_eq!(
        out,
        "vec![GenTreeNode { label: \"A\".to_string(), children: vec![GenTreeNode { label: \"B\".to_string(), children: vec![] }] }, GenTreeNode { label: \"C\".to_string(), children: vec![] }]"
    );
}

#[test]
fn labels_are_trimmed_and_escaped_in_literals() {
    let forest = parse_forest(&lines(&["say \"hi\"  "]));
    assert_eq!(labels(&forest), vec!["say \"hi\""]);
    let mut out = String::new();
    push_forest_literal(&mut out, &forest);
    assert_eq!(out, "vec![GenTreeNode { label: \"say \\\"hi\\\"\".to_string(), children: vec![] }]");
}
