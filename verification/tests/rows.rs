use syntax_tree_view::rows::{node_labels, render_items, render_node, LabelColor, ListItem, NodeRow};
use tree_sitter::{Parser, Tree};

const TEXT: &str = "{\"a\": [1, 2]}";

fn json(text: &str) -> Tree {
    let mut parser = Parser::new();
    parser.set_language(&tree_sitter_json::LANGUAGE.into()).unwrap();
    parser.parse(text, None).unwrap()
}

fn labels(row: &NodeRow) -> Vec<(&str, Option<LabelColor>)> {
    row.labels.iter().map(|label| (label.text.as_str(), label.color)).collect()
}

fn brief(items: &[ListItem]) -> Vec<(usize, u32, bool, String)> {
    items
        .iter()
        .map(|item| {
            let texts: Vec<&str> = labels(&item.row).into_iter().map(|(text, _)| text).collect();
            (item.descendant_ix, item.row.depth, item.row.selected, texts.join(""))
        })
        .collect()
}

#[test]
fn a_named_node_in_a_field() {
    let tree = json(TEXT);
    let mut cursor = tree.walk();
    cursor.goto_descendant(9);
    let row = render_node(&cursor, 3, true);
    assert_eq!(
        labels(&row),
        vec![
            ("value", Some(LabelColor::Info)),
            (": ", None),
            ("array", Some(LabelColor::Default)),
            ("[1:7 - 1:13]", Some(LabelColor::Muted)),
        ]
    );
    assert_eq!(row.depth, 3);
    assert!(row.selected);
}

#[test]
fn a_literal_token_is_quoted() {
    let tree = json(TEXT);
    let mut cursor = tree.walk();
    cursor.goto_descendant(10);
    let row = render_node(&cursor, 17, false);
    assert_eq!(
        labels(&row),
        vec![
            ("\"[\"", Some(LabelColor::Created)),
            ("[1:7 - 1:8]", Some(LabelColor::Muted)),
        ]
    );
    assert_eq!(row.depth, 17);
    assert!(!row.selected);
}

#[test]
fn labels_from_plain_values() {
    let row = NodeRow {
        labels: node_labels(Some("left"), "+", false, String::from("here")),
        depth: 0,
        selected: false,
    };
    assert_eq!(
        labels(&row),
        vec![
            ("left", Some(LabelColor::Info)),
            (": ", None),
            ("\"+\"", Some(LabelColor::Created)),
            ("here", Some(LabelColor::Muted)),
        ]
    );
}

#[test]
fn the_whole_list() {
    let tree = json(TEXT);
    let items = render_items(&tree.root_node(), 0..16, Some(4));
    let expected: Vec<(usize, u32, bool, String)> = vec![
        (0, 0, false, String::from("document[1:1 - 1:14]")),
        (1, 1, false, String::from("object[1:1 - 1:14]")),
        (2, 2, false, String::from("\"{\"[1:1 - 1:2]")),
        (3, 2, false, String::from("pair[1:2 - 1:13]")),
        (4, 3, true, String::from("key: string[1:2 - 1:5]")),
        (5, 4, false, String::from("\"\"\"[1:2 - 1:3]")),
        (6, 4, false, String::from("string_content[1:3 - 1:4]")),
        (7, 4, false, String::from("\"\"\"[1:4 - 1:5]")),
        (8, 3, false, String::from("\":\"[1:5 - 1:6]")),
        (9, 3, false, String::from("value: array[1:7 - 1:13]")),
        (10, 4, false, String::from("\"[\"[1:7 - 1:8]")),
        (11, 4, false, String::from("number[1:8 - 1:9]")),
        (12, 4, false, String::from("\",\"[1:9 - 1:10]")),
        (13, 4, false, String::from("number[1:11 - 1:12]")),
        (14, 4, false, String::from("\"]\"[1:12 - 1:13]")),
        (15, 2, false, String::from("\"}\"[1:13 - 1:14]")),
    ];
    assert_eq!(brief(&items), expected);
}

#[test]
fn parts_join_to_the_whole_list() {
    let tree = json(TEXT);
    let whole = brief(&render_items(&tree.root_node(), 0..16, Some(9)));
    for mid in 0..=16 {
        let mut joined = brief(&render_items(&tree.root_node(), 0..mid, Some(9)));
        joined.extend(brief(&render_items(&tree.root_node(), mid..16, Some(9))));
        assert_eq!(joined, whole);
    }
}

#[test]
fn the_list_ends_with_the_tree() {
    let tree = json(TEXT);
    let items = render_items(&tree.root_node(), 13..100, None);
    let found: Vec<usize> = items.iter().map(|item| item.descendant_ix).collect();
    assert_eq!(found, vec![13, 14, 15]);
}

#[test]
fn a_start_beyond_the_tree_shows_it_from_the_root() {
    let tree = json(TEXT);
    let items = render_items(&tree.root_node(), 16..18, Some(17));
    assert_eq!(
        brief(&items),
        vec![
            (16, 0, false, String::from("document[1:1 - 1:14]")),
            (17, 1, true, String::from("object[1:1 - 1:14]")),
        ]
    );
}

#[test]
fn empty_ranges_show_nothing() {
    let tree = json(TEXT);
    let (low, high): (usize, usize) = (3, 5);
    assert!(render_items(&tree.root_node(), low..low, None).is_empty());
    assert!(render_items(&tree.root_node(), high..low, None).is_empty());
}

#[test]
fn a_deep_tree_comes_out_in_order() {
    let mut parser = Parser::new();
    parser.set_language(&tree_sitter_rust::LANGUAGE.into()).unwrap();
    let text = "/// doc\nfn f<T: A>(x: &T) -> u8 { if x.a() { 1 + 2 * 3 } else { g(&[0u8; 4])[1] } }\n";
    let tree = parser.parse(text, None).unwrap();
    let root = tree.root_node();
    let items = render_items(&root, 0..root.descendant_count(), None);
    assert_eq!(items.len(), root.descendant_count());
    let mut cursor = tree.walk();
    for (ix, item) in items.iter().enumerate() {
        cursor.goto_descendant(ix);
        assert_eq!(item.descendant_ix, ix);
        assert_eq!(item.row.depth, cursor.depth());
        let place = &item.row.labels[item.row.labels.len() - 1];
        let start = cursor.node().start_position();
        assert!(place.text.starts_with(&format!("[{}:{} - ", start.row + 1, start.column + 1)));
    }
}
