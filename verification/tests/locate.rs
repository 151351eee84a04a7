use syntax_tree_view::locate::{locate, ByteRange};
use tree_sitter::{Parser, Tree};

const TEXT: &str = "{\"a\": [1, 2]}";

fn json(text: &str) -> Tree {
    let mut parser = Parser::new();
    parser.set_language(&tree_sitter_json::LANGUAGE.into()).unwrap();
    parser.parse(text, None).unwrap()
}

fn found(start: usize, end: usize) -> usize {
    locate(&json(TEXT).root_node(), ByteRange { start, end })
}

#[test]
fn the_trees_shape() {
    let tree = json(TEXT);
    let mut cursor = tree.walk();
    let expected = [
        ("document", 0, 13, 0),
        ("object", 0, 13, 1),
        ("{", 0, 1, 2),
        ("pair", 1, 12, 2),
        ("string", 1, 4, 3),
        ("\"", 1, 2, 4),
        ("string_content", 2, 3, 4),
        ("\"", 3, 4, 4),
        (":", 4, 5, 3),
        ("array", 6, 12, 3),
        ("[", 6, 7, 4),
        ("number", 7, 8, 4),
        (",", 8, 9, 4),
        ("number", 10, 11, 4),
        ("]", 11, 12, 4),
        ("}", 12, 13, 2),
    ];
    assert_eq!(tree.root_node().descendant_count(), expected.len());
    for (ix, (kind, start, end, depth)) in expected.into_iter().enumerate() {
        cursor.goto_descendant(ix);
        assert_eq!(cursor.descendant_index(), ix);
        assert_eq!(cursor.node().kind(), kind);
        assert_eq!(cursor.node().byte_range(), start..end);
        assert_eq!(cursor.depth(), depth);
    }
}

#[test]
fn a_range_within_a_leaf() {
    assert_eq!(found(10, 11), 13);
    assert_eq!(found(2, 3), 6);
}

#[test]
fn a_leaf_that_ends_at_the_start_gives_way() {
    assert_eq!(found(8, 9), 12);
    assert_eq!(found(7, 8), 11);
}

#[test]
fn an_empty_range_stays_with_the_leaf_that_ends_there() {
    assert_eq!(found(7, 7), 10);
    assert_eq!(found(5, 5), 8);
    assert_eq!(found(13, 13), 15);
}

#[test]
fn a_range_over_several_nodes_selects_their_ancestor() {
    assert_eq!(found(7, 11), 9);
    assert_eq!(found(1, 8), 3);
    assert_eq!(found(0, 13), 1);
}

#[test]
fn a_range_in_a_gap_selects_the_parent() {
    assert_eq!(found(9, 10), 9);
    assert_eq!(found(5, 6), 3);
}

#[test]
fn a_range_outside_the_tree_selects_the_root() {
    assert_eq!(found(20, 25), 0);
    assert_eq!(found(12, 40), 0);
    assert_eq!(found(usize::MAX, usize::MAX), 0);
}

#[test]
fn offsets_are_searched_in_32_bits() {
    assert_eq!(found(4294967306, 3), 13);
    assert_eq!(found(4294967306, 4294967307), 0);
}

#[test]
fn a_subtree_is_searched_from_its_root() {
    let tree = json(TEXT);
    let array = tree.root_node().descendant_for_byte_range(6, 12).unwrap();
    assert_eq!(array.kind(), "array");
    assert_eq!(locate(&array, ByteRange { start: 10, end: 11 }), 4);
    assert_eq!(locate(&array, ByteRange { start: 1, end: 2 }), 0);
}

#[test]
fn a_tree_without_children() {
    assert_eq!(locate(&json("").root_node(), ByteRange { start: 0, end: 0 }), 0);
}

/// The last node in the list of all nodes that covers the range: the deepest, where nodes nest.
fn deepest_cover(tree: &Tree, start: usize, end: usize) -> Option<usize> {
    let mut cursor = tree.walk();
    (0..tree.root_node().descendant_count())
        .filter(|ix| {
            cursor.goto_descendant(*ix);
            cursor.node().start_byte() <= start && cursor.node().end_byte() >= end
        })
        .last()
}

#[test]
fn the_deepest_node_that_covers_a_range_is_found() {
    let mut parser = Parser::new();
    parser.set_language(&tree_sitter_rust::LANGUAGE.into()).unwrap();
    let rust = "use a::b;\n\nfn f<T>(x: &T) -> u8 { if x.a() { 1 + 2 * 3 } else { g()[1] } }";
    let trees = [(json(TEXT), TEXT.len()), (parser.parse(rust, None).unwrap(), rust.len())];
    for (tree, len) in trees {
        for start in 0..len {
            for end in start + 1..=len {
                let expected = deepest_cover(&tree, start, end).unwrap();
                assert_eq!(locate(&tree.root_node(), ByteRange { start, end }), expected);
            }
        }
    }
}

#[test]
fn the_node_found_covers_an_empty_range_in_the_tree() {
    let tree = json(TEXT);
    let mut cursor = tree.walk();
    for start in 0..=TEXT.len() {
        cursor.goto_descendant(locate(&tree.root_node(), ByteRange { start, end: start }));
        assert!(cursor.node().start_byte() <= start && start <= cursor.node().end_byte());
    }
}

#[test]
fn no_node_below_the_one_found_touches_the_caret() {
    let mut parser = Parser::new();
    parser.set_language(&tree_sitter_rust::LANGUAGE.into()).unwrap();
    let rust = "use a::b;\n\nfn f<T>(x: &T) -> u8 { if x.a() { 1 + 2 * 3 } else { g()[1] } }";
    let trees = [(json(TEXT), TEXT.len()), (parser.parse(rust, None).unwrap(), rust.len())];
    for (tree, len) in trees {
        let mut cursor = tree.walk();
        for caret in 0..=len {
            let found = locate(&tree.root_node(), ByteRange { start: caret, end: caret });
            cursor.goto_descendant(found);
            let below = cursor.node().descendant_count();
            for ix in found + 1..found + below {
                cursor.goto_descendant(ix);
                let range = cursor.node().byte_range();
                assert!(range.start > caret || range.end < caret);
            }
        }
    }
}
