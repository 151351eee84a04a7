use syntax_tree_view::outline::Position;
use syntax_tree_view::text::{format_node_range, format_range, push_decimal};
use tree_sitter::{Parser, Tree};

fn json(text: &str) -> Tree {
    let mut parser = Parser::new();
    parser.set_language(&tree_sitter_json::LANGUAGE.into()).unwrap();
    parser.parse(text, None).unwrap()
}

#[test]
fn decimal_numbers() {
    for n in [0u64, 7, 9, 10, 11, 99, 100, 1234567890, 4294967296, u64::MAX] {
        let mut out = String::from("n=");
        push_decimal(&mut out, n);
        assert_eq!(out, format!("n={}", n));
    }
}

#[test]
fn ranges_count_from_one() {
    let start = Position { row: 0, column: 6 };
    let end = Position { row: 9, column: 99 };
    assert_eq!(format_range(start, end), "[1:7 - 10:100]");
}

#[test]
fn largest_position_is_written_out() {
    let at = Position { row: u32::MAX, column: u32::MAX };
    assert_eq!(
        format_range(at, at),
        "[4294967296:4294967296 - 4294967296:4294967296]"
    );
}

#[test]
fn range_of_a_node_over_several_rows() {
    let tree = json("\n {\n  \"a\": 1\n}\n");
    assert_eq!(format_node_range(&tree.root_node().child(0).unwrap()), "[2:2 - 4:2]");
}
