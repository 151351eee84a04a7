use syntax_tree_view::layer::{
    choose_layer, closest_place, Language, LayerPlace, Offset, SyntaxLayer,
};
use tree_sitter::Parser;

fn place(language_id: u64, start_byte: u32, end_byte: u32) -> LayerPlace {
    LayerPlace { language_id, start_byte, end_byte }
}

fn layer(id: u64, text: &str, bytes: usize, row: usize, column: usize) -> SyntaxLayer {
    let mut parser = Parser::new();
    let language = if id == 1 { tree_sitter_json::LANGUAGE } else { tree_sitter_python::LANGUAGE };
    parser.set_language(&language.into()).unwrap();
    SyntaxLayer {
        language: Language { id, name: format!("language {}", id) },
        tree: parser.parse(text, None).unwrap(),
        offset: Offset { bytes, row, column },
    }
}

#[test]
fn the_nearest_place_in_the_same_language() {
    let places = vec![place(1, 0, 100), place(2, 10, 20), place(1, 12, 22), place(1, 9, 19)];
    assert_eq!(closest_place(&places, place(1, 10, 20)), Some(3));
    assert_eq!(closest_place(&places, place(2, 90, 91)), Some(1));
    assert_eq!(closest_place(&places, place(3, 10, 20)), None);
}

#[test]
fn both_ends_count() {
    let places = vec![place(1, 10, 4294967295), place(1, 30, 40)];
    assert_eq!(closest_place(&places, place(1, 10, 20)), Some(1));
    assert_eq!(closest_place(&places, place(1, 0, 4294967295)), Some(0));
}

#[test]
fn the_first_of_equally_near_places() {
    let places = vec![place(1, 12, 20), place(1, 10, 18), place(1, 10, 22)];
    assert_eq!(closest_place(&places, place(1, 10, 20)), Some(0));
}

#[test]
fn a_place_that_stayed_is_kept() {
    let places = vec![place(1, 0, 9), place(1, 5, 7), place(1, 5, 7)];
    assert_eq!(closest_place(&places, place(1, 5, 7)), Some(1));
}

#[test]
fn no_places() {
    assert_eq!(closest_place(&vec![], place(1, 5, 7)), None);
}

#[test]
fn a_layer_is_shifted_by_its_offset() {
    let shifted = layer(1, "{\n}", 100, 3, 5);
    assert_eq!(shifted.layer_place(), place(1, 100, 103));
    assert_eq!(shifted.node().start_position(), tree_sitter::Point::new(3, 5));
    assert_eq!(shifted.node().end_position(), tree_sitter::Point::new(4, 1));
}

#[test]
fn the_first_layer_is_chosen_at_first() {
    let layers = vec![layer(2, "x = 1\n", 0, 0, 0), layer(1, "[]", 50, 1, 0)];
    assert_eq!(choose_layer(layers, None).unwrap().language.id, 2);
    assert!(choose_layer(vec![], None).is_none());
}

#[test]
fn the_nearest_layer_in_the_same_language_is_chosen_later() {
    let layers = vec![
        layer(2, "x = 1\n", 0, 0, 0),
        layer(1, "[]", 10, 1, 0),
        layer(1, "[0]", 50, 2, 0),
    ];
    let prev = layer(1, "[]", 48, 2, 0);
    let next = choose_layer(layers, Some(&prev)).unwrap();
    assert_eq!(next.layer_place(), place(1, 50, 53));
    let others = vec![layer(2, "x = 1\n", 0, 0, 0)];
    assert!(choose_layer(others, Some(&prev)).is_none());
}
