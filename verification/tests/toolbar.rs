use syntax_tree_view::layer::{Language, Offset, SyntaxLayer};
use syntax_tree_view::locate::ByteRange;
use syntax_tree_view::toolbar::{
    entry_label, render_header, PaneItem, SyntaxTreeToolbarItemView, ToolbarItemLocation,
};
use syntax_tree_view::view::{ActiveItem, BufferRange, SyntaxTreeView};
use tree_sitter::Parser;

fn json_layer(text: &str, column: usize) -> SyntaxLayer {
    let mut parser = Parser::new();
    parser.set_language(&tree_sitter_json::LANGUAGE.into()).unwrap();
    SyntaxLayer {
        language: Language { id: 1, name: String::from("JSON") },
        tree: parser.parse(text, None).unwrap(),
        offset: Offset { bytes: column, row: 0, column },
    }
}

fn showing() -> SyntaxTreeView {
    let item = ActiveItem { item_id: 100, editor: Some(5) };
    let (mut view, _) = SyntaxTreeView::new(7, Some(item), 200);
    let at = BufferRange { buffer: 1, range: ByteRange { start: 0, end: 0 }, excerpt_id: 2 };
    assert!(view.editor_updated(true, vec![at], vec![json_layer("[]", 0)]).is_some());
    view
}

fn attached() -> SyntaxTreeToolbarItemView {
    let mut item = SyntaxTreeToolbarItemView::new();
    let location = item.set_active_pane_item(Some(PaneItem { syntax_tree_view: Some(200) }));
    assert_eq!(location, ToolbarItemLocation::PrimaryLeft);
    item
}

#[test]
fn the_item_belongs_to_the_active_view() {
    let mut item = SyntaxTreeToolbarItemView::default();
    assert_eq!((item.tree_view, item.subscription), (None, None));
    let view = PaneItem { syntax_tree_view: Some(200) };
    assert_eq!(item.set_active_pane_item(Some(view)), ToolbarItemLocation::PrimaryLeft);
    assert_eq!((item.tree_view, item.subscription), (Some(200), Some(200)));
    let other = PaneItem { syntax_tree_view: None };
    assert_eq!(item.set_active_pane_item(Some(other)), ToolbarItemLocation::Hidden);
    assert_eq!((item.tree_view, item.subscription), (None, None));
    item.set_active_pane_item(Some(view));
    assert_eq!(item.set_active_pane_item(None), ToolbarItemLocation::Hidden);
    assert_eq!((item.tree_view, item.subscription), (None, None));
}

#[test]
fn the_header_names_the_layer() {
    let header = render_header(&json_layer("[0]", 4));
    assert_eq!(header.language, "JSON");
    assert_eq!(header.range, "[1:5 - 1:8]");
}

#[test]
fn the_menu_lists_the_layers() {
    let layers = vec![json_layer("[]", 0), json_layer("[0,1]", 20)];
    let menu = attached().render_menu(Some(&showing()), &layers).unwrap();
    assert_eq!(menu.id, "Syntax Tree");
    let header = menu.header.unwrap();
    assert_eq!((header.language.as_str(), header.range.as_str()), ("JSON", "[1:1 - 1:3]"));
    let entries: Vec<(&str, usize)> =
        menu.entries.iter().map(|entry| (entry.label.as_str(), entry.layer_ix)).collect();
    assert_eq!(entries, vec![("JSON [1:1 - 1:3]", 0), ("JSON [1:21 - 1:26]", 1)]);
}

#[test]
fn the_label_of_an_entry() {
    assert_eq!(entry_label("Rust", "[1:1 - 2:1]"), "Rust [1:1 - 2:1]");
}

#[test]
fn an_empty_menu() {
    let (blank, _) = SyntaxTreeView::new(7, None, 200);
    let layers = vec![json_layer("[]", 0)];
    assert!(attached().render_menu(Some(&blank), &layers).is_none());
    assert!(SyntaxTreeToolbarItemView::new().render_menu(Some(&showing()), &layers).is_none());
    assert!(attached().render_menu(None, &layers).is_none());
    for menu in [
        attached().render(None, &layers),
        attached().render(Some(&blank), &layers),
        SyntaxTreeToolbarItemView::new().render(Some(&showing()), &layers),
    ] {
        assert_eq!(menu.id, "Empty Syntax Tree");
        assert!(menu.header.is_none());
        assert!(menu.entries.is_empty());
    }
    assert_eq!(attached().render(Some(&showing()), &layers).id, "Syntax Tree");
}

#[test]
fn a_layer_is_picked_for_the_view() {
    let mut view = showing();
    let item = attached();
    let layers = vec![json_layer("[]", 0), json_layer("[0,1]", 20)];
    assert_eq!(item.select_layer(1, &mut view, layers), Some(()));
    assert_eq!(view.active_layer().unwrap().layer_place().start_byte, 20);
    assert_eq!(view.selected_descendant_ix, None);
    assert_eq!(item.select_layer(1, &mut view, vec![json_layer("[]", 0)]), None);
    let detached = SyntaxTreeToolbarItemView::new();
    assert_eq!(detached.select_layer(0, &mut view, vec![json_layer("[]", 0)]), None);
    assert_eq!(view.active_layer().unwrap().layer_place().start_byte, 20);
}
