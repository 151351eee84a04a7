use syntax_tree_view::layer::{Language, Offset, SyntaxLayer};
use syntax_tree_view::locate::ByteRange;
use syntax_tree_view::view::{
    did_reparse, ActiveItem, BufferRange, EditorEvent, EditorSwitch, Hover, NodeSelection,
    NodeTarget, SyntaxTreeView,
};
use tree_sitter::Parser;

const TEXT: &str = "{\"a\": [1, 2]}";

fn layer(id: u64, text: &str, bytes: usize) -> SyntaxLayer {
    let mut parser = Parser::new();
    let language = if id == 1 { tree_sitter_json::LANGUAGE } else { tree_sitter_python::LANGUAGE };
    parser.set_language(&language.into()).unwrap();
    SyntaxLayer {
        language: Language { id, name: format!("language {}", id) },
        tree: parser.parse(text, None).unwrap(),
        offset: Offset { bytes, row: 0, column: 0 },
    }
}

fn at(buffer: u64, excerpt_id: u64, start: usize, end: usize) -> BufferRange {
    BufferRange { buffer, range: ByteRange { start, end }, excerpt_id }
}

fn following(editor: u64) -> SyntaxTreeView {
    let item = ActiveItem { item_id: 100, editor: Some(editor) };
    SyntaxTreeView::new(7, Some(item), 200).0
}

fn showing() -> SyntaxTreeView {
    let mut view = following(5);
    let found = view.editor_updated(true, vec![at(1, 2, 10, 11)], vec![layer(1, TEXT, 0)]);
    assert_eq!(found, Some(13));
    view
}

fn shown(view: &SyntaxTreeView) -> Option<(u64, u32)> {
    view.active_layer().map(|layer| (layer.language.id, layer.layer_place().start_byte))
}

#[test]
fn a_new_view_follows_the_active_editor() {
    let item = ActiveItem { item_id: 100, editor: Some(5) };
    let (view, switch) = SyntaxTreeView::new(7, Some(item), 200);
    assert_eq!(switch, EditorSwitch::Adopted { clear_highlights: false });
    assert_eq!(view.workspace_handle, 7);
    let state = view.editor.as_ref().unwrap();
    assert_eq!(state.editor, 5);
    assert!(state.active_buffer.is_none());
    assert_eq!(view.selected_descendant_ix, None);
    assert_eq!(view.hovered_descendant_ix, None);
}

#[test]
fn a_new_view_without_an_editor() {
    let own = ActiveItem { item_id: 200, editor: Some(5) };
    let other = ActiveItem { item_id: 100, editor: None };
    for item in [None, Some(own), Some(other)] {
        let (view, switch) = SyntaxTreeView::new(7, item, 200);
        assert_eq!(switch, EditorSwitch::Kept);
        assert!(view.editor.is_none());
    }
}

#[test]
fn an_editor_is_adopted_once() {
    let mut view = showing();
    assert_eq!(view.set_editor(5), EditorSwitch::Kept);
    assert_eq!(view.render(), Some(16));
    assert_eq!(view.set_editor(6), EditorSwitch::Adopted { clear_highlights: true });
    assert_eq!(view.render(), None);
    assert_eq!(view.selected_descendant_ix, Some(13));
    assert_eq!(view.set_editor(6), EditorSwitch::Kept);
}

#[test]
fn the_workspace_moves_the_view_on() {
    let mut view = following(5);
    assert_eq!(view.workspace_updated(None, 200), EditorSwitch::Kept);
    let same = ActiveItem { item_id: 101, editor: Some(5) };
    assert_eq!(view.workspace_updated(Some(same), 200), EditorSwitch::Kept);
    let next = ActiveItem { item_id: 102, editor: Some(9) };
    assert_eq!(
        view.workspace_updated(Some(next), 200),
        EditorSwitch::Adopted { clear_highlights: true }
    );
    assert_eq!(view.editor.as_ref().unwrap().editor, 9);
}

#[test]
fn events_that_call_for_an_update() {
    assert_eq!(did_reparse(EditorEvent::Reparsed), Some(true));
    assert_eq!(did_reparse(EditorEvent::SelectionsChanged), Some(false));
    assert_eq!(did_reparse(EditorEvent::Other), None);
}

#[test]
fn an_update_selects_the_node_under_the_cursor() {
    let view = showing();
    assert_eq!(view.selected_descendant_ix, Some(13));
    let buffer_state = view.editor.as_ref().unwrap().active_buffer.as_ref().unwrap();
    assert_eq!((buffer_state.buffer, buffer_state.excerpt_id), (1, 2));
    assert_eq!(shown(&view), Some((1, 0)));
}

#[test]
fn an_update_without_an_editor_or_a_range() {
    let (mut view, _) = SyntaxTreeView::new(7, None, 200);
    let found = view.editor_updated(true, vec![at(1, 2, 0, 0)], vec![layer(1, TEXT, 0)]);
    assert_eq!(found, None);
    assert!(view.editor.is_none());
    let mut view = following(5);
    assert_eq!(view.editor_updated(true, vec![], vec![layer(1, TEXT, 0)]), None);
    assert!(view.editor.as_ref().unwrap().active_buffer.is_none());
}

#[test]
fn the_last_range_counts() {
    let mut view = following(5);
    let ranges = vec![at(8, 9, 0, 1), at(1, 2, 10, 11)];
    assert_eq!(view.editor_updated(false, ranges, vec![layer(1, TEXT, 0)]), Some(13));
    let buffer_state = view.editor.as_ref().unwrap().active_buffer.as_ref().unwrap();
    assert_eq!((buffer_state.buffer, buffer_state.excerpt_id), (1, 2));
}

#[test]
fn a_buffer_without_layers_keeps_the_selection() {
    let mut view = showing();
    assert_eq!(view.editor_updated(false, vec![at(3, 2, 0, 1)], vec![]), None);
    assert_eq!(view.selected_descendant_ix, Some(13));
    assert_eq!(view.render(), None);
    let buffer_state = view.editor.as_ref().unwrap().active_buffer.as_ref().unwrap();
    assert_eq!((buffer_state.buffer, buffer_state.excerpt_id), (3, 2));
}

#[test]
fn the_layer_stays_within_the_excerpt() {
    let mut view = showing();
    let others = vec![layer(2, "x = 1\n", 0)];
    assert_eq!(view.editor_updated(false, vec![at(1, 2, 2, 3)], others), Some(6));
    assert_eq!(shown(&view), Some((1, 0)));
}

#[test]
fn another_excerpt_or_buffer_takes_the_first_layer() {
    for next in [at(1, 3, 0, 1), at(4, 2, 0, 1)] {
        let mut view = showing();
        let layers = vec![layer(2, "x = 1\n", 0), layer(1, TEXT, 0)];
        assert!(view.editor_updated(false, vec![next], layers).is_some());
        assert_eq!(shown(&view), Some((2, 0)));
    }
}

#[test]
fn the_same_report_again_changes_nothing() {
    let mut view = showing();
    assert_eq!(view.editor_updated(false, vec![at(1, 2, 10, 11)], vec![]), Some(13));
    assert_eq!(shown(&view), Some((1, 0)));
    assert_eq!(view.selected_descendant_ix, Some(13));
}

#[test]
fn a_reparse_finds_the_layer_again() {
    let mut view = showing();
    let layers = vec![layer(2, "x = 1\n", 0), layer(1, "[]", 40), layer(1, TEXT, 2)];
    assert_eq!(view.editor_updated(true, vec![at(1, 2, 12, 13)], layers), Some(13));
    assert_eq!(shown(&view), Some((1, 2)));
}

#[test]
fn a_reparse_that_loses_the_language() {
    let mut view = showing();
    let layers = vec![layer(2, "x = 1\n", 0)];
    assert_eq!(view.editor_updated(true, vec![at(1, 2, 12, 13)], layers), None);
    assert_eq!(view.render(), None);
    assert_eq!(view.selected_descendant_ix, Some(13));
    let layers = vec![layer(2, "x = 1\n", 0)];
    assert!(view.editor_updated(true, vec![at(1, 2, 0, 1)], layers).is_some());
    assert_eq!(shown(&view), Some((2, 0)));
}

#[test]
fn a_reparse_in_another_buffer_keeps_to_the_language() {
    let mut view = showing();
    let layers = vec![layer(2, "x = 1\n", 0), layer(1, "[]", 40)];
    assert!(view.editor_updated(true, vec![at(4, 4, 41, 42)], layers).is_some());
    assert_eq!(shown(&view), Some((1, 40)));
}

#[test]
fn a_picked_layer_is_shown_without_a_selection() {
    let mut view = showing();
    let layers = vec![layer(1, TEXT, 0), layer(2, "x = 1\n", 0)];
    assert_eq!(view.select_layer(1, layers), Some(()));
    assert_eq!(shown(&view), Some((2, 0)));
    assert_eq!(view.selected_descendant_ix, None);
    assert!(view.editor_updated(false, vec![at(1, 2, 0, 1)], vec![layer(1, TEXT, 0)]).is_some());
    assert_eq!(shown(&view), Some((2, 0)));
}

#[test]
fn a_layer_that_cannot_be_picked() {
    let mut view = showing();
    assert_eq!(view.select_layer(1, vec![layer(2, "x = 1\n", 0)]), None);
    assert_eq!(shown(&view), Some((1, 0)));
    assert_eq!(view.selected_descendant_ix, Some(13));
    let mut view = following(5);
    assert_eq!(view.select_layer(0, vec![layer(2, "x = 1\n", 0)]), None);
    let (mut view, _) = SyntaxTreeView::new(7, None, 200);
    assert_eq!(view.select_layer(0, vec![layer(2, "x = 1\n", 0)]), None);
}

#[test]
fn rows_of_the_view() {
    let view = showing();
    assert_eq!(view.render(), Some(16));
    let rows = view.render_range(view.active_layer().unwrap(), 12..15);
    let found: Vec<(usize, bool)> =
        rows.iter().map(|item| (item.descendant_ix, item.row.selected)).collect();
    assert_eq!(found, vec![(12, false), (13, true), (14, false)]);
    assert_eq!(following(5).render(), None);
}

#[test]
fn rows_of_a_list_made_before() {
    let view = showing();
    let before = layer(1, "[]", 0);
    let rows = view.render_range(&before, 0..20);
    let depths: Vec<u32> = rows.iter().map(|item| item.row.depth).collect();
    assert_eq!(depths, vec![0, 1, 2, 2]);
    assert!(rows.iter().all(|item| !item.row.selected));
}

#[test]
fn a_click_leads_back_to_the_text_of_the_node() {
    let mut view = showing();
    for ix in 0..16 {
        let selection = view.row_clicked(ix).unwrap();
        let range = vec![at(1, 2, selection.head, selection.tail)];
        let found = view.editor_updated(false, range, vec![]).unwrap();
        assert_eq!(view.selected_descendant_ix, Some(found));
        assert!(found >= ix);
        let target = view.update_editor_with_range_for_descendant_ix(found).unwrap();
        assert_eq!(target, selection.target);
    }
    let selection = view.row_clicked(0).unwrap();
    let range = vec![at(1, 2, selection.head, selection.tail)];
    assert_eq!(view.editor_updated(false, range, vec![]), Some(1));
}

#[test]
fn a_click_puts_the_cursor_at_the_beginning_of_the_node() {
    let target =
        NodeTarget { editor: 5, buffer: 1, excerpt_id: 2, range: ByteRange { start: 6, end: 12 } };
    let view = showing();
    assert_eq!(view.update_editor_with_range_for_descendant_ix(9), Some(target));
    assert_eq!(view.row_clicked(9), Some(NodeSelection { target, tail: 12, head: 6 }));
    assert_eq!(following(5).row_clicked(9), None);
}

#[test]
fn a_row_that_is_gone_stands_for_the_root() {
    let view = showing();
    let target = view.update_editor_with_range_for_descendant_ix(16).unwrap();
    assert_eq!(target.range, ByteRange { start: 0, end: 13 });
}

#[test]
fn hovering_highlights_a_node_once() {
    let mut view = showing();
    let target =
        NodeTarget { editor: 5, buffer: 1, excerpt_id: 2, range: ByteRange { start: 2, end: 3 } };
    assert_eq!(view.row_hovered(6), Hover { changed: true, highlight: Some(target) });
    assert_eq!(view.hovered_descendant_ix, Some(6));
    assert_eq!(view.row_hovered(6), Hover { changed: false, highlight: None });
    assert!(view.row_hovered(7).changed);
    let mut blank = following(5);
    assert_eq!(blank.row_hovered(0), Hover { changed: true, highlight: None });
    assert_eq!(blank.hovered_descendant_ix, Some(0));
}

#[test]
fn a_split_follows_the_same_editor() {
    let mut view = showing();
    view.row_hovered(3);
    let (clone, switch) = view.clone_on_split(300);
    assert_eq!(switch, EditorSwitch::Adopted { clear_highlights: false });
    assert_eq!(clone.workspace_handle, 7);
    assert_eq!(clone.editor.as_ref().unwrap().editor, 5);
    assert_eq!(clone.render(), None);
    assert_eq!(clone.selected_descendant_ix, None);
    assert_eq!(clone.hovered_descendant_ix, None);
    let (blank, _) = SyntaxTreeView::new(7, None, 200);
    let (clone, switch) = blank.clone_on_split(300);
    assert_eq!(switch, EditorSwitch::Kept);
    assert!(clone.editor.is_none());
}

#[test]
fn the_text_on_the_tab() {
    assert_eq!(following(5).tab_content_text(), Some(String::from("Syntax Tree")));
}

#[test]
fn an_adopted_editor_is_shown() {
    let mut view = showing();
    view.row_hovered(3);
    assert_eq!(view.set_editor(6), EditorSwitch::Adopted { clear_highlights: true });
    let layers = vec![layer(2, "x = 1\n", 0), layer(1, TEXT, 0)];
    let found = view.editor_updated(true, vec![at(8, 9, 0, 0), at(3, 4, 0, 1)], layers);
    assert!(found.is_some());
    assert_eq!(view.selected_descendant_ix, found);
    assert_eq!(shown(&view), Some((2, 0)));
    let state = view.editor.as_ref().unwrap();
    assert_eq!(state.editor, 6);
    let buffer_state = state.active_buffer.as_ref().unwrap();
    assert_eq!((buffer_state.buffer, buffer_state.excerpt_id), (3, 4));
    assert_eq!(view.hovered_descendant_ix, Some(3));

    let mut view = showing();
    view.set_editor(6);
    assert_eq!(view.editor_updated(true, vec![at(3, 4, 0, 1)], vec![]), None);
    assert_eq!(shown(&view), None);
    assert_eq!(view.selected_descendant_ix, Some(13));
}
