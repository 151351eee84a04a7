//! What holds of the view whatever happens, over one call or several.
use crate::layer::{
    chosen, law_first_layer_comes_first, law_reparse_keeps_language, law_reparse_takes_nearest,
    SyntaxLayer,
};
use crate::locate::{
    descend, law_located_covers, law_located_is_deepest_at_caret, law_located_is_deepest_cover,
    law_located_is_smallest_ancestor, lemma_nested_descendant, located, nested, no_cover_passed,
    stalls,
};
use crate::rows::{items, labels_of, law_items_show_each_node, law_part_of_list};
use crate::view::{
    offered, update_for, ActiveItem, BufferRange, EditorEvent, EditorState, EditorSwitch,
    SyntaxTreeView,
};
use vstd::math::abs;
use vstd::prelude::*;

verus! {

/// Once an update has found a row, the same report again, unless of a reparse, changes nothing
/// and finds the same row, whatever layers the buffer has by then.
pub proof fn law_update_settles(
    view: SyntaxTreeView,
    did_reparse: bool,
    ranges: Seq<BufferRange>,
    layers: Seq<SyntaxLayer>,
    later_layers: Seq<SyntaxLayer>,
)
    requires
        view.updated(did_reparse, ranges, layers).1 is Some,
    ensures
        view.updated(did_reparse, ranges, layers).0.updated(false, ranges, later_layers)
            == view.updated(did_reparse, ranges, layers),
{
}

/// As long as the cursor stays in its excerpt and the text is not parsed anew, the layer stays.
pub proof fn law_moving_in_excerpt_keeps_layer(
    view: SyntaxTreeView,
    ranges: Seq<BufferRange>,
    layers: Seq<SyntaxLayer>,
)
    requires
        view.shown_layer() is Some,
        ranges.len() > 0,
        ranges.last().buffer == view.editor->0.active_buffer->0.buffer,
        ranges.last().excerpt_id == view.editor->0.active_buffer->0.excerpt_id,
    ensures
        view.updated(false, ranges, layers).0.shown_layer() == view.shown_layer(),
        view.updated(false, ranges, layers).1 is Some,
{
}

/// A layer that was picked stays until the cursor leaves the excerpt or the text is parsed anew.
pub proof fn law_picked_layer_stays(
    view: SyntaxTreeView,
    layer_ix: usize,
    layers: Seq<SyntaxLayer>,
    ranges: Seq<BufferRange>,
    later_layers: Seq<SyntaxLayer>,
)
    requires
        view.with_layer(layer_ix, layers) is Some,
        ranges.len() > 0,
        ranges.last().buffer == view.editor->0.active_buffer->0.buffer,
        ranges.last().excerpt_id == view.editor->0.active_buffer->0.excerpt_id,
    ensures
        view.with_layer(layer_ix, layers)->0.selected_descendant_ix is None,
        view.with_layer(layer_ix, layers)->0.updated(false, ranges, later_layers).0.shown_layer()
            == Some(layers[layer_ix as int]),
{
    law_moving_in_excerpt_keeps_layer(view.with_layer(layer_ix, layers)->0, ranges, later_layers);
}

/// After a reparse the view shows a layer in the language that it showed before, and none only
/// if there is none in that language.
pub proof fn law_reparse_shows_same_language(
    view: SyntaxTreeView,
    ranges: Seq<BufferRange>,
    layers: Seq<SyntaxLayer>,
)
    requires
        view.shown_layer() is Some,
        ranges.len() > 0,
    ensures
        match view.updated(true, ranges, layers).0.shown_layer() {
            Some(layer) => layers.contains(layer) && layer.language.id
                == view.shown_layer()->0.language.id,
            None => forall|i: int|
                0 <= i < layers.len() ==> (#[trigger] layers[i]).language.id
                    != view.shown_layer()->0.language.id,
        },
{
    law_reparse_keeps_language(layers, view.shown_layer()->0);
    assert(view.editor->0.buffer_before(ranges.last()).active_layer == view.shown_layer());
    assert(view.updated(true, ranges, layers).0.shown_layer() == match chosen(
        layers,
        view.shown_layer(),
    ) {
        Some(i) => Some(layers[i]),
        None => None,
    });
}

/// The row that an update finds is a row of the list and becomes the selected one, the only one
/// marked in the list. Its node covers the range that was reported, unless it is the root.
pub proof fn law_update_selects_row(
    view: SyntaxTreeView,
    did_reparse: bool,
    ranges: Seq<BufferRange>,
    layers: Seq<SyntaxLayer>,
    k: int,
)
    requires
        view.updated(did_reparse, ranges, layers).1 is Some,
        view.updated(did_reparse, ranges, layers).0.shown_layer()->0.outline().wf(),
        0 <= k < view.updated(did_reparse, ranges, layers).0.shown_layer()->0.outline().len(),
    ensures
        ({
            let (after, found) = view.updated(did_reparse, ranges, layers);
            let o = after.shown_layer()->0.outline();
            let ix = found->0;
            let range = ranges.last().range;
            &&& after.shown_layer() is Some
            &&& 0 <= ix < o.len()
            &&& after.selected_descendant_ix == Some(ix as usize)
            &&& (o.rows[ix].node.start_byte <= range.start && range.end
                <= o.rows[ix].node.end_byte) || ix == 0
            &&& items(
                o,
                0,
                o.len() as usize,
                after.selected_descendant_ix,
            )[k].row.selected <==> k == ix
        }),
{
    let (after, found) = view.updated(did_reparse, ranges, layers);
    let o = after.shown_layer()->0.outline();
    law_located_covers(o, ranges.last().range);
    law_items_show_each_node(o, 0, o.len() as usize, after.selected_descendant_ix, k);
}

/// An update that finds no row leaves the selection as it was.
pub proof fn law_failed_update_keeps_selection(
    view: SyntaxTreeView,
    did_reparse: bool,
    ranges: Seq<BufferRange>,
    layers: Seq<SyntaxLayer>,
)
    requires
        view.updated(did_reparse, ranges, layers).1 is None,
    ensures
        view.updated(did_reparse, ranges, layers).0.selected_descendant_ix
            == view.selected_descendant_ix,
{
}

/// No update changes which editor the view follows, its workspace, or the hovered row.
pub proof fn law_update_keeps_editor(
    view: SyntaxTreeView,
    did_reparse: bool,
    ranges: Seq<BufferRange>,
    layers: Seq<SyntaxLayer>,
    editor: u64,
)
    ensures
        view.updated(did_reparse, ranges, layers).0.follows(editor) == view.follows(editor),
        view.updated(did_reparse, ranges, layers).0.workspace_handle == view.workspace_handle,
        view.updated(did_reparse, ranges, layers).0.hovered_descendant_ix
            == view.hovered_descendant_ix,
{
}

/// A row shows the node whose text a click on it selects.
pub proof fn law_row_and_target_agree(view: SyntaxTreeView, ix: usize)
    requires
        view.shown_layer() is Some,
        view.shown_layer()->0.outline().wf(),
        ix < view.shown_layer()->0.outline().len(),
    ensures
        ({
            let o = view.shown_layer()->0.outline();
            let shown = items(o, 0, o.len() as usize, view.selected_descendant_ix)[ix as int];
            &&& shown.descendant_ix == ix
            &&& shown.row.labels == labels_of(o.rows[ix as int])
            &&& view.target(ix) matches Some(target) && target.range.start
                == o.rows[ix as int].node.start_byte && target.range.end
                == o.rows[ix as int].node.end_byte
        }),
{
    let o = view.shown_layer()->0.outline();
    law_items_show_each_node(o, 0, o.len() as usize, view.selected_descendant_ix, ix as int);
    assert((ix as u32) as int == ix);
}

/// A click on the row of a node that has a text leads back to that text: once the editor reports
/// the selection, the selected node has just that text, and is the node clicked or lies below it.
/// This holds in a tree whose nodes nest, and in which a search for the start of the text neither
/// passes by a node that covers the text nor stalls.
pub proof fn law_click_selects_same_text(
    view: SyntaxTreeView,
    ix: usize,
    ranges: Seq<BufferRange>,
    layers: Seq<SyntaxLayer>,
)
    requires
        view.shown_layer() is Some,
        view.shown_layer()->0.outline().wf(),
        nested(view.shown_layer()->0.outline()),
        ix < view.shown_layer()->0.outline().len(),
        ranges.len() > 0,
        ({
            let o = view.shown_layer()->0.outline();
            let selection = view.clicked(ix)->0;
            let at = ranges.last();
            &&& at.buffer == selection.target.buffer
            &&& at.excerpt_id == selection.target.excerpt_id
            &&& at.range.start == selection.head
            &&& at.range.end == selection.tail
            &&& at.range.nonempty()
            &&& no_cover_passed(o, at.range)
            &&& !stalls(o, at.range)
        }),
    ensures
        ({
            let o = view.shown_layer()->0.outline();
            let after = view.updated(false, ranges, layers).0;
            let clicked = o.rows[ix as int].node;
            &&& after.shown_layer() == view.shown_layer()
            &&& after.selected_descendant_ix matches Some(j) && {
                &&& j < o.len()
                &&& o.is_ancestor_or_self(ix as int, j as int)
                &&& o.rows[j as int].node.start_byte == clicked.start_byte
                &&& o.rows[j as int].node.end_byte == clicked.end_byte
            }
        }),
{
    let o = view.shown_layer()->0.outline();
    let range = ranges.last().range;
    law_row_and_target_agree(view, ix);
    law_moving_in_excerpt_keeps_layer(view, ranges, layers);
    law_located_covers(o, range);
    assert(o.covers(ix as int, range.start, range.end));
    law_located_is_deepest_cover(o, range, ix as int);
    lemma_nested_descendant(o, ix as int, located(o, range));
}

/// An editor that the view follows already is not adopted again, and a new one is shown without
/// a layer at first.
pub proof fn law_editor_adopted_once(view: SyntaxTreeView, editor: u64)
    ensures
        view.with_editor(editor).follows(editor),
        view.with_editor(editor).switch_to(editor) == EditorSwitch::Kept,
        view.with_editor(editor).with_editor(editor) == view.with_editor(editor),
        !view.follows(editor) ==> view.with_editor(editor).shown_layer() is None,
{
}

/// Following another editor and then reporting its state, as the switch asks for, brings the view
/// up to date: it shows the first layer of the buffer that the last range lies in, if there is
/// one, and selects the node for that range in it. Without a layer nothing is shown and the
/// selection stays; without a range the view has not seen a buffer yet.
pub proof fn law_adopted_editor_is_shown(
    view: SyntaxTreeView,
    editor: u64,
    ranges: Seq<BufferRange>,
    layers: Seq<SyntaxLayer>,
)
    requires
        !view.follows(editor),
    ensures
        view.switch_to(editor) is Adopted,
        ({
            let (after, scroll_to) = view.with_editor(editor).updated(true, ranges, layers);
            let at = ranges.last();
            &&& after.follows(editor)
            &&& after.workspace_handle == view.workspace_handle
            &&& after.hovered_descendant_ix == view.hovered_descendant_ix
            &&& ranges.len() == 0 ==> after == view.with_editor(editor) && scroll_to is None
                && after.editor->0.active_buffer is None && after.selected_descendant_ix
                == view.selected_descendant_ix
            &&& ranges.len() > 0 ==> {
                &&& after.editor->0.active_buffer matches Some(state) && state.buffer == at.buffer
                    && state.excerpt_id == at.excerpt_id
                &&& layers.len() > 0 ==> {
                    let ix = located(layers[0].outline(), at.range);
                    &&& after.shown_layer() == Some(layers[0])
                    &&& scroll_to == Some(ix)
                    &&& after.selected_descendant_ix == Some(ix as usize)
                }
                &&& layers.len() == 0 ==> after.shown_layer() is None && scroll_to is None
                    && after.selected_descendant_ix == view.selected_descendant_ix
            }
        }),
{
}

/// Moving the mouse on within a row changes nothing more.
pub proof fn law_hover_settles(view: SyntaxTreeView, ix: usize)
    ensures
        view.hovered(ix).0.hovered(ix).0 == view.hovered(ix).0,
        !view.hovered(ix).0.hovered(ix).1.changed,
        view.hovered(ix).0.hovered(ix).1.highlight is None,
{
}

/// The row that an update finds, and selects, depends on nothing but the tree that is shown
/// afterwards and the last range: not on the row that was selected or hovered before, on the
/// layers to choose from, or on whether the text was parsed anew.
pub proof fn law_row_depends_on_tree_and_range(
    view: SyntaxTreeView,
    did_reparse: bool,
    ranges: Seq<BufferRange>,
    layers: Seq<SyntaxLayer>,
    other_view: SyntaxTreeView,
    other_did_reparse: bool,
    other_ranges: Seq<BufferRange>,
    other_layers: Seq<SyntaxLayer>,
)
    requires
        view.updated(did_reparse, ranges, layers).1 is Some,
        other_view.updated(other_did_reparse, other_ranges, other_layers).1 is Some,
        view.updated(did_reparse, ranges, layers).0.shown_layer()->0.outline()
            == other_view.updated(
            other_did_reparse,
            other_ranges,
            other_layers,
        ).0.shown_layer()->0.outline(),
        ranges.last().range == other_ranges.last().range,
    ensures
        ({
            let (after, found) = view.updated(did_reparse, ranges, layers);
            let (other_after, other_found) = other_view.updated(
                other_did_reparse,
                other_ranges,
                other_layers,
            );
            &&& found == other_found
            &&& after.selected_descendant_ix == other_after.selected_descendant_ix
            &&& after.selected_descendant_ix == Some(found->0 as usize)
        }),
{
}

/// Whatever was selected before, the caret is in none of the nodes below the one that an update
/// selects, as long as nodes nest and a search for the caret passes by no node that it touches.
pub proof fn law_update_selects_deepest_at_caret(
    view: SyntaxTreeView,
    did_reparse: bool,
    ranges: Seq<BufferRange>,
    layers: Seq<SyntaxLayer>,
    i: int,
)
    requires
        view.updated(did_reparse, ranges, layers).1 is Some,
        ranges.last().range.start == ranges.last().range.end,
        ({
            let (after, found) = view.updated(did_reparse, ranges, layers);
            let o = after.shown_layer()->0.outline();
            &&& o.wf()
            &&& nested(o)
            &&& no_cover_passed(o, ranges.last().range)
            &&& 0 <= i < o.len()
            &&& i != found->0
            &&& o.is_ancestor_or_self(found->0, i)
        }),
    ensures
        ({
            let o = view.updated(did_reparse, ranges, layers).0.shown_layer()->0.outline();
            let caret = ranges.last().range.start;
            caret < o.rows[i].node.start_byte || o.rows[i].node.end_byte < caret
        }),
{
    let o = view.updated(did_reparse, ranges, layers).0.shown_layer()->0.outline();
    law_located_is_deepest_at_caret(o, ranges.last().range, i);
}

/// Whatever was selected before, the node that an update selects for a range of at least one byte
/// covers that range, and all others that do are its ancestors, as long as nodes nest and a search
/// for the start of the range neither passes by a node that covers it nor stalls.
pub proof fn law_update_selects_deepest_cover(
    view: SyntaxTreeView,
    did_reparse: bool,
    ranges: Seq<BufferRange>,
    layers: Seq<SyntaxLayer>,
    i: int,
)
    requires
        view.updated(did_reparse, ranges, layers).1 is Some,
        ranges.last().range.start < ranges.last().range.end,
        ({
            let o = view.updated(did_reparse, ranges, layers).0.shown_layer()->0.outline();
            let range = ranges.last().range;
            &&& o.wf()
            &&& nested(o)
            &&& no_cover_passed(o, range)
            &&& !stalls(o, range)
            &&& 0 <= i < o.len()
            &&& o.rows[i].node.start_byte <= range.start
            &&& range.end <= o.rows[i].node.end_byte
        }),
    ensures
        ({
            let (after, found) = view.updated(did_reparse, ranges, layers);
            let o = after.shown_layer()->0.outline();
            let range = ranges.last().range;
            &&& o.is_ancestor_or_self(i, found->0)
            &&& o.rows[found->0].node.start_byte <= range.start
            &&& range.end <= o.rows[found->0].node.end_byte
        }),
{
    let o = view.updated(did_reparse, ranges, layers).0.shown_layer()->0.outline();
    law_located_is_deepest_cover(o, ranges.last().range, i);
}

/// In any tree, the node that an update selects lies on the way down to the start of the range,
/// and is the smallest on that way that covers the range: each other that does is an ancestor of
/// it. Where none on the way does, the root is selected.
pub proof fn law_update_selects_smallest_on_way(
    view: SyntaxTreeView,
    did_reparse: bool,
    ranges: Seq<BufferRange>,
    layers: Seq<SyntaxLayer>,
    a: int,
)
    requires
        view.updated(did_reparse, ranges, layers).1 is Some,
        ({
            let o = view.updated(did_reparse, ranges, layers).0.shown_layer()->0.outline();
            &&& o.wf()
            &&& 0 <= a < o.len()
            &&& o.is_ancestor_or_self(a, descend(o, 0, ranges.last().range))
        }),
    ensures
        ({
            let (after, found) = view.updated(did_reparse, ranges, layers);
            let o = after.shown_layer()->0.outline();
            let range = ranges.last().range;
            let node = o.rows[found->0].node;
            &&& o.is_ancestor_or_self(found->0, descend(o, 0, range))
            &&& (node.start_byte <= range.start && range.end <= node.end_byte) || found->0 == 0
            &&& o.rows[a].node.start_byte <= range.start && range.end <= o.rows[a].node.end_byte
                ==> o.is_ancestor_or_self(a, found->0) && node.start_byte <= range.start
                && range.end <= node.end_byte
        }),
{
    let o = view.updated(did_reparse, ranges, layers).0.shown_layer()->0.outline();
    law_located_covers(o, ranges.last().range);
    law_located_is_smallest_ancestor(o, ranges.last().range, a);
}

/// Only the last of the reported ranges counts.
pub proof fn law_only_last_range_counts(
    view: SyntaxTreeView,
    did_reparse: bool,
    ranges: Seq<BufferRange>,
    other_ranges: Seq<BufferRange>,
    layers: Seq<SyntaxLayer>,
)
    requires
        ranges.len() > 0,
        other_ranges.len() > 0,
        ranges.last() == other_ranges.last(),
    ensures
        view.updated(did_reparse, ranges, layers) == view.updated(
            did_reparse,
            other_ranges,
            layers,
        ),
{
}

/// Without an editor to follow, or without a range, an update changes nothing and finds no row.
pub proof fn law_update_needs_editor_and_range(
    view: SyntaxTreeView,
    did_reparse: bool,
    ranges: Seq<BufferRange>,
    layers: Seq<SyntaxLayer>,
)
    requires
        view.editor is None || ranges.len() == 0,
    ensures
        view.updated(did_reparse, ranges, layers).0 == view,
        view.updated(did_reparse, ranges, layers).1 is None,
{
}

/// With an editor and a range, an update leaves the view in the buffer and the excerpt of the
/// last range, with the same editor. It finds a row just where a layer is shown then, and the row
/// selected changes only to the one found.
pub proof fn law_update_moves_to_last_range(
    view: SyntaxTreeView,
    did_reparse: bool,
    ranges: Seq<BufferRange>,
    layers: Seq<SyntaxLayer>,
)
    requires
        view.editor is Some,
        ranges.len() > 0,
    ensures
        ({
            let (after, found) = view.updated(did_reparse, ranges, layers);
            &&& after.editor is Some
            &&& after.editor->0.editor == view.editor->0.editor
            &&& after.editor->0.active_buffer is Some
            &&& after.editor->0.active_buffer->0.buffer == ranges.last().buffer
            &&& after.editor->0.active_buffer->0.excerpt_id == ranges.last().excerpt_id
            &&& after.workspace_handle == view.workspace_handle
            &&& after.hovered_descendant_ix == view.hovered_descendant_ix
            &&& found is Some <==> after.editor->0.active_buffer->0.active_layer is Some
            &&& found is Some ==> after.selected_descendant_ix == Some(found->0 as usize)
            &&& found is None ==> after.selected_descendant_ix == view.selected_descendant_ix
        }),
{
}

/// Once the cursor is in another buffer or in another excerpt, or in both, the view shows the
/// first of the layers there, or none where there are none, and nothing of what it showed before.
pub proof fn law_leaving_excerpt_shows_first_layer(
    view: SyntaxTreeView,
    ranges: Seq<BufferRange>,
    layers: Seq<SyntaxLayer>,
)
    requires
        view.editor is Some,
        view.editor->0.active_buffer is Some,
        ranges.len() > 0,
        ranges.last().buffer != view.editor->0.active_buffer->0.buffer
            || ranges.last().excerpt_id != view.editor->0.active_buffer->0.excerpt_id,
    ensures
        ({
            let (after, found) = view.updated(false, ranges, layers);
            &&& layers.len() > 0 ==> after.editor->0.active_buffer->0.active_layer == Some(
                layers[0],
            ) && found is Some
            &&& layers.len() == 0 ==> after.editor->0.active_buffer->0.active_layer is None
                && found is None
        }),
{
    law_first_layer_comes_first(layers);
}

/// Where no layer is shown, an update shows the first, if there is one.
pub proof fn law_without_layer_shows_first(
    view: SyntaxTreeView,
    did_reparse: bool,
    ranges: Seq<BufferRange>,
    layers: Seq<SyntaxLayer>,
)
    requires
        view.editor is Some,
        view.editor->0.active_buffer is None
            || view.editor->0.active_buffer->0.active_layer is None,
        ranges.len() > 0,
    ensures
        ({
            let after = view.updated(did_reparse, ranges, layers).0;
            &&& layers.len() > 0 ==> after.editor->0.active_buffer->0.active_layer == Some(
                layers[0],
            )
            &&& layers.len() == 0 ==> after.editor->0.active_buffer->0.active_layer is None
        }),
{
    law_first_layer_comes_first(layers);
}

/// After a reparse, wherever the cursor is by then, the view shows a layer in the language that
/// it showed, and of those in that language none has a root that starts and ends nearer to where
/// the root of the old layer did. Of those equally near it shows the first.
pub proof fn law_reparse_shows_nearest(
    view: SyntaxTreeView,
    ranges: Seq<BufferRange>,
    layers: Seq<SyntaxLayer>,
    j: int,
)
    requires
        view.editor is Some,
        view.editor->0.active_buffer is Some,
        view.editor->0.active_buffer->0.active_layer is Some,
        ranges.len() > 0,
        0 <= j < layers.len(),
        layers[j].language.id == view.editor->0.active_buffer->0.active_layer->0.language.id,
    ensures
        ({
            let prev = view.editor->0.active_buffer->0.active_layer->0;
            let after = view.updated(true, ranges, layers).0;
            let root = prev.outline().rows[0].node;
            let other = layers[j].outline().rows[0].node;
            let far = abs(other.start_byte - root.start_byte) + abs(
                other.end_byte - root.end_byte,
            );
            exists|k: int|
                0 <= k < layers.len() && {
                    let taken = (#[trigger] layers[k]).outline().rows[0].node;
                    let near = abs(taken.start_byte - root.start_byte) + abs(
                        taken.end_byte - root.end_byte,
                    );
                    &&& after.editor->0.active_buffer->0.active_layer == Some(layers[k])
                    &&& layers[k].language.id == prev.language.id
                    &&& near <= far
                    &&& j < k ==> near < far
                }
        }),
{
    let prev = view.editor->0.active_buffer->0.active_layer->0;
    law_reparse_takes_nearest(layers, prev, j);
    let k = chosen(layers, Some(prev))->0;
    assert(view.updated(true, ranges, layers).0.editor->0.active_buffer->0.active_layer == Some(
        layers[k],
    ));
}

/// The layer that is shown is the active one of the active buffer of the editor.
pub proof fn law_shown_layer_is_active(view: SyntaxTreeView, layer: SyntaxLayer)
    ensures
        view.shown_layer() == Some(layer) <==> {
            &&& view.editor is Some
            &&& view.editor->0.active_buffer is Some
            &&& view.editor->0.active_buffer->0.active_layer == Some(layer)
        },
{
}

/// The text for a row is that of the node with its index, from the byte at which the node starts
/// to the byte at which it ends, in the editor, the buffer and the excerpt of the view. Beyond
/// the last row it is that of the root. There is none just where no layer is shown.
pub proof fn law_target_is_node_text(view: SyntaxTreeView, ix: usize)
    ensures
        view.shown_layer() is None ==> view.target(ix) is None,
        view.shown_layer() matches Some(layer) ==> {
            let o = layer.outline();
            let node = if (ix as u32) < o.rows.len() {
                o.rows[(ix as u32) as int].node
            } else {
                o.rows[0].node
            };
            &&& view.target(ix) is Some
            &&& view.target(ix)->0.editor == view.editor->0.editor
            &&& view.target(ix)->0.buffer == view.editor->0.active_buffer->0.buffer
            &&& view.target(ix)->0.excerpt_id == view.editor->0.active_buffer->0.excerpt_id
            &&& view.target(ix)->0.range.start == node.start_byte
            &&& view.target(ix)->0.range.end == node.end_byte
        },
{
}

/// A click on any row of the layer that is shown selects the text of its node, backwards: the
/// cursor is put at the byte at which the node starts, and the other end of the selection at the
/// byte at which it ends.
pub proof fn law_click_puts_cursor_at_start(view: SyntaxTreeView, ix: usize)
    requires
        view.shown_layer() is Some,
        view.shown_layer()->0.outline().wf(),
        ix < view.shown_layer()->0.outline().rows.len(),
    ensures
        ({
            let node = view.shown_layer()->0.outline().rows[ix as int].node;
            &&& view.clicked(ix) is Some
            &&& view.clicked(ix)->0.head == node.start_byte
            &&& view.clicked(ix)->0.tail == node.end_byte
            &&& view.clicked(ix)->0.target.range.start == node.start_byte
            &&& view.clicked(ix)->0.target.range.end == node.end_byte
            &&& view.clicked(ix)->0.target.editor == view.editor->0.editor
            &&& view.clicked(ix)->0.target.buffer == view.editor->0.active_buffer->0.buffer
            &&& view.clicked(ix)->0.target.excerpt_id
                == view.editor->0.active_buffer->0.excerpt_id
        }),
{
    assert((ix as u32) as int == ix);
}

/// In any view and for any row, even one beyond the list, a click selects something just where
/// there is a text for the row, and then that text, with the cursor at its start.
pub proof fn law_click_selects_target(view: SyntaxTreeView, ix: usize)
    ensures
        view.clicked(ix) is Some <==> view.target(ix) is Some,
        view.clicked(ix) is Some ==> {
            &&& view.clicked(ix)->0.target == view.target(ix)->0
            &&& view.clicked(ix)->0.head == view.target(ix)->0.range.start
            &&& view.clicked(ix)->0.tail == view.target(ix)->0.range.end
        },
{
}

/// What a row stands for, and what a click on it selects, does not depend on which row the mouse
/// is over or which is selected.
pub proof fn law_click_ignores_hover_and_selection(
    view: SyntaxTreeView,
    other: SyntaxTreeView,
    ix: usize,
)
    requires
        view.editor == other.editor,
    ensures
        view.target(ix) == other.target(ix),
        view.clicked(ix) == other.clicked(ix),
{
}

/// Moving the mouse to another row makes that the hovered one and changes nothing else in the
/// view. The view is drawn again, and the text of the node is to be highlighted, whatever is
/// selected and whatever row the mouse was over.
pub proof fn law_hover_highlights_node(view: SyntaxTreeView, ix: usize)
    requires
        view.hovered_descendant_ix != Some(ix),
    ensures
        ({
            let (after, hover) = view.hovered(ix);
            &&& after.hovered_descendant_ix == Some(ix)
            &&& after.selected_descendant_ix == view.selected_descendant_ix
            &&& after.editor == view.editor
            &&& after.workspace_handle == view.workspace_handle
            &&& hover.changed
            &&& hover.highlight == view.target(ix)
        }),
        view.shown_layer() is None ==> view.hovered(ix).1.highlight is None,
        view.shown_layer() is Some && view.shown_layer()->0.outline().wf() && ix
            < view.shown_layer()->0.outline().rows.len() ==> {
            let node = view.shown_layer()->0.outline().rows[ix as int].node;
            &&& view.hovered(ix).1.highlight is Some
            &&& view.hovered(ix).1.highlight->0.range.start == node.start_byte
            &&& view.hovered(ix).1.highlight->0.range.end == node.end_byte
        },
{
}

/// Where the mouse is over the same row still, nothing changes and nothing is highlighted anew.
pub proof fn law_hover_on_same_row_changes_nothing(view: SyntaxTreeView, ix: usize)
    requires
        view.hovered_descendant_ix == Some(ix),
    ensures
        view.hovered(ix).0 == view,
        !view.hovered(ix).1.changed,
        view.hovered(ix).1.highlight is None,
{
}

/// Moving the mouse shows the text that a click then selects.
pub proof fn law_hover_shows_what_click_selects(view: SyntaxTreeView, ix: usize)
    requires
        view.hovered(ix).1.highlight is Some,
    ensures
        view.hovered(ix).0.clicked(ix) is Some,
        view.hovered(ix).0.clicked(ix)->0.target == view.hovered(ix).1.highlight->0,
{
}

/// A layer can be picked just where the view has seen a buffer and the buffer has a layer with
/// that index. That layer is shown then, in the same place of the same editor, with no row
/// selected.
pub proof fn law_picking_shows_that_layer(
    view: SyntaxTreeView,
    layer_ix: usize,
    layers: Seq<SyntaxLayer>,
)
    ensures
        view.with_layer(layer_ix, layers) is Some <==> {
            &&& view.editor is Some
            &&& view.editor->0.active_buffer is Some
            &&& layer_ix < layers.len()
        },
        view.with_layer(layer_ix, layers) matches Some(after) ==> {
            &&& after.editor is Some
            &&& after.editor->0.editor == view.editor->0.editor
            &&& after.editor->0.active_buffer is Some
            &&& after.editor->0.active_buffer->0.buffer == view.editor->0.active_buffer->0.buffer
            &&& after.editor->0.active_buffer->0.excerpt_id
                == view.editor->0.active_buffer->0.excerpt_id
            &&& after.editor->0.active_buffer->0.active_layer == Some(layers[layer_ix as int])
            &&& after.selected_descendant_ix is None
            &&& after.hovered_descendant_ix == view.hovered_descendant_ix
            &&& after.workspace_handle == view.workspace_handle
        },
{
}

/// The layer that was picked last is the one shown, whatever was picked before it.
pub proof fn law_last_pick_counts(
    view: SyntaxTreeView,
    earlier_ix: usize,
    layer_ix: usize,
    layers: Seq<SyntaxLayer>,
)
    requires
        view.with_layer(earlier_ix, layers) is Some,
    ensures
        view.with_layer(earlier_ix, layers)->0.with_layer(layer_ix, layers) == view.with_layer(
            layer_ix,
            layers,
        ),
{
}

/// A view that is offered the editor it follows stays as it is. One that is offered another
/// follows that one, has seen nothing of its buffers, and keeps the rest. Highlights are to be
/// cleared just where it followed some editor before.
pub proof fn law_offered_editor_is_followed(view: SyntaxTreeView, editor: u64)
    ensures
        view.editor is Some && view.editor->0.editor == editor ==> {
            &&& view.with_editor(editor) == view
            &&& view.switch_to(editor) == EditorSwitch::Kept
        },
        view.editor is None || view.editor->0.editor != editor ==> {
            let after = view.with_editor(editor);
            &&& after.editor is Some
            &&& after.editor->0.editor == editor
            &&& after.editor->0.active_buffer is None
            &&& after.workspace_handle == view.workspace_handle
            &&& after.selected_descendant_ix == view.selected_descendant_ix
            &&& after.hovered_descendant_ix == view.hovered_descendant_ix
            &&& view.switch_to(editor) == EditorSwitch::Adopted {
                clear_highlights: view.editor is Some,
            }
        },
        view.follows(editor) <==> view.editor is Some && view.editor->0.editor == editor,
{
}

/// An active item that is the view itself, or that is no editor, changes nothing, and neither
/// does having none. Any other is offered to the view as the editor that it is.
pub proof fn law_active_item_is_offered(
    view: SyntaxTreeView,
    active_item: Option<ActiveItem>,
    entity_id: u64,
)
    ensures
        ({
            let (after, switch) = view.noticed(active_item, entity_id);
            let ignored = active_item is None || active_item->0.item_id == entity_id
                || active_item->0.editor is None;
            &&& ignored ==> after == view && switch == EditorSwitch::Kept
            &&& !ignored ==> after == view.with_editor(active_item->0.editor->0) && switch
                == view.switch_to(active_item->0.editor->0)
            &&& offered(active_item, entity_id) is None <==> ignored
        }),
{
}

/// A new view belongs to its workspace, has no row selected or hovered, and follows the active
/// item if that is an editor and not the view itself. It has no highlights to clear.
pub proof fn law_new_view_follows_active_item(
    workspace_handle: u64,
    active_item: Option<ActiveItem>,
    entity_id: u64,
)
    ensures
        ({
            let (after, switch) = SyntaxTreeView::blank(workspace_handle).noticed(
                active_item,
                entity_id,
            );
            let follows = active_item is Some && active_item->0.item_id != entity_id
                && active_item->0.editor is Some;
            &&& after.workspace_handle == workspace_handle
            &&& after.selected_descendant_ix is None
            &&& after.hovered_descendant_ix is None
            &&& !follows ==> after.editor is None && switch == EditorSwitch::Kept
            &&& follows ==> after.editor == Some(
                EditorState { editor: active_item->0.editor->0, active_buffer: None },
            ) && switch == EditorSwitch::Adopted { clear_highlights: false }
        }),
{
}

/// A second view next to another belongs to the same workspace and follows the same editor, if
/// any, but has seen nothing of it yet, and has no row selected or hovered.
pub proof fn law_split_follows_same_editor(view: SyntaxTreeView)
    ensures
        ({
            let (after, switch) = view.split();
            &&& after.workspace_handle == view.workspace_handle
            &&& after.selected_descendant_ix is None
            &&& after.hovered_descendant_ix is None
            &&& view.editor is None ==> after.editor is None && switch == EditorSwitch::Kept
            &&& view.editor is Some ==> {
                &&& after.editor is Some
                &&& after.editor->0.editor == view.editor->0.editor
                &&& after.editor->0.active_buffer is None
                &&& switch == EditorSwitch::Adopted { clear_highlights: false }
            }
        }),
{
}

/// Views split off twice are alike: a split passes on the workspace and the editor and no more.
pub proof fn law_split_of_split(view: SyntaxTreeView)
    ensures
        view.split().0.split() == view.split(),
{
}

/// The number of rows is that of the nodes in the tree that is shown, so that the list for all of
/// them has just so many rows, and the list for more has none beyond. Without a layer there is
/// none.
pub proof fn law_row_count_is_length_of_list(view: SyntaxTreeView, end: usize)
    ensures
        view.shown_layer() is None ==> view.row_count() is None,
        view.shown_layer() is Some ==> {
            let layer = view.shown_layer()->0;
            &&& view.row_count() == Some(layer.outline().rows.len() as int)
            &&& layer.outline().wf() && end >= layer.outline().rows.len() ==> view.rows_for(
                layer,
                0,
                end,
            ).len() == view.row_count()->0
        },
{
    if view.shown_layer() is Some && view.shown_layer()->0.outline().wf() {
        law_part_of_list(
            view.shown_layer()->0.outline(),
            0,
            end,
            view.selected_descendant_ix,
            0,
        );
    }
}

/// A list that was made for a layer shows the nodes of that layer, whatever the view shows by
/// now, and marks the row that is selected in the view by now.
pub proof fn law_list_shows_its_layer(
    view: SyntaxTreeView,
    layer: SyntaxLayer,
    start: usize,
    end: usize,
    ix: int,
)
    requires
        layer.outline().wf(),
        start <= ix < end <= layer.outline().rows.len(),
    ensures
        ({
            let rows = view.rows_for(layer, start, end);
            let shown = rows[ix - start];
            &&& rows.len() == end - start
            &&& shown.descendant_ix == ix
            &&& shown.row.labels == labels_of(layer.outline().rows[ix])
            &&& shown.row.depth == layer.outline().rows[ix].depth
            &&& shown.row.selected <==> view.selected_descendant_ix is Some
                && view.selected_descendant_ix->0 == ix
        }),
{
    law_items_show_each_node(layer.outline(), start, end, view.selected_descendant_ix, ix);
}

/// Events of a reparse and of a moved selection call for an update, told apart by whether the text
/// was parsed anew, and no others do.
pub proof fn law_events_call_for_updates(event: EditorEvent)
    ensures
        update_for(event) == Some(true) <==> event == EditorEvent::Reparsed,
        update_for(event) == Some(false) <==> event == EditorEvent::SelectionsChanged,
        update_for(event) is None <==> event == EditorEvent::Other,
{
}

} // verus!
