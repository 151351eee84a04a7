//! The view: which editor it follows, which layer it shows, and which node is selected in it.
//!
//! Editors, buffers and workspaces belong to the host and appear here as the numbers that identify
//! them. Methods that change what the view follows return what the host has to do next.
use crate::layer::{choose_layer, chosen, SyntaxLayer};
use crate::locate::{locate, located, ByteRange};
use crate::rows::{items, render_items, ItemText, ListItem};
use vstd::prelude::*;

verus! {

/// A buffer, or the excerpt of it, that the cursor is in.
#[derive(Debug)]
pub struct BufferState {
    pub buffer: u64,
    pub excerpt_id: u64,
    pub active_layer: Option<SyntaxLayer>,
}

/// The editor that the view follows.
#[derive(Debug)]
pub struct EditorState {
    pub editor: u64,
    pub active_buffer: Option<BufferState>,
}

/// A view of the syntax tree of the text under the cursor.
#[derive(Debug)]
pub struct SyntaxTreeView {
    pub workspace_handle: u64,
    pub editor: Option<EditorState>,
    pub selected_descendant_ix: Option<usize>,
    pub hovered_descendant_ix: Option<usize>,
}

/// A range of a buffer, as it is seen in one excerpt of an editor.
#[derive(Clone, Copy, Debug, PartialEq, Eq, Structural)]
pub struct BufferRange {
    pub buffer: u64,
    pub range: ByteRange,
    pub excerpt_id: u64,
}

/// The active item of a workspace, and the editor that it acts as, if it does.
#[derive(Clone, Copy, Debug, PartialEq, Eq, Structural)]
pub struct ActiveItem {
    pub item_id: u64,
    pub editor: Option<u64>,
}

/// What happened in the editor that the view follows.
#[derive(Clone, Copy, Debug, PartialEq, Eq, Structural)]
pub enum EditorEvent {
    Reparsed,
    SelectionsChanged,
    Other,
}

/// What became of an editor that the view was offered.
#[derive(Clone, Copy, Debug, PartialEq, Eq, Structural)]
pub enum EditorSwitch {
    /// The view goes on as before.
    Kept,
    /// The view now follows the editor. The host subscribes to its events, after clearing the
    /// view's highlights in it where `clear_highlights` says so, and reports the state of the
    /// editor as after a reparse.
    Adopted { clear_highlights: bool },
}

/// The text of a node, as a range of a buffer that an editor shows.
#[derive(Clone, Copy, Debug, PartialEq, Eq, Structural)]
pub struct NodeTarget {
    pub editor: u64,
    pub buffer: u64,
    pub excerpt_id: u64,
    pub range: ByteRange,
}

/// A selection to make in an editor. The cursor ends up at `head`.
#[derive(Clone, Copy, Debug, PartialEq, Eq, Structural)]
pub struct NodeSelection {
    pub target: NodeTarget,
    pub tail: usize,
    pub head: usize,
}

/// What follows from moving the mouse over a row.
#[derive(Clone, Copy, Debug, PartialEq, Eq, Structural)]
pub struct Hover {
    /// Whether the view has to be drawn again.
    pub changed: bool,
    /// What alone is to be highlighted from now on; `None` leaves highlights as they are.
    pub highlight: Option<NodeTarget>,
}

/// The update that an event calls for, if it calls for one: whether the text was parsed anew.
pub open spec fn update_for(event: EditorEvent) -> Option<bool> {
    match event {
        EditorEvent::Reparsed => Some(true),
        EditorEvent::SelectionsChanged => Some(false),
        EditorEvent::Other => None,
    }
}

/// Whether an event calls for an update, and if so, whether the text was parsed anew.
pub fn did_reparse(event: EditorEvent) -> (reparsed: Option<bool>)
    ensures
        reparsed == update_for(event),
        reparsed == match event {
            EditorEvent::Reparsed => Some(true),
            EditorEvent::SelectionsChanged => Some(false),
            EditorEvent::Other => None,
        },
{
    match event {
        EditorEvent::Reparsed => Some(true),
        EditorEvent::SelectionsChanged => Some(false),
        EditorEvent::Other => None,
    }
}

impl EditorState {
    /// The state of the buffer that the cursor was in last, or of the one at `at` if it was in
    /// none.
    pub open spec fn buffer_before(self, at: BufferRange) -> BufferState {
        match self.active_buffer {
            Some(state) => state,
            None => BufferState {
                buffer: at.buffer,
                excerpt_id: at.excerpt_id,
                active_layer: None,
            },
        }
    }

    /// The layer to show once the cursor is at `at`. The present one stays unless the text was
    /// parsed anew or the cursor has left the excerpt.
    pub open spec fn layer_after(
        self,
        did_reparse: bool,
        at: BufferRange,
        layers: Seq<SyntaxLayer>,
    ) -> Option<SyntaxLayer> {
        let before = self.buffer_before(at);
        let stays = !did_reparse && before.buffer == at.buffer && before.excerpt_id
            == at.excerpt_id;
        if stays && before.active_layer is Some {
            before.active_layer
        } else {
            let prev = if did_reparse {
                before.active_layer
            } else {
                None
            };
            match chosen(layers, prev) {
                Some(i) => Some(layers[i]),
                None => None,
            }
        }
    }
}

impl SyntaxTreeView {
    /// The layer that is shown.
    pub open spec fn shown_layer(self) -> Option<SyntaxLayer> {
        match self.editor {
            Some(state) => match state.active_buffer {
                Some(buffer_state) => buffer_state.active_layer,
                None => None,
            },
            None => None,
        }
    }

    /// The view after it was offered `editor`.
    pub open spec fn with_editor(self, editor: u64) -> SyntaxTreeView {
        if self.follows(editor) {
            self
        } else {
            SyntaxTreeView { editor: Some(EditorState { editor, active_buffer: None }), ..self }
        }
    }

    /// Whether the view follows `editor`.
    pub open spec fn follows(self, editor: u64) -> bool {
        self.editor matches Some(state) && state.editor == editor
    }

    /// What the host has to do after the view was offered `editor`.
    pub open spec fn switch_to(self, editor: u64) -> EditorSwitch {
        if self.follows(editor) {
            EditorSwitch::Kept
        } else {
            EditorSwitch::Adopted { clear_highlights: self.editor is Some }
        }
    }

    /// The view after the editor reported where its last selection lies, and the index of the
    /// row to scroll to.
    pub open spec fn updated(
        self,
        did_reparse: bool,
        ranges: Seq<BufferRange>,
        layers: Seq<SyntaxLayer>,
    ) -> (SyntaxTreeView, Option<int>) {
        match self.editor {
            None => (self, None),
            Some(state) => if ranges.len() == 0 {
                (self, None)
            } else {
                let at = ranges.last();
                let layer = state.layer_after(did_reparse, at, layers);
                let moved = SyntaxTreeView {
                    editor: Some(
                        EditorState {
                            editor: state.editor,
                            active_buffer: Some(
                                BufferState {
                                    buffer: at.buffer,
                                    excerpt_id: at.excerpt_id,
                                    active_layer: layer,
                                },
                            ),
                        },
                    ),
                    ..self
                };
                match layer {
                    None => (moved, None),
                    Some(layer) => {
                        let ix = located(layer.outline(), at.range);
                        (
                            SyntaxTreeView { selected_descendant_ix: Some(ix as usize), ..moved },
                            Some(ix),
                        )
                    },
                }
            },
        }
    }

    /// The text of descendant `ix` of the layer that is shown.
    pub open spec fn target(self, ix: usize) -> Option<NodeTarget> {
        match self.shown_layer() {
            None => None,
            Some(layer) => {
                let o = layer.outline();
                let node = o.rows[o.landing(ix)].node;
                let buffer_state = self.editor->0.active_buffer->0;
                Some(
                    NodeTarget {
                        editor: self.editor->0.editor,
                        buffer: buffer_state.buffer,
                        excerpt_id: buffer_state.excerpt_id,
                        range: ByteRange {
                            start: node.start_byte as usize,
                            end: node.end_byte as usize,
                        },
                    },
                )
            },
        }
    }

    /// A view of a workspace that follows no editor yet.
    pub open spec fn blank(workspace_handle: u64) -> SyntaxTreeView {
        SyntaxTreeView {
            workspace_handle,
            editor: None,
            selected_descendant_ix: None,
            hovered_descendant_ix: None,
        }
    }

    /// The view `entity_id` after the active item of the workspace became `active_item`, and what
    /// the host has to do.
    pub open spec fn noticed(self, active_item: Option<ActiveItem>, entity_id: u64) -> (
        SyntaxTreeView,
        EditorSwitch,
    ) {
        match offered(active_item, entity_id) {
            Some(editor) => (self.with_editor(editor), self.switch_to(editor)),
            None => (self, EditorSwitch::Kept),
        }
    }

    /// A second view next to this one, and what the host has to do.
    pub open spec fn split(self) -> (SyntaxTreeView, EditorSwitch) {
        let blank = SyntaxTreeView::blank(self.workspace_handle);
        match self.editor {
            Some(state) => (blank.with_editor(state.editor), blank.switch_to(state.editor)),
            None => (blank, EditorSwitch::Kept),
        }
    }

    /// The number of rows in the list, if there is one.
    pub open spec fn row_count(self) -> Option<int> {
        match self.shown_layer() {
            Some(layer) => Some(layer.outline().len()),
            None => None,
        }
    }

    /// The rows from `start` up to `end` of a list that was made for `layer`.
    pub open spec fn rows_for(self, layer: SyntaxLayer, start: usize, end: usize) -> Seq<
        ItemText,
    > {
        items(layer.outline(), start, end, self.selected_descendant_ix)
    }

    /// Makes a view for a workspace, and offers it the active item.
    pub fn new(
        workspace_handle: u64,
        active_item: Option<ActiveItem>,
        entity_id: u64,
    ) -> (created: (SyntaxTreeView, EditorSwitch))
        ensures
            created == SyntaxTreeView::blank(workspace_handle).noticed(active_item, entity_id),
            ({
                let blank = SyntaxTreeView {
                    workspace_handle,
                    editor: None,
                    selected_descendant_ix: None,
                    hovered_descendant_ix: None,
                };
                match offered(active_item, entity_id) {
                    Some(editor) => created == (blank.with_editor(editor), blank.switch_to(editor)),
                    None => created == (blank, EditorSwitch::Kept),
                }
            }),
    {
        let mut this = SyntaxTreeView {
            workspace_handle,
            editor: None,
            selected_descendant_ix: None,
            hovered_descendant_ix: None,
        };
        let switch = this.workspace_updated(active_item, entity_id);
        (this, switch)
    }

    /// Takes note of the active item of the workspace. The view, which is the item `entity_id`,
    /// follows any editor but itself.
    pub fn workspace_updated(&mut self, active_item: Option<ActiveItem>, entity_id: u64) -> (switch:
        EditorSwitch)
        ensures
            (*final(self), switch) == old(self).noticed(active_item, entity_id),
            match offered(active_item, entity_id) {
                Some(editor) => *final(self) == old(self).with_editor(editor) && switch == old(
                    self,
                ).switch_to(editor),
                None => *final(self) == *old(self) && switch == EditorSwitch::Kept,
            },
    {
        if let Some(item) = active_item {
            if item.item_id != entity_id {
                if let Some(editor) = item.editor {
                    return self.set_editor(editor);
                }
            }
        }
        EditorSwitch::Kept
    }

    /// Follows `editor` from now on.
    pub fn set_editor(&mut self, editor: u64) -> (switch: EditorSwitch)
        ensures
            *final(self) == old(self).with_editor(editor),
            switch == old(self).switch_to(editor),
    {
        let mut clear_highlights = false;
        if let Some(state) = &self.editor {
            if state.editor == editor {
                return EditorSwitch::Kept;
            }
            clear_highlights = true;
        }
        self.editor = Some(EditorState { editor, active_buffer: None });
        EditorSwitch::Adopted { clear_highlights }
    }

    /// Brings the view up to date with the editor. `ranges` are the parts of buffers that the
    /// last selection spans, and `layers` are those of the buffer of the last of these. Gives the
    /// index of the row to bring into view, in the center; without one nothing is drawn anew.
    pub fn editor_updated(
        &mut self,
        did_reparse: bool,
        ranges: Vec<BufferRange>,
        layers: Vec<SyntaxLayer>,
    ) -> (scroll_to: Option<usize>)
        ensures
            *final(self) == old(self).updated(did_reparse, ranges@, layers@).0,
            match old(self).updated(did_reparse, ranges@, layers@).1 {
                Some(ix) => scroll_to is Some && scroll_to->0 == ix,
                None => scroll_to is None,
            },
            scroll_to is Some ==> final(self).shown_layer()->0.outline().wf(),
    {
        // Find which excerpt the cursor is in, and the position within that excerpted buffer.
        let mut ranges = ranges;
        let editor_state = match &mut self.editor {
            Some(state) => state,
            None => return None,
        };
        let at = match ranges.pop() {
            Some(at) => at,
            None => return None,
        };

        // If the cursor has moved into a different excerpt, retrieve a new syntax layer
        // from that buffer.
        let mut buffer_state = match editor_state.active_buffer.take() {
            Some(state) => state,
            None => BufferState {
                buffer: at.buffer,
                excerpt_id: at.excerpt_id,
                active_layer: None,
            },
        };
        let mut prev_layer: Option<SyntaxLayer> = None;
        if did_reparse {
            prev_layer = buffer_state.active_layer.take();
        }
        if buffer_state.buffer != at.buffer || buffer_state.excerpt_id != at.excerpt_id {
            buffer_state.buffer = at.buffer;
            buffer_state.excerpt_id = at.excerpt_id;
            buffer_state.active_layer = None;
        }
        if buffer_state.active_layer.is_none() {
            buffer_state.active_layer = choose_layer(layers, prev_layer.as_ref());
        }

        // Within the active layer, find the syntax node under the cursor, and scroll to it.
        let scroll_to = match &buffer_state.active_layer {
            Some(layer) => Some(locate(&layer.node(), at.range)),
            None => None,
        };
        editor_state.active_buffer = Some(buffer_state);
        if scroll_to.is_some() {
            self.selected_descendant_ix = scroll_to;
        }
        scroll_to
    }

    /// The layer that is shown, if there is one.
    pub fn active_layer(&self) -> (layer: Option<&SyntaxLayer>)
        ensures
            match layer {
                Some(layer) => self.shown_layer() == Some(*layer),
                None => self.shown_layer() is None,
            },
    {
        match &self.editor {
            Some(state) => match &state.active_buffer {
                Some(buffer_state) => buffer_state.active_layer.as_ref(),
                None => None,
            },
            None => None,
        }
    }

    /// The text of descendant `descendant_ix` of the layer that is shown, as a range in the
    /// editor.
    pub fn update_editor_with_range_for_descendant_ix(&self, descendant_ix: usize) -> (target:
        Option<NodeTarget>)
        ensures
            target == self.target(descendant_ix),
            target is Some ==> self.shown_layer()->0.outline().wf(),
    {
        let editor_state = match &self.editor {
            Some(state) => state,
            None => return None,
        };
        let buffer_state = match &editor_state.active_buffer {
            Some(state) => state,
            None => return None,
        };
        let layer = match &buffer_state.active_layer {
            Some(layer) => layer,
            None => return None,
        };

        // Find the node.
        let mut cursor = layer.node().walk();
        cursor.goto_descendant(descendant_ix);
        let range = cursor.node().byte_range();
        Some(
            NodeTarget {
                editor: editor_state.editor,
                buffer: buffer_state.buffer,
                excerpt_id: buffer_state.excerpt_id,
                range: ByteRange { start: range.start, end: range.end },
            },
        )
    }

    /// The selection to make when row `ix` is clicked.
    pub open spec fn clicked(self, ix: usize) -> Option<NodeSelection> {
        match self.target(ix) {
            Some(target) => Some(
                NodeSelection { target, tail: target.range.end, head: target.range.start },
            ),
            None => None,
        }
    }

    /// What to select in the editor when row `descendant_ix` is clicked: the text of the node,
    /// backwards, so that the cursor is put at the beginning of the node.
    pub fn row_clicked(&self, descendant_ix: usize) -> (selection: Option<NodeSelection>)
        ensures
            selection == self.clicked(descendant_ix),
            selection is Some ==> self.shown_layer()->0.outline().wf(),
    {
        match self.update_editor_with_range_for_descendant_ix(descendant_ix) {
            Some(target) => Some(
                NodeSelection { target, tail: target.range.end, head: target.range.start },
            ),
            None => None,
        }
    }

    /// The view after the mouse was moved over row `ix`, and what follows from it.
    pub open spec fn hovered(self, ix: usize) -> (SyntaxTreeView, Hover) {
        if self.hovered_descendant_ix == Some(ix) {
            (self, Hover { changed: false, highlight: None })
        } else {
            (
                SyntaxTreeView { hovered_descendant_ix: Some(ix), ..self },
                Hover { changed: true, highlight: self.target(ix) },
            )
        }
    }

    /// Takes note of the row that the mouse is over.
    pub fn row_hovered(&mut self, descendant_ix: usize) -> (hover: Hover)
        ensures
            (*final(self), hover) == old(self).hovered(descendant_ix),
    {
        if let Some(ix) = self.hovered_descendant_ix {
            if ix == descendant_ix {
                return Hover { changed: false, highlight: None };
            }
        }
        self.hovered_descendant_ix = Some(descendant_ix);
        let highlight = self.update_editor_with_range_for_descendant_ix(descendant_ix);
        Hover { changed: true, highlight }
    }

    /// The number of rows in the list, or `None` where there is no list to show.
    pub fn render(&self) -> (row_count: Option<usize>)
        ensures
            match self.row_count() {
                Some(n) => row_count is Some && row_count->0 == n,
                None => row_count is None,
            },
            match self.shown_layer() {
                Some(layer) => row_count is Some && row_count->0 == layer.outline().len()
                    && layer.outline().wf(),
                None => row_count is None,
            },
    {
        match self.active_layer() {
            Some(layer) => Some(layer.node().descendant_count()),
            None => None,
        }
    }

    /// The rows from `range.start` up to `range.end` of a list that was made for `layer`. The row
    /// that is selected by now is marked, whether or not the view still shows that layer.
    pub fn render_range(&self, layer: &SyntaxLayer, range: core::ops::Range<usize>) -> (rows: Vec<
        ListItem,
    >)
        ensures
            rows@.map_values(|row: ListItem| row@) == self.rows_for(
                *layer,
                range.start,
                range.end,
            ),
            rows@.map_values(|row: ListItem| row@) == items(
                layer.outline(),
                range.start,
                range.end,
                self.selected_descendant_ix,
            ),
            layer.outline().wf(),
    {
        render_items(&layer.node(), range, self.selected_descendant_ix)
    }

    /// The view after layer `layer_ix` of the buffer was picked, if it can be shown.
    pub open spec fn with_layer(self, layer_ix: usize, layers: Seq<SyntaxLayer>) -> Option<
        SyntaxTreeView,
    > {
        match self.editor {
            Some(state) => match state.active_buffer {
                Some(buffer_state) => if layer_ix < layers.len() {
                    Some(
                        SyntaxTreeView {
                            editor: Some(
                                EditorState {
                                    active_buffer: Some(
                                        BufferState {
                                            active_layer: Some(layers[layer_ix as int]),
                                            ..buffer_state
                                        },
                                    ),
                                    ..state
                                },
                            ),
                            selected_descendant_ix: None,
                            ..self
                        },
                    )
                } else {
                    None
                },
                None => None,
            },
            None => None,
        }
    }

    /// Shows layer `layer_ix` of the buffer, with nothing selected. Where that is done, the view
    /// is to be drawn again and to get the focus.
    pub fn select_layer(&mut self, layer_ix: usize, layers: Vec<SyntaxLayer>) -> (done: Option<()>)
        ensures
            match old(self).with_layer(layer_ix, layers@) {
                Some(view) => *final(self) == view && done is Some,
                None => *final(self) == *old(self) && done is None,
            },
    {
        let mut layers = layers;
        let editor_state = match &mut self.editor {
            Some(state) => state,
            None => return None,
        };
        let buffer_state = match &mut editor_state.active_buffer {
            Some(state) => state,
            None => return None,
        };
        if layer_ix >= layers.len() {
            return None;
        }
        buffer_state.active_layer = Some(layers.swap_remove(layer_ix));
        self.selected_descendant_ix = None;
        Some(())
    }

    /// Makes a second view for the same workspace and the same editor.
    pub fn clone_on_split(&self, entity_id: u64) -> (created: (SyntaxTreeView, EditorSwitch))
        ensures
            created == self.split(),
            ({
                let blank = SyntaxTreeView {
                    workspace_handle: self.workspace_handle,
                    editor: None,
                    selected_descendant_ix: None,
                    hovered_descendant_ix: None,
                };
                match self.editor {
                    Some(state) => created == (
                        blank.with_editor(state.editor),
                        blank.switch_to(state.editor),
                    ),
                    None => created == (blank, EditorSwitch::Kept),
                }
            }),
    {
        let (mut clone, mut switch) = SyntaxTreeView::new(self.workspace_handle, None, entity_id);
        if let Some(state) = &self.editor {
            switch = clone.set_editor(state.editor);
        }
        (clone, switch)
    }

    /// The text on the tab of the view.
    pub fn tab_content_text(&self) -> (text: Option<String>)
        ensures
            text matches Some(title) && title@ == "Syntax Tree"@,
    {
        Some("Syntax Tree".to_owned())
    }
}

/// The editor that the active item offers to the view `entity_id`.
pub open spec fn offered(active_item: Option<ActiveItem>, entity_id: u64) -> Option<u64> {
    match active_item {
        Some(item) => if item.item_id != entity_id {
            item.editor
        } else {
            None
        },
        None => None,
    }
}

} // verus!
