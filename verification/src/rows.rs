//! The list that shows a tree: one row for each node.
use crate::outline::{
    lemma_depth_bound, lemma_last_sibling_ends_parent, lemma_parent, lemma_root_spans_all,
    lemma_subtree_end, Outline, Row,
};
use crate::text::{format_node_range, range_text};
use crate::tree::{cursor_index, cursor_outline, node_outline};
use tree_sitter::{Node, TreeCursor};
use vstd::prelude::*;
use vstd::string::StringExecFns;

verus! {

/// The colors that labels of a row are drawn in.
#[derive(Clone, Copy, Debug, PartialEq, Eq, Structural)]
pub enum LabelColor {
    Info,
    Default,
    Created,
    Muted,
}

/// A piece of text in a row. One without a color keeps that of labels in general.
#[derive(Debug)]
pub struct NodeLabel {
    pub text: String,
    pub color: Option<LabelColor>,
}

/// How a node is shown: its labels from left to right, indented by its depth, and on a
/// highlighted background where it is the selected one.
#[derive(Debug)]
pub struct NodeRow {
    pub labels: Vec<NodeLabel>,
    pub depth: u32,
    pub selected: bool,
}

/// A row of the list, for the descendant with the given index.
#[derive(Debug)]
pub struct ListItem {
    pub descendant_ix: usize,
    pub row: NodeRow,
}

/// A [`NodeLabel`] as a mathematical value.
pub struct LabelText {
    pub text: Seq<char>,
    pub color: Option<LabelColor>,
}

/// A [`NodeRow`] as a mathematical value.
pub struct RowText {
    pub labels: Seq<LabelText>,
    pub depth: int,
    pub selected: bool,
}

/// A [`ListItem`] as a mathematical value.
pub struct ItemText {
    pub descendant_ix: int,
    pub row: RowText,
}

impl View for NodeLabel {
    type V = LabelText;

    open spec fn view(&self) -> LabelText {
        LabelText { text: self.text@, color: self.color }
    }
}

impl View for NodeRow {
    type V = RowText;

    open spec fn view(&self) -> RowText {
        RowText {
            labels: self.labels@.map_values(|label: NodeLabel| label@),
            depth: self.depth as int,
            selected: self.selected,
        }
    }
}

impl View for ListItem {
    type V = ItemText;

    open spec fn view(&self) -> ItemText {
        ItemText { descendant_ix: self.descendant_ix as int, row: self.row@ }
    }
}

/// The labels of a node: its field name and a colon where it has one, its kind, in quotes where
/// it is a literal token, and its place in the text.
pub open spec fn labels_from(
    field: Option<Seq<char>>,
    kind: Seq<char>,
    named: bool,
    place: Seq<char>,
) -> Seq<LabelText> {
    let field_labels = match field {
        Some(name) => seq![
            LabelText { text: name, color: Some(LabelColor::Info) },
            LabelText { text: ": "@, color: None },
        ],
        None => seq![],
    };
    let kind_label = if named {
        LabelText { text: kind, color: Some(LabelColor::Default) }
    } else {
        LabelText { text: "\""@ + kind + "\""@, color: Some(LabelColor::Created) }
    };
    field_labels + seq![kind_label, LabelText { text: place, color: Some(LabelColor::Muted) }]
}

/// The labels of a node in an outline.
pub open spec fn labels_of(row: Row) -> Seq<LabelText> {
    labels_from(
        row.field,
        row.node.kind,
        row.node.named,
        range_text(row.node.start, row.node.end),
    )
}

/// How a node in an outline is shown, indented by `depth`.
pub open spec fn row_text(row: Row, depth: int, selected: bool) -> RowText {
    RowText { labels: labels_of(row), depth, selected }
}

/// How many rows there are to show for the descendants from `start` up to `end`.
pub open spec fn item_count(o: Outline, start: usize, end: usize) -> nat {
    let left = o.len() - o.landing(start);
    if end <= start {
        0
    } else if end - start < left {
        (end - start) as nat
    } else {
        left as nat
    }
}

/// The `k`-th row shown for the descendants from `start` on.
pub open spec fn item(o: Outline, start: usize, selected: Option<usize>, k: int) -> ItemText {
    let row = o.rows[o.landing(start) + k];
    ItemText {
        descendant_ix: start + k,
        row: RowText {
            labels: labels_of(row),
            depth: row.depth as int,
            selected: selected matches Some(ix) && ix == start + k,
        },
    }
}

/// The rows shown for the descendants from `start` up to `end`.
pub open spec fn items(o: Outline, start: usize, end: usize, selected: Option<usize>) -> Seq<
    ItemText,
> {
    Seq::new(item_count(o, start, end), |k: int| item(o, start, selected, k))
}

/// The labels of a node, from what is known of it.
pub fn node_labels(
    field_name: Option<&str>,
    kind: &str,
    named: bool,
    place: String,
) -> (labels: Vec<NodeLabel>)
    ensures
        labels@.map_values(|label: NodeLabel| label@) == labels_from(
            match field_name {
                Some(name) => Some(name@),
                None => None,
            },
            kind@,
            named,
            place@,
        ),
{
    let mut labels: Vec<NodeLabel> = Vec::new();
    if let Some(name) = field_name {
        labels.push(NodeLabel { text: name.to_owned(), color: Some(LabelColor::Info) });
        labels.push(NodeLabel { text: ": ".to_owned(), color: None });
    }
    if named {
        labels.push(NodeLabel { text: kind.to_owned(), color: Some(LabelColor::Default) });
    } else {
        let mut quoted = "\"".to_owned();
        quoted.append(kind);
        quoted.append("\"");
        labels.push(NodeLabel { text: quoted, color: Some(LabelColor::Created) });
    }
    labels.push(NodeLabel { text: place, color: Some(LabelColor::Muted) });
    assert(labels@.map_values(|label: NodeLabel| label@) =~= labels_from(
        match field_name {
            Some(name) => Some(name@),
            None => None,
        },
        kind@,
        named,
        place@,
    ));
    labels
}

/// A row for the node at which `cursor` stands.
pub fn render_node(cursor: &TreeCursor<'_>, depth: u32, selected: bool) -> (row: NodeRow)
    ensures
        row@ == row_text(
            cursor_outline(*cursor).rows[cursor_index(*cursor) as int],
            depth as int,
            selected,
        ),
        row@ == (RowText {
            labels: labels_of(cursor_outline(*cursor).rows[cursor_index(*cursor) as int]),
            depth: depth as int,
            selected,
        }),
{
    let node = cursor.node();
    let labels = node_labels(
        cursor.field_name(),
        node.kind(),
        node.is_named(),
        format_node_range(&node),
    );
    NodeRow { labels, depth, selected }
}

/// The rows for the descendants of `node` from `range.start` up to `range.end`, as far as there
/// are so many. The row of descendant `selected` is marked.
pub fn render_items(
    node: &Node<'_>,
    range: core::ops::Range<usize>,
    selected: Option<usize>,
) -> (rendered: Vec<ListItem>)
    ensures
        rendered@.map_values(|it: ListItem| it@) == items(
            node_outline(*node),
            range.start,
            range.end,
            selected,
        ),
        node_outline(*node).wf(),
{
    let ghost o = node_outline(*node);
    let ghost first = o.landing(range.start);
    let mut rendered: Vec<ListItem> = Vec::new();
    let mut cursor = node.walk();
    let mut descendant_ix: usize = range.start;
    cursor.goto_descendant(descendant_ix);
    let mut depth: u32 = cursor.depth();
    let mut visited_children = false;
    while descendant_ix < range.end
        invariant
            o.wf(),
            o == cursor_outline(cursor),
            first == o.landing(range.start),
            0 <= cursor_index(cursor) < o.len(),
            depth == o.depth(cursor_index(cursor) as int),
            range.start <= descendant_ix,
            range.start <= range.end ==> descendant_ix <= range.end,
            range.end < range.start ==> descendant_ix == range.start,
            rendered@.len() == descendant_ix - range.start,
            first + rendered@.len() <= o.len(),
            !visited_children ==> cursor_index(cursor) == first + rendered@.len(),
            visited_children ==> o.subtree_end(cursor_index(cursor) as int) == first
                + rendered@.len(),
            forall|k: int|
                0 <= k < rendered@.len() ==> (#[trigger] rendered@[k])@ == item(
                    o,
                    range.start,
                    selected,
                    k,
                ),
        ensures
            rendered@.len() == item_count(o, range.start, range.end),
        decreases
                o.len() - first - rendered@.len(),
                if visited_children {
                    cursor_index(cursor) + 1
                } else {
                    0
                },
    {
        let ghost at = cursor_index(cursor) as int;
        proof {
            lemma_subtree_end(o, at);
            lemma_parent(o, at);
        }
        if visited_children {
            if cursor.goto_next_sibling() {
                visited_children = false;
            } else {
                proof {
                    if at > 0 {
                        lemma_last_sibling_ends_parent(o, at);
                    } else {
                        lemma_root_spans_all(o);
                    }
                }
                if cursor.goto_parent() {
                    depth = depth - 1;
                } else {
                    break;
                }
            }
        } else {
            let row = render_node(
                &cursor,
                depth,
                match selected {
                    Some(ix) => ix == descendant_ix,
                    None => false,
                },
            );
            rendered.push(ListItem { descendant_ix, row });
            descendant_ix += 1;
            if cursor.goto_first_child() {
                proof {
                    lemma_depth_bound(o, at);
                }
                depth = depth + 1;
            } else {
                visited_children = true;
            }
        }
    }
    assert(rendered@.map_values(|it: ListItem| it@) =~= items(
        o,
        range.start,
        range.end,
        selected,
    ));
    rendered
}

/// The list for a range of descendants shows each of them once, in order, with its own labels
/// and depth, and marks the selected one and no other.
pub proof fn law_items_show_each_node(
    o: Outline,
    start: usize,
    end: usize,
    selected: Option<usize>,
    ix: int,
)
    requires
        o.wf(),
        start <= ix < end <= o.len(),
    ensures
        items(o, start, end, selected).len() == end - start,
        items(o, start, end, selected)[ix - start] == (ItemText {
            descendant_ix: ix,
            row: RowText {
                labels: labels_of(o.rows[ix]),
                depth: o.depth(ix),
                selected: selected == Some(ix as usize),
            },
        }),
{
    assert((start as u32) as int == start);
}

/// Two adjoining parts of the list make up the list for both.
pub proof fn law_parts_of_list_join(
    o: Outline,
    start: usize,
    mid: usize,
    end: usize,
    selected: Option<usize>,
)
    requires
        o.wf(),
        start <= mid <= end <= o.len(),
    ensures
        items(o, start, mid, selected) + items(o, mid, end, selected) == items(
            o,
            start,
            end,
            selected,
        ),
{
    assert((start as u32) as int == start);
    assert((mid as u32) as int == mid);
    assert(items(o, start, mid, selected) + items(o, mid, end, selected) =~= items(
        o,
        start,
        end,
        selected,
    ));
}

/// Whatever its kind is called and however long the name is, a literal token shows it between
/// quotes, in the color for what was created, and any other node shows it bare, in the default
/// color. The place comes last and is muted. A field name comes first, followed by a colon, and
/// where there is none nothing stands in front of the kind.
pub proof fn law_labels_of_node(
    field: Option<Seq<char>>,
    kind: Seq<char>,
    named: bool,
    place: Seq<char>,
)
    ensures
        ({
            let labels = labels_from(field, kind, named, place);
            let front = if field is Some {
                2int
            } else {
                0int
            };
            &&& labels.len() == front + 2
            &&& named ==> labels[front].text == kind && labels[front].color == Some(
                LabelColor::Default,
            )
            &&& !named ==> {
                &&& labels[front].text.len() == kind.len() + 2
                &&& labels[front].text.first() == '"'
                &&& labels[front].text.last() == '"'
                &&& labels[front].text.subrange(1, (kind.len() + 1) as int) == kind
                &&& labels[front].color == Some(LabelColor::Created)
            }
            &&& labels[front + 1].text == place
            &&& labels[front + 1].color == Some(LabelColor::Muted)
            &&& field matches Some(name) ==> {
                &&& labels[0].text == name
                &&& labels[0].color == Some(LabelColor::Info)
                &&& labels[1].text == seq![':', ' ']
                &&& labels[1].color is None
            }
        }),
{
    reveal_strlit("\"");
    reveal_strlit(": ");
    assert(": "@ =~= seq![':', ' ']);
    let quoted = "\""@ + kind + "\""@;
    assert(quoted.subrange(1, (kind.len() + 1) as int) =~= kind);
}

/// A literal token and any other node never show the same kind, even where both kinds have the
/// same name, or one is called like the other in quotes.
pub proof fn law_literal_is_told_from_named(
    field: Option<Seq<char>>,
    kind: Seq<char>,
    place: Seq<char>,
    other_field: Option<Seq<char>>,
    other_kind: Seq<char>,
    other_place: Seq<char>,
)
    ensures
        ({
            let literal = labels_from(field, kind, false, place);
            let named = labels_from(other_field, other_kind, true, other_place);
            literal[literal.len() - 2] != named[named.len() - 2]
        }),
{
}

/// Two nodes with the same labels have the same field name, kind and place, and are both literal
/// tokens or both not.
pub proof fn law_labels_tell_nodes_apart(
    field: Option<Seq<char>>,
    kind: Seq<char>,
    named: bool,
    place: Seq<char>,
    other_field: Option<Seq<char>>,
    other_kind: Seq<char>,
    other_named: bool,
    other_place: Seq<char>,
)
    requires
        labels_from(field, kind, named, place) == labels_from(
            other_field,
            other_kind,
            other_named,
            other_place,
        ),
    ensures
        field == other_field,
        kind == other_kind,
        named == other_named,
        place == other_place,
{
    law_labels_of_node(field, kind, named, place);
    law_labels_of_node(other_field, other_kind, other_named, other_place);
}

/// The labels of a node in a tree show its own place, written out, its own kind, and its own field
/// name where it has one.
pub proof fn law_row_shows_own_node(row: Row)
    ensures
        ({
            let labels = labels_of(row);
            let kind_label = labels[labels.len() - 2];
            &&& labels.len() == if row.field is Some {
                4int
            } else {
                2int
            }
            &&& labels.last().text == range_text(row.node.start, row.node.end)
            &&& row.node.named ==> kind_label.text == row.node.kind
            &&& !row.node.named ==> kind_label.text == seq!['"'] + row.node.kind + seq!['"']
            &&& row.field matches Some(name) ==> labels[0].text == name
        }),
{
    let kind = row.node.kind;
    law_labels_of_node(
        row.field,
        kind,
        row.node.named,
        range_text(row.node.start, row.node.end),
    );
    reveal_strlit("\"");
    assert("\""@ =~= seq!['"']);
}

/// A node is shown with its own labels, at the depth and with the mark that were asked for.
pub proof fn law_row_is_drawn_as_asked(row: Row, depth: int, selected: bool)
    ensures
        row_text(row, depth, selected).labels == labels_of(row),
        row_text(row, depth, selected).depth == depth,
        row_text(row, depth, selected).selected == selected,
{
}

/// Any part of the list, even one that reaches beyond the tree, has a row for each index up to
/// its end for which there is a node left. Rows follow each other without gaps, and each is that
/// of one node: with its labels, its depth, and marked just where its index is the selected one.
/// A part that starts beyond the tree shows it from the root on.
pub proof fn law_part_of_list(
    o: Outline,
    start: usize,
    end: usize,
    selected: Option<usize>,
    k: int,
)
    requires
        o.wf(),
    ensures
        ({
            let part = items(o, start, end, selected);
            let first = if (start as u32) < o.len() {
                (start as u32) as int
            } else {
                0int
            };
            &&& end <= start ==> part.len() == 0
            &&& start < end && end - start <= o.len() - first ==> part.len() == end - start
            &&& start < end && o.len() - first <= end - start ==> part.len() == o.len() - first
            &&& 0 <= k < part.len() ==> {
                &&& part[k].descendant_ix == start + k
                &&& part[k].row.labels == labels_of(o.rows[first + k])
                &&& part[k].row.depth == o.rows[first + k].depth
                &&& part[k].row.selected <==> selected is Some && selected->0 == start + k
            }
        }),
{
}

/// What a row is marked with changes nothing else in the list.
pub proof fn law_selection_only_marks(
    o: Outline,
    start: usize,
    end: usize,
    selected: Option<usize>,
    other: Option<usize>,
    k: int,
)
    requires
        o.wf(),
        0 <= k < items(o, start, end, selected).len(),
    ensures
        ({
            let part = items(o, start, end, selected);
            let same = items(o, start, end, other);
            &&& part.len() == same.len()
            &&& part[k].descendant_ix == same[k].descendant_ix
            &&& part[k].row.labels == same[k].row.labels
            &&& part[k].row.depth == same[k].row.depth
        }),
{
}

/// As mathematical values, rows hold what they hold as executable ones.
pub proof fn law_views_of_rows(label: NodeLabel, row: NodeRow, item: ListItem, i: int)
    ensures
        label@.text == label.text@,
        label@.color == label.color,
        row@.labels.len() == row.labels@.len(),
        0 <= i < row.labels@.len() ==> row@.labels[i].text == row.labels@[i].text@
            && row@.labels[i].color == row.labels@[i].color,
        row@.depth == row.depth,
        row@.selected == row.selected,
        item@.descendant_ix == item.descendant_ix,
        item@.row == item.row@,
{
}

} // verus!
