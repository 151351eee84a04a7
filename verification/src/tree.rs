//! What is taken on trust of the `tree_sitter` crate.
//!
//! A node and a cursor are opaque; what they hold is named by [`node_outline`] and
//! [`cursor_outline`], and where a cursor stands by [`cursor_index`]. The crate counts nodes,
//! bytes, rows and columns in 32 bits, and so do the outlines. Hidden grammar rules, which the
//! crate never shows, have no row.
use crate::outline::{Outline, Position};
use tree_sitter::{Node, Tree, TreeCursor};
use vstd::prelude::*;

verus! {

/// `tree_sitter::Tree`, a whole parsed tree.
#[verifier::external_type_specification]
#[verifier::external_body]
pub struct ExTree(Tree);

/// `tree_sitter::Node`, a node of a tree.
#[verifier::external_type_specification]
#[verifier::external_body]
pub struct ExNode<'tree>(Node<'tree>);

/// `tree_sitter::TreeCursor`, a place in the part of a tree that hangs from some node.
#[verifier::external_type_specification]
#[verifier::external_body]
pub struct ExTreeCursor<'cursor>(TreeCursor<'cursor>);

/// What a tree holds, once every byte offset is shifted by `bytes` and every position by `row`
/// rows and `column` columns.
pub uninterp spec fn tree_outline(tree: Tree, bytes: usize, row: usize, column: usize) -> Outline;

/// What hangs from a node, the node itself first.
pub uninterp spec fn node_outline(node: Node) -> Outline;

/// What hangs from the node that a cursor was made for.
///
/// It is a well-formed outline only for a cursor that was made by `Node::walk` and moved by
/// nothing but the five moves below. Any other cursor has an outline that is not well-formed:
/// `TreeCursor::goto_previous_sibling`, for one, makes a cursor lose count of its index. The moves
/// and the index are specified for cursors with a well-formed outline.
pub uninterp spec fn cursor_outline(cursor: TreeCursor) -> Outline;

/// The descendant index of the node at which a cursor stands.
pub uninterp spec fn cursor_index(cursor: TreeCursor) -> nat;

/// `Tree::root_node_with_offset`: the root of the tree, shifted by the given offset. The offset's
/// extent, a `tree_sitter::Point`, is passed as its two numbers. What hangs from the root is a
/// tree, with no more nodes than the crate can count.
#[verifier::external_body]
pub(crate) fn root_node_with_offset(
    tree: &Tree,
    offset_bytes: usize,
    offset_row: usize,
    offset_column: usize,
) -> (node: Node<'_>)
    ensures
        node_outline(node) == tree_outline(*tree, offset_bytes, offset_row, offset_column),
        node_outline(node).wf(),
{
    tree.root_node_with_offset(offset_bytes, tree_sitter::Point::new(offset_row, offset_column))
}

/// `Node::start_position`, as a [`Position`]: the crate reads it from two 32-bit numbers.
#[verifier::external_body]
pub(crate) fn start_position(node: &Node<'_>) -> (position: Position)
    ensures
        position == node_outline(*node).rows[0].node.start,
{
    let point = node.start_position();
    Position { row: point.row as u32, column: point.column as u32 }
}

/// `Node::end_position`, as a [`Position`]: the crate reads it from two 32-bit numbers.
#[verifier::external_body]
pub(crate) fn end_position(node: &Node<'_>) -> (position: Position)
    ensures
        position == node_outline(*node).rows[0].node.end,
{
    let point = node.end_position();
    Position { row: point.row as u32, column: point.column as u32 }
}

/// `Node::kind`: the name of the node's rule or the text of its token. Grammars hold these names
/// as UTF-8.
pub assume_specification<'tree>[ Node::<'tree>::kind ](node: &Node<'tree>) -> (kind: &'static str)
    ensures
        kind@ == node_outline(*node).rows[0].node.kind,
;

/// `Node::is_named`: whether the node stands for a named rule.
pub assume_specification<'tree>[ Node::<'tree>::is_named ](node: &Node<'tree>) -> (named: bool)
    ensures
        named == node_outline(*node).rows[0].node.named,
;

/// `Node::end_byte`: the byte offset behind the node.
pub assume_specification<'tree>[ Node::<'tree>::end_byte ](node: &Node<'tree>) -> (byte: usize)
    ensures
        byte == node_outline(*node).rows[0].node.end_byte,
;

/// `Node::byte_range`: the byte offsets of the node and behind it.
pub assume_specification<'tree>[ Node::<'tree>::byte_range ](node: &Node<'tree>) -> (range:
    core::ops::Range<usize>)
    ensures
        range.start == node_outline(*node).rows[0].node.start_byte,
        range.end == node_outline(*node).rows[0].node.end_byte,
;

/// `Node::descendant_count`: how many nodes hang from the node, itself included.
pub assume_specification<'tree>[ Node::<'tree>::descendant_count ](node: &Node<'tree>) -> (count:
    usize)
    ensures
        count == node_outline(*node).len(),
;

/// `Node::walk`: a cursor at the node, for what hangs from it. That is a tree, with no more nodes
/// than the crate can count.
pub assume_specification<'tree>[ Node::<'tree>::walk ](node: &Node<'tree>) -> (cursor: TreeCursor<
    'tree,
>)
    ensures
        cursor_outline(cursor) == node_outline(*node),
        cursor_outline(cursor).wf(),
        cursor_index(cursor) == 0,
;

/// `TreeCursor::node`: the node at which the cursor stands.
pub assume_specification<'cursor>[ TreeCursor::<'cursor>::node ](cursor: &TreeCursor<'cursor>) -> (node:
    Node<'cursor>)
    ensures
        node_outline(node).rows[0].node == cursor_outline(*cursor).rows[cursor_index(
            *cursor,
        ) as int].node,
;

/// `TreeCursor::field_name`: the field under which the node's parent files it. Grammars hold
/// these names as UTF-8.
pub assume_specification<'cursor>[ TreeCursor::<'cursor>::field_name ](
    cursor: &TreeCursor<'cursor>,
) -> (name: Option<&'static str>)
    ensures
        match name {
            Some(text) => cursor_outline(*cursor).rows[cursor_index(*cursor) as int].field == Some(
                text@,
            ),
            None => cursor_outline(*cursor).rows[cursor_index(*cursor) as int].field is None,
        },
;

/// `TreeCursor::depth`: how deep below the cursor's first node it stands.
pub assume_specification<'cursor>[ TreeCursor::<'cursor>::depth ](cursor: &TreeCursor<'cursor>) -> (depth:
    u32)
    ensures
        depth == cursor_outline(*cursor).depth(cursor_index(*cursor) as int),
;

/// `TreeCursor::descendant_index`: the place of the cursor's node among all descendants of its
/// first node.
pub assume_specification<'cursor>[ TreeCursor::<'cursor>::descendant_index ](
    cursor: &TreeCursor<'cursor>,
) -> (index: usize)
    requires
        cursor_outline(*cursor).wf(),
    ensures
        index == cursor_index(*cursor),
;

/// `TreeCursor::goto_first_child`: moves to the first child, where there is one, and says
/// whether there was.
pub assume_specification<'cursor>[ TreeCursor::<'cursor>::goto_first_child ](
    cursor: &mut TreeCursor<'cursor>,
) -> (moved: bool)
    requires
        cursor_outline(*old(cursor)).wf(),
    ensures
        cursor_outline(*final(cursor)) == cursor_outline(*old(cursor)),
        match cursor_outline(*old(cursor)).first_child(cursor_index(*old(cursor)) as int) {
            Some(child) => moved && cursor_index(*final(cursor)) == child,
            None => !moved && cursor_index(*final(cursor)) == cursor_index(*old(cursor)),
        },
;

/// `TreeCursor::goto_next_sibling`: moves to the next sibling, where there is one, and says
/// whether there was.
pub assume_specification<'cursor>[ TreeCursor::<'cursor>::goto_next_sibling ](
    cursor: &mut TreeCursor<'cursor>,
) -> (moved: bool)
    requires
        cursor_outline(*old(cursor)).wf(),
    ensures
        cursor_outline(*final(cursor)) == cursor_outline(*old(cursor)),
        match cursor_outline(*old(cursor)).next_sibling(cursor_index(*old(cursor)) as int) {
            Some(sibling) => moved && cursor_index(*final(cursor)) == sibling,
            None => !moved && cursor_index(*final(cursor)) == cursor_index(*old(cursor)),
        },
;

/// `TreeCursor::goto_parent`: moves to the parent, unless the cursor stands at its first node,
/// and says whether it moved.
pub assume_specification<'cursor>[ TreeCursor::<'cursor>::goto_parent ](
    cursor: &mut TreeCursor<'cursor>,
) -> (moved: bool)
    requires
        cursor_outline(*old(cursor)).wf(),
    ensures
        cursor_outline(*final(cursor)) == cursor_outline(*old(cursor)),
        match cursor_outline(*old(cursor)).parent(cursor_index(*old(cursor)) as int) {
            Some(parent) => moved && cursor_index(*final(cursor)) == parent,
            None => !moved && cursor_index(*final(cursor)) == cursor_index(*old(cursor)),
        },
;

/// `TreeCursor::goto_descendant`: moves to the descendant with the given index. The index is cut
/// to 32 bits, and one beyond the last descendant leads to the cursor's first node.
pub assume_specification<'cursor>[ TreeCursor::<'cursor>::goto_descendant ](
    cursor: &mut TreeCursor<'cursor>,
    descendant_index: usize,
)
    requires
        cursor_outline(*old(cursor)).wf(),
    ensures
        cursor_outline(*final(cursor)) == cursor_outline(*old(cursor)),
        cursor_index(*final(cursor)) == cursor_outline(*old(cursor)).landing(descendant_index),
;

/// `TreeCursor::goto_first_child_for_byte`: moves to the first child that reaches the given byte
/// offset, which is cut to 32 bits, and gives the number of children before it. The search also
/// looks into hidden rules, and ends in the first of these that reaches the offset even if
/// nothing visible in it does; the children that it passes by in that way are those of
/// `Outline::passed`, of which nothing more is claimed.
pub assume_specification<'cursor>[ TreeCursor::<'cursor>::goto_first_child_for_byte ](
    cursor: &mut TreeCursor<'cursor>,
    index: usize,
) -> (child_index: Option<usize>)
    requires
        cursor_outline(*old(cursor)).wf(),
    ensures
        cursor_outline(*final(cursor)) == cursor_outline(*old(cursor)),
        match cursor_outline(*old(cursor)).child_for_byte(
            cursor_index(*old(cursor)) as int,
            (index as u32) as int,
        ) {
            Some(child) => {
                &&& child_index matches Some(before) && before == cursor_outline(
                    *old(cursor),
                ).children_before(cursor_index(*old(cursor)) as int, child)
                &&& cursor_index(*final(cursor)) == child
            },
            None => child_index is None && cursor_index(*final(cursor)) == cursor_index(
                *old(cursor),
            ),
        },
;

} // verus!
