//! Which node of a tree belongs to a range of the text.
use crate::outline::{
    lemma_ancestor_of_parent, lemma_ancestor_transitive, lemma_child_for_byte,
    lemma_child_for_byte_is_first, lemma_child_towards, lemma_next_child,
    lemma_one_child_above, lemma_parent, lemma_root_spans_all, lemma_subtree_end, Outline,
};
use crate::tree::{cursor_index, cursor_outline, node_outline};
use tree_sitter::Node;
use vstd::prelude::*;

verus! {

/// The bytes from `start` up to, not including, `end`.
#[derive(Clone, Copy, Debug, PartialEq, Eq, Structural)]
pub struct ByteRange {
    pub start: usize,
    pub end: usize,
}

impl ByteRange {
    pub open spec fn nonempty(self) -> bool {
        self.start < self.end
    }
}

/// One step down from node `at` towards the start of `range`: the first child that reaches it.
/// A child that ends just where a range of at least one byte starts gives way to its next sibling.
pub open spec fn step_down(o: Outline, at: int, range: ByteRange) -> Option<int> {
    match o.child_for_byte(at, (range.start as u32) as int) {
        None => None,
        Some(child) => if range.nonempty() && o.rows[child].node.end_byte == range.start {
            match o.next_sibling(child) {
                Some(sibling) => Some(sibling),
                None => Some(child),
            }
        } else {
            Some(child)
        },
    }
}

/// Where steps down from `at` end.
pub open spec fn descend(o: Outline, at: int, range: ByteRange) -> int
    decreases o.len() - at,
{
    match step_down(o, at, range) {
        None => at,
        Some(next) => if at < next < o.len() {
            descend(o, next, range)
        } else {
            at
        },
    }
}

/// The nearest among `at` and its ancestors that covers `range`, or the root if none does.
pub open spec fn ascend(o: Outline, at: int, range: ByteRange) -> int
    decreases at,
{
    if o.covers(at, range.start, range.end) {
        at
    } else {
        match o.parent(at) {
            Some(parent) => if 0 <= parent < at {
                ascend(o, parent, range)
            } else {
                at
            },
            None => at,
        }
    }
}

/// The node for `range`: from the deepest node under the start of the range, up to the first
/// that covers the range.
pub open spec fn located(o: Outline, range: ByteRange) -> int {
    ascend(o, descend(o, 0, range), range)
}

/// A step down leads to a child.
pub proof fn lemma_step_down(o: Outline, at: int, range: ByteRange)
    requires
        o.wf(),
        0 <= at < o.len(),
    ensures
        step_down(o, at, range) matches Some(next) ==> at < next < o.len() && o.is_child(at, next),
{
    lemma_subtree_end(o, at);
    lemma_child_for_byte(o, at, (range.start as u32) as int);
    if let Some(child) = o.child_for_byte(at, (range.start as u32) as int) {
        lemma_subtree_end(o, child);
        if o.next_sibling(child) is Some && o.subtree_end(at) < o.subtree_end(child) {
            assert(o.depth(o.subtree_end(at)) > o.depth(child));
        }
    }
}

/// Finds the descendant of `node` that belongs to `range`, and gives its descendant index.
pub fn locate(node: &Node<'_>, range: ByteRange) -> (descendant_ix: usize)
    ensures
        descendant_ix == located(node_outline(*node), range),
        node_outline(*node).wf(),
{
    let ghost o = node_outline(*node);

    // Within the tree, find the syntax node under the cursor.
    let mut cursor = node.walk();
    loop
        invariant
            cursor_outline(cursor) == o,
            o.wf(),
            0 <= cursor_index(cursor) < o.len(),
            descend(o, cursor_index(cursor) as int, range) == descend(o, 0, range),
        ensures
            cursor_index(cursor) == descend(o, 0, range),
        decreases o.len() - cursor_index(cursor),
    {
        let ghost at = cursor_index(cursor) as int;
        proof {
            lemma_step_down(o, at, range);
            lemma_child_for_byte(o, at, (range.start as u32) as int);
        }
        if cursor.goto_first_child_for_byte(range.start).is_none() {
            break;
        }
        if range.start < range.end && cursor.node().end_byte() == range.start {
            cursor.goto_next_sibling();
        }
        assert(step_down(o, at, range) == Some(cursor_index(cursor) as int));
    }

    // Ascend to the smallest ancestor that contains the range.
    loop
        invariant
            cursor_outline(cursor) == o,
            o.wf(),
            0 <= cursor_index(cursor) < o.len(),
            ascend(o, cursor_index(cursor) as int, range) == located(o, range),
        ensures
            cursor_index(cursor) == located(o, range),
        decreases cursor_index(cursor),
    {
        let node_range = cursor.node().byte_range();
        if node_range.start <= range.start && node_range.end >= range.end {
            break;
        }
        proof {
            lemma_parent(o, cursor_index(cursor) as int);
        }
        if !cursor.goto_parent() {
            break;
        }
    }
    cursor.descendant_index()
}

/// Steps down lead to a descendant.
pub proof fn lemma_descend(o: Outline, at: int, range: ByteRange)
    requires
        o.wf(),
        0 <= at < o.len(),
    ensures
        at <= descend(o, at, range) < o.len(),
        o.is_ancestor_or_self(at, descend(o, at, range)),
    decreases o.len() - at,
{
    lemma_subtree_end(o, at);
    lemma_step_down(o, at, range);
    if let Some(next) = step_down(o, at, range) {
        lemma_descend(o, next, range);
        lemma_ancestor_transitive(o, at, next, descend(o, next, range));
    }
}

/// Steps up lead to the last ancestor that covers the range, or to the root.
pub proof fn lemma_ascend(o: Outline, at: int, range: ByteRange)
    requires
        o.wf(),
        0 <= at < o.len(),
    ensures
        0 <= ascend(o, at, range) <= at,
        o.is_ancestor_or_self(ascend(o, at, range), at),
        o.covers(ascend(o, at, range), range.start, range.end) || ascend(o, at, range) == 0,
        forall|a: int|
            0 <= a && #[trigger] o.is_ancestor_or_self(a, at) && o.covers(a, range.start, range.end)
                ==> a <= ascend(o, at, range),
    decreases at,
{
    lemma_subtree_end(o, at);
    lemma_parent(o, at);
    if !o.covers(at, range.start, range.end) {
        if let Some(p) = o.parent(at) {
            lemma_ascend(o, p, range);
            lemma_ancestor_transitive(o, ascend(o, p, range), p, at);
            assert forall|a: int|
                0 <= a && #[trigger] o.is_ancestor_or_self(a, at) && o.covers(
                    a,
                    range.start,
                    range.end,
                ) implies a <= ascend(o, at, range) by {
                lemma_ancestor_of_parent(o, a, at);
            }
        }
    }
}

/// The node found for a range is a node of the tree. It covers the range, unless it is the root.
pub proof fn law_located_covers(o: Outline, range: ByteRange)
    requires
        o.wf(),
    ensures
        ({
            let found = o.rows[located(o, range)].node;
            let root = o.rows[0].node;
            let covered = found.start_byte <= range.start && range.end <= found.end_byte;
            &&& 0 <= located(o, range) < o.len()
            &&& covered || located(o, range) == 0
            &&& root.start_byte <= range.start && range.end <= root.end_byte ==> covered
        }),
{
    lemma_descend(o, 0, range);
    lemma_ascend(o, descend(o, 0, range), range);
}

/// The node found for a range is the smallest that covers it among the node under the start of
/// the range and the ancestors of that node: all others of these that cover it are ancestors of
/// the node found. Where none of them covers the range, the root is found.
pub proof fn law_located_is_smallest_ancestor(o: Outline, range: ByteRange, a: int)
    requires
        o.wf(),
        0 <= a < o.len(),
        o.is_ancestor_or_self(a, descend(o, 0, range)),
    ensures
        o.is_ancestor_or_self(located(o, range), descend(o, 0, range)),
        o.rows[a].node.start_byte <= range.start && range.end <= o.rows[a].node.end_byte ==> {
            let found = o.rows[located(o, range)].node;
            &&& o.is_ancestor_or_self(a, located(o, range))
            &&& found.start_byte <= range.start && range.end <= found.end_byte
        },
{
    lemma_descend(o, 0, range);
    lemma_ascend(o, descend(o, 0, range), range);
}

/// Nodes lie within their parents and behind the siblings before them.
pub open spec fn nested(o: Outline) -> bool {
    &&& forall|i: int, k: int|
        0 <= i < o.len() && #[trigger] o.is_child(i, k) ==> o.rows[i].node.start_byte
            <= o.rows[k].node.start_byte <= o.rows[k].node.end_byte <= o.rows[i].node.end_byte
    &&& forall|i: int, k: int, m: int|
        0 <= i < o.len() && k < m && #[trigger] o.is_child(i, k) && #[trigger] o.is_child(i, m)
            ==> o.rows[k].node.end_byte <= o.rows[m].node.start_byte
}

/// A search for the start of `range` passes by no node that covers `range`.
pub open spec fn no_cover_passed(o: Outline, range: ByteRange) -> bool {
    forall|k: int|
        0 <= k < o.len() && #[trigger] o.covers(k, range.start, range.end) ==> !o.passed.contains(
            (k, range.start as int),
        )
}

/// Steps down towards `range` get stuck: below some node, the first child that reaches the start
/// of the range ends there and gives way to a node of length zero, although a later child covers
/// the range.
pub open spec fn stalls(o: Outline, range: ByteRange) -> bool {
    exists|at: int, c: int|
        0 <= at < o.len() && #[trigger] o.is_child(at, c) && o.covers(c, range.start, range.end)
            && stalls_before(o, at, c, range.start)
}

/// Below node `at`, a step down towards `byte` gives way to a node of length zero before child
/// `c`.
pub open spec fn stalls_before(o: Outline, at: int, c: int, byte: usize) -> bool {
    o.child_for_byte(at, (byte as u32) as int) matches Some(k) && o.rows[k].node.end_byte == byte
        && (o.next_sibling(k) matches Some(z) && z < c && o.rows[z].node.start_byte == byte
        && o.rows[z].node.end_byte == byte)
}

/// Nodes lie within their ancestors.
pub proof fn lemma_nested_descendant(o: Outline, a: int, i: int)
    requires
        o.wf(),
        nested(o),
        0 <= a < o.len(),
        i < o.len(),
        o.is_ancestor_or_self(a, i),
    ensures
        o.rows[a].node.start_byte <= o.rows[i].node.start_byte,
        o.rows[i].node.end_byte <= o.rows[a].node.end_byte,
    decreases i,
{
    if a < i {
        lemma_parent(o, i);
        lemma_ancestor_of_parent(o, a, i);
        lemma_nested_descendant(o, a, o.parent(i)->0);
    }
}

/// From an ancestor of a node that covers the range, steps down pass through the node.
proof fn lemma_descend_through(o: Outline, at: int, i: int, range: ByteRange)
    requires
        o.wf(),
        nested(o),
        no_cover_passed(o, range),
        !stalls(o, range),
        range.nonempty(),
        0 <= at < o.len(),
        i < o.len(),
        o.is_ancestor_or_self(at, i),
        o.covers(i, range.start, range.end),
    ensures
        o.is_ancestor_or_self(i, descend(o, at, range)),
    decreases o.len() - at,
{
    lemma_descend(o, at, range);
    if at < i {
        let c = lemma_child_towards(o, at, i);
        let byte = (range.start as u32) as int;
        assert(byte == range.start);
        lemma_subtree_end(o, at);
        lemma_nested_descendant(o, c, i);
        lemma_child_for_byte(o, at, byte);
        assert(o.covers(c, range.start, range.end));
        assert(o.stops_at(c, byte));
        lemma_child_for_byte_is_first(o, at, byte, c);
        let k = o.child_for_byte(at, byte)->0;
        if k < c {
            lemma_next_child(o, at, k, c);
            let next = o.next_sibling(k)->0;
            if next < c {
                assert(stalls_before(o, at, c, range.start));
            }
        }
        assert(step_down(o, at, range) == Some(c));
        lemma_descend_through(o, c, i, range);
    }
}

/// In a tree whose nodes nest, and in which a search for the start of the range neither passes by a
/// node that covers the range nor stalls, the node found for a range of at least one byte is the node under it: every
/// node that covers the range is the node found or an ancestor of it.
pub proof fn law_located_is_deepest_cover(o: Outline, range: ByteRange, i: int)
    requires
        o.wf(),
        nested(o),
        no_cover_passed(o, range),
        !stalls(o, range),
        range.start < range.end,
        0 <= i < o.len(),
        o.rows[i].node.start_byte <= range.start && range.end <= o.rows[i].node.end_byte,
    ensures
        o.is_ancestor_or_self(i, located(o, range)),
        ({
            let found = o.rows[located(o, range)].node;
            found.start_byte <= range.start && range.end <= found.end_byte
        }),
{
    lemma_descend(o, 0, range);
    lemma_root_spans_all(o);
    lemma_descend_through(o, 0, i, range);
    law_located_is_smallest_ancestor(o, range, i);
}

/// Steps down from a node on the way end where they end from its start.
proof fn lemma_descend_from_path(o: Outline, at: int, a: int, range: ByteRange)
    requires
        o.wf(),
        0 <= at < o.len(),
        a < o.len(),
        o.is_ancestor_or_self(at, a),
        o.is_ancestor_or_self(a, descend(o, at, range)),
    ensures
        descend(o, a, range) == descend(o, at, range),
    decreases a - at,
{
    if at < a {
        lemma_descend(o, at, range);
        lemma_step_down(o, at, range);
        let next = step_down(o, at, range)->0;
        lemma_descend(o, next, range);
        let towards = lemma_child_towards(o, at, a);
        lemma_ancestor_transitive(o, towards, a, descend(o, at, range));
        lemma_one_child_above(o, at, next, towards, descend(o, at, range));
        lemma_descend_from_path(o, next, a, range);
    }
}

/// In a tree whose nodes nest, and in which a search for a caret passes by no node that the caret
/// touches, no node below the node found for the caret is touched by it.
pub proof fn law_located_is_deepest_at_caret(o: Outline, range: ByteRange, i: int)
    requires
        o.wf(),
        nested(o),
        no_cover_passed(o, range),
        range.start == range.end,
        0 <= i < o.len(),
        i != located(o, range),
        o.is_ancestor_or_self(located(o, range), i),
    ensures
        range.start < o.rows[i].node.start_byte || o.rows[i].node.end_byte < range.end,
{
    if o.covers(i, range.start, range.end) {
        let byte = (range.start as u32) as int;
        assert(byte == range.start);
        let leaf = descend(o, 0, range);
        let found = located(o, range);
        lemma_root_spans_all(o);
        lemma_descend(o, 0, range);
        lemma_ascend(o, leaf, range);
        lemma_descend_from_path(o, 0, found, range);
        lemma_subtree_end(o, found);

        // The child through which the way leads to `i` covers the caret too.
        let c = lemma_child_towards(o, found, i);
        lemma_nested_descendant(o, c, i);
        assert(o.covers(c, range.start, range.end));
        assert(o.stops_at(c, byte));
        lemma_child_for_byte_is_first(o, found, byte, c);

        // So steps down from the node found go on, to a child that does not cover the caret.
        let d = o.child_for_byte(found, byte)->0;
        lemma_child_for_byte(o, found, byte);
        assert(step_down(o, found, range) == Some(d));
        lemma_descend(o, d, range);
        assert(o.is_ancestor_or_self(d, leaf));
        assert(!o.covers(d, range.start, range.end));
    }
}

/// Whether `k` is the first child of `a` that reaches `byte` and is not passed by on the way to it.
pub open spec fn first_reaching(o: Outline, a: int, byte: int, k: int) -> bool {
    &&& o.is_child(a, k)
    &&& byte <= o.rows[k].node.end_byte
    &&& !o.passed.contains((k, byte))
    &&& forall|c: int| #[trigger]
        o.is_child(a, c) && c < k ==> o.rows[c].node.end_byte < byte || o.passed.contains((c, byte))
}

/// The way down ends only where no child is left that reaches the start of the range and is not
/// passed by.
pub proof fn law_way_down_ends_at_last_reaching(o: Outline, range: ByteRange, c: int)
    requires
        o.wf(),
        o.is_child(descend(o, 0, range), c),
    ensures
        ({
            let byte = (range.start as u32) as int;
            o.rows[c].node.end_byte < byte || o.passed.contains((c, byte))
        }),
{
    let byte = (range.start as u32) as int;
    let leaf = descend(o, 0, range);
    lemma_root_spans_all(o);
    lemma_descend(o, 0, range);
    lemma_subtree_end(o, leaf);
    lemma_descend_from_path(o, 0, leaf, range);
    lemma_step_down(o, leaf, range);
    if let Some(next) = step_down(o, leaf, range) {
        lemma_descend(o, next, range);
    }
    if o.stops_at(c, byte) {
        lemma_child_for_byte_is_first(o, leaf, byte, c);
    }
}

/// From any node `a` on it, the way down leads to the first child that reaches the start of the
/// range and is not passed by. Only where the range holds at least one byte, that child ends just
/// where the range starts, and a sibling follows, does it lead to that sibling instead.
pub proof fn law_way_down_takes_first_reaching(o: Outline, range: ByteRange, a: int, d: int) -> (k:
    int)
    requires
        o.wf(),
        0 <= a < o.len(),
        o.is_child(a, d),
        o.is_ancestor_or_self(d, descend(o, 0, range)),
    ensures
        first_reaching(o, a, (range.start as u32) as int, k),
        ({
            let gives_way = range.start < range.end && o.rows[k].node.end_byte == range.start
                && exists|c: int| #[trigger] o.is_child(a, c) && k < c;
            &&& !gives_way ==> d == k
            &&& gives_way ==> k < d && forall|c: int| #[trigger]
                o.is_child(a, c) && k < c ==> d <= c
        }),
{
    let byte = (range.start as u32) as int;
    let leaf = descend(o, 0, range);
    lemma_root_spans_all(o);
    lemma_descend(o, 0, range);
    lemma_subtree_end(o, a);
    lemma_subtree_end(o, d);
    lemma_ancestor_transitive(o, a, d, leaf);
    lemma_descend_from_path(o, 0, a, range);
    lemma_step_down(o, a, range);
    lemma_child_for_byte(o, a, byte);
    let next = step_down(o, a, range)->0;
    lemma_descend(o, next, range);
    lemma_one_child_above(o, a, next, d, leaf);
    let k = o.child_for_byte(a, byte)->0;
    lemma_subtree_end(o, k);
    assert(next == d);
    assert forall|c: int| #[trigger] o.is_child(a, c) && c < k implies o.rows[c].node.end_byte
        < byte || o.passed.contains((c, byte)) by {
        if o.stops_at(c, byte) {
            lemma_child_for_byte_is_first(o, a, byte, c);
        }
    }
    assert forall|c: int| #[trigger] o.is_child(a, c) && k < c implies o.next_sibling(k) is Some
        && o.next_sibling(k)->0 <= c by {
        lemma_next_child(o, a, k, c);
    }
    k
}

} // verus!
