//! A syntax tree as a mathematical value.
//!
//! An [`Outline`] lists the nodes of a tree so that every node comes before its children, and
//! children from left to right. The place of a node in that list is its *descendant index*: the
//! root has index zero. Depths alone then tell parents, children and siblings apart.
use vstd::prelude::*;

verus! {

/// A place in a text. Rows and columns count from zero.
#[derive(Clone, Copy, Debug, PartialEq, Eq, Structural)]
pub struct Position {
    pub row: u32,
    pub column: u32,
}

/// What a node says of itself, wherever it hangs.
pub struct NodeFacts {
    /// The name of the grammar rule, or the text of a literal token.
    pub kind: Seq<char>,
    /// Whether the node stands for a named rule, not for a literal token.
    pub named: bool,
    pub start_byte: u32,
    pub end_byte: u32,
    pub start: Position,
    pub end: Position,
}

/// One entry of an outline.
pub struct Row {
    pub node: NodeFacts,
    /// How many ancestors the node has within the outline.
    pub depth: nat,
    /// The name under which the grammar files the node in its parent.
    pub field: Option<Seq<char>>,
}

/// A tree, as the list of its nodes.
pub struct Outline {
    pub rows: Seq<Row>,
    /// The pairs of a node and a byte offset such that a search for the offset among the siblings
    /// of the node passes the node by, although the node reaches the offset.
    pub passed: Set<(int, int)>,
}

impl Outline {
    pub open spec fn len(self) -> int {
        self.rows.len() as int
    }

    pub open spec fn depth(self, i: int) -> int {
        self.rows[i].depth as int
    }

    /// The list is that of a tree: it starts with a root, has no second one, and a node is at
    /// most one level deeper than the node before it. Indices fit in 32 bits.
    pub open spec fn wf(self) -> bool {
        &&& 0 < self.len() <= u32::MAX
        &&& self.depth(0) == 0
        &&& forall|i: int| 0 < i < self.len() ==> #[trigger] self.depth(i) >= 1
        &&& forall|i: int, j: int|
            0 <= i && j == i + 1 && j < self.len() ==> #[trigger] self.depth(j)
                <= #[trigger] self.depth(i) + 1
    }

    /// The first index from `j` on that lies no deeper than `i`, or the length of the list.
    pub open spec fn skip_deeper(self, i: int, j: int) -> int
        decreases self.len() - j,
    {
        if j < self.len() && self.depth(j) > self.depth(i) {
            self.skip_deeper(i, j + 1)
        } else {
            j
        }
    }

    /// The index behind the last descendant of `i`.
    pub open spec fn subtree_end(self, i: int) -> int {
        self.skip_deeper(i, i + 1)
    }

    /// Whether `k` is a child of `i`.
    pub open spec fn is_child(self, i: int, k: int) -> bool {
        i < k < self.subtree_end(i) && self.depth(k) == self.depth(i) + 1
    }

    pub open spec fn first_child(self, i: int) -> Option<int> {
        if i + 1 < self.len() && self.depth(i + 1) > self.depth(i) {
            Some(i + 1)
        } else {
            None
        }
    }

    pub open spec fn next_sibling(self, i: int) -> Option<int> {
        let end = self.subtree_end(i);
        if end < self.len() && self.depth(end) == self.depth(i) {
            Some(end)
        } else {
            None
        }
    }

    /// The last index up to `j` that lies less deep than `i`.
    pub open spec fn last_above(self, i: int, j: int) -> Option<int>
        decreases j + 1,
    {
        if j < 0 {
            None
        } else if self.depth(j) < self.depth(i) {
            Some(j)
        } else {
            self.last_above(i, j - 1)
        }
    }

    pub open spec fn parent(self, i: int) -> Option<int> {
        self.last_above(i, i - 1)
    }

    /// Whether `a` is `i` or one of its ancestors.
    pub open spec fn is_ancestor_or_self(self, a: int, i: int) -> bool {
        a <= i < self.subtree_end(a)
    }

    /// Whether a search for `byte` stops at `k` once it gets there.
    pub open spec fn stops_at(self, k: int, byte: int) -> bool {
        self.rows[k].node.end_byte >= byte && !self.passed.contains((k, byte))
    }

    /// The first child of `i` from index `k` on at which a search for `byte` stops.
    pub open spec fn child_for_byte_from(self, i: int, byte: int, k: int) -> Option<int>
        decreases self.len() - k,
    {
        if k < self.len() && self.depth(k) > self.depth(i) {
            if self.depth(k) == self.depth(i) + 1 && self.stops_at(k, byte) {
                Some(k)
            } else {
                self.child_for_byte_from(i, byte, k + 1)
            }
        } else {
            None
        }
    }

    /// The first child of `i` at which a search for `byte` stops.
    pub open spec fn child_for_byte(self, i: int, byte: int) -> Option<int> {
        self.child_for_byte_from(i, byte, i + 1)
    }

    /// How many children of `i` lie before index `k`.
    pub open spec fn children_before(self, i: int, k: int) -> nat
        decreases k - i,
    {
        if k <= i + 1 {
            0
        } else {
            self.children_before(i, k - 1) + if self.is_child(i, k - 1) {
                1nat
            } else {
                0nat
            }
        }
    }

    /// The index that a jump to `ix` reaches. Jumps count in 32 bits, and one that leads out of
    /// the tree ends at the root.
    pub open spec fn landing(self, ix: usize) -> int {
        if (ix as u32) < self.len() {
            (ix as u32) as int
        } else {
            0
        }
    }

    /// Whether node `i` covers the bytes from `start` to `end`.
    pub open spec fn covers(self, i: int, start: usize, end: usize) -> bool {
        self.rows[i].node.start_byte <= start && self.rows[i].node.end_byte >= end
    }
}

pub proof fn lemma_skip_deeper(o: Outline, i: int, j: int)
    requires
        0 <= j <= o.len(),
    ensures
        j <= o.skip_deeper(i, j) <= o.len(),
        forall|k: int|
            j <= k < o.skip_deeper(i, j) ==> #[trigger] o.depth(k) > o.depth(i),
        o.skip_deeper(i, j) < o.len() ==> o.depth(o.skip_deeper(i, j)) <= o.depth(i),
    decreases o.len() - j,
{
    if j < o.len() && o.depth(j) > o.depth(i) {
        lemma_skip_deeper(o, i, j + 1);
    }
}

/// An index that ends a run of deeper nodes is where the run is skipped to.
pub proof fn lemma_skip_deeper_unique(o: Outline, i: int, j: int, end: int)
    requires
        0 <= j <= end <= o.len(),
        forall|k: int| j <= k < end ==> #[trigger] o.depth(k) > o.depth(i),
        end < o.len() ==> o.depth(end) <= o.depth(i),
    ensures
        o.skip_deeper(i, j) == end,
    decreases end - j,
{
    if j < end {
        assert(o.depth(j) > o.depth(i));
        lemma_skip_deeper_unique(o, i, j + 1, end);
    }
}

pub proof fn lemma_subtree_end(o: Outline, i: int)
    requires
        0 <= i < o.len(),
    ensures
        i < o.subtree_end(i) <= o.len(),
        forall|k: int| i < k < o.subtree_end(i) ==> #[trigger] o.depth(k) > o.depth(i),
        o.subtree_end(i) < o.len() ==> o.depth(o.subtree_end(i)) <= o.depth(i),
{
    lemma_skip_deeper(o, i, i + 1);
}

/// A node is no deeper than the number of nodes before it.
pub proof fn lemma_depth_bound(o: Outline, i: int)
    requires
        o.wf(),
        0 <= i < o.len(),
    ensures
        o.depth(i) <= i,
    decreases i,
{
    if i > 0 {
        lemma_depth_bound(o, i - 1);
        assert(o.depth(i) <= o.depth(i - 1) + 1);
    }
}

/// The root spans the whole outline.
pub proof fn lemma_root_spans_all(o: Outline)
    requires
        o.wf(),
    ensures
        o.subtree_end(0) == o.len(),
{
    lemma_subtree_end(o, 0);
}

proof fn lemma_last_above(o: Outline, i: int, j: int)
    requires
        o.wf(),
        0 <= j < i < o.len(),
        forall|k: int| j < k <= i ==> #[trigger] o.depth(k) >= o.depth(i),
    ensures
        o.last_above(i, j) matches Some(p) && 0 <= p <= j && o.depth(p) == o.depth(i) - 1
            && forall|k: int| p < k <= i ==> #[trigger] o.depth(k) >= o.depth(i),
    decreases j,
{
    assert(o.depth(j + 1) <= o.depth(j) + 1);
    if o.depth(j) >= o.depth(i) {
        if j == 0 {
            assert(o.depth(i) >= 1);
        } else {
            lemma_last_above(o, i, j - 1);
        }
    }
}

/// Every node but the root has a parent, one level above it and before it.
pub proof fn lemma_parent(o: Outline, i: int)
    requires
        o.wf(),
        0 <= i < o.len(),
    ensures
        i == 0 <==> o.parent(i) is None,
        o.parent(i) matches Some(p) ==> {
            &&& 0 <= p < i
            &&& o.depth(p) == o.depth(i) - 1
            &&& forall|k: int| p < k <= i ==> #[trigger] o.depth(k) >= o.depth(i)
            &&& o.is_child(p, i)
        },
{
    if i > 0 {
        lemma_last_above(o, i, i - 1);
        let p = o.parent(i)->0;
        lemma_subtree_end(o, p);
        if o.subtree_end(p) <= i {
            assert(o.depth(o.subtree_end(p)) >= o.depth(i));
        }
    }
}

/// The last of a row of siblings ends where its parent ends.
pub proof fn lemma_last_sibling_ends_parent(o: Outline, i: int)
    requires
        o.wf(),
        0 < i < o.len(),
        o.next_sibling(i) is None,
    ensures
        o.subtree_end(o.parent(i)->0) == o.subtree_end(i),
{
    lemma_parent(o, i);
    lemma_subtree_end(o, i);
    let p = o.parent(i)->0;
    let end = o.subtree_end(i);
    assert forall|k: int| p + 1 <= k < end implies #[trigger] o.depth(k) > o.depth(p) by {
        if k <= i {
            assert(o.depth(k) >= o.depth(i));
        }
    }
    lemma_skip_deeper_unique(o, p, p + 1, end);
}

/// A search for a byte offset finds a child, and one that reaches the offset.
pub proof fn lemma_child_for_byte(o: Outline, i: int, byte: int)
    requires
        0 <= i < o.len(),
    ensures
        o.child_for_byte(i, byte) matches Some(k) ==> {
            &&& i < k < o.len()
            &&& o.is_child(i, k)
            &&& o.stops_at(k, byte)
        },
        o.child_for_byte(i, byte) is None ==> forall|k: int| #[trigger]
            o.is_child(i, k) ==> !o.stops_at(k, byte),
{
    lemma_subtree_end(o, i);
    lemma_child_for_byte_from(o, i, byte, i + 1);
}

proof fn lemma_child_for_byte_from(o: Outline, i: int, byte: int, k: int)
    requires
        0 <= i < k <= o.subtree_end(i) <= o.len(),
        forall|m: int| i < m < o.subtree_end(i) ==> #[trigger] o.depth(m) > o.depth(i),
        o.subtree_end(i) < o.len() ==> o.depth(o.subtree_end(i)) <= o.depth(i),
    ensures
        o.child_for_byte_from(i, byte, k) matches Some(c) ==> k <= c && o.is_child(i, c)
            && o.stops_at(c, byte),
        o.child_for_byte_from(i, byte, k) is None ==> forall|c: int|
            k <= c && #[trigger] o.is_child(i, c) ==> !o.stops_at(c, byte),
    decreases o.len() - k,
{
    if k < o.subtree_end(i) {
        assert(o.depth(k) > o.depth(i));
        if !(o.depth(k) == o.depth(i) + 1 && o.stops_at(k, byte)) {
            lemma_child_for_byte_from(o, i, byte, k + 1);
        }
    }
}

/// Ancestors of ancestors are ancestors.
pub proof fn lemma_ancestor_transitive(o: Outline, a: int, b: int, c: int)
    requires
        0 <= a < o.len(),
        b < o.len(),
        c < o.len(),
        o.is_ancestor_or_self(a, b),
        o.is_ancestor_or_self(b, c),
    ensures
        o.is_ancestor_or_self(a, c),
{
    lemma_subtree_end(o, a);
    lemma_subtree_end(o, b);
    if o.subtree_end(a) <= c {
        assert(o.depth(o.subtree_end(a)) > o.depth(b));
    }
}

/// The proper ancestors of a node are those of its parent and the parent.
pub proof fn lemma_ancestor_of_parent(o: Outline, a: int, i: int)
    requires
        o.wf(),
        0 <= a < i < o.len(),
        o.is_ancestor_or_self(a, i),
    ensures
        o.is_ancestor_or_self(a, o.parent(i)->0),
{
    lemma_parent(o, i);
    lemma_subtree_end(o, a);
    assert(o.depth(i) > o.depth(a));
    if o.parent(i)->0 < a {
        assert(o.depth(a) >= o.depth(i));
    }
}

/// Below an ancestor of a node, one child leads to the node.
pub proof fn lemma_child_towards(o: Outline, a: int, i: int) -> (child: int)
    requires
        o.wf(),
        0 <= a < i < o.len(),
        o.is_ancestor_or_self(a, i),
    ensures
        o.is_child(a, child),
        child <= i,
        o.is_ancestor_or_self(child, i),
    decreases i,
{
    lemma_parent(o, i);
    lemma_subtree_end(o, i);
    let p = o.parent(i)->0;
    if p == a {
        i
    } else {
        lemma_ancestor_of_parent(o, a, i);
        let child = lemma_child_towards(o, a, p);
        lemma_ancestor_transitive(o, child, p, i);
        child
    }
}

/// A child with a child behind it has a next sibling, which lies no further than that child.
pub proof fn lemma_next_child(o: Outline, i: int, k: int, later: int)
    requires
        o.wf(),
        0 <= i < o.len(),
        o.is_child(i, k),
        o.is_child(i, later),
        k < later,
    ensures
        o.next_sibling(k) matches Some(next) && k < next <= later && o.is_child(i, next),
{
    lemma_subtree_end(o, i);
    lemma_subtree_end(o, k);
    let next = o.subtree_end(k);
    if later < next {
        assert(o.depth(later) > o.depth(k));
    }
    assert(o.depth(next) > o.depth(i));
}

/// A search for a byte offset goes no further than a child at which it stops.
pub proof fn lemma_child_for_byte_is_first(o: Outline, i: int, byte: int, c: int)
    requires
        0 <= i < o.len(),
        o.is_child(i, c),
        o.stops_at(c, byte),
    ensures
        o.child_for_byte(i, byte) matches Some(k) && k <= c,
{
    lemma_subtree_end(o, i);
    lemma_child_for_byte_from_is_first(o, i, byte, c, i + 1);
}

proof fn lemma_child_for_byte_from_is_first(o: Outline, i: int, byte: int, c: int, k: int)
    requires
        0 <= i < k <= c < o.subtree_end(i) <= o.len(),
        forall|m: int| i < m < o.subtree_end(i) ==> #[trigger] o.depth(m) > o.depth(i),
        o.is_child(i, c),
        o.stops_at(c, byte),
    ensures
        o.child_for_byte_from(i, byte, k) matches Some(found) && found <= c,
    decreases c - k,
{
    assert(o.depth(k) > o.depth(i));
    if k < c && !(o.depth(k) == o.depth(i) + 1 && o.stops_at(k, byte)) {
        lemma_child_for_byte_from_is_first(o, i, byte, c, k + 1);
    }
}

/// Only one child of a node is an ancestor of a given node.
pub proof fn lemma_one_child_above(o: Outline, i: int, k: int, m: int, below: int)
    requires
        o.wf(),
        0 <= i < o.len(),
        o.is_child(i, k),
        o.is_child(i, m),
        o.is_ancestor_or_self(k, below),
        o.is_ancestor_or_self(m, below),
    ensures
        k == m,
{
    if k < m {
        lemma_next_child(o, i, k, m);
    } else if m < k {
        lemma_next_child(o, i, m, k);
    }
}

} // verus!
