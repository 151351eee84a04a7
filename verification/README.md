# syntax_tree_view

A view that follows an editor and shows the syntax tree of the text under the cursor: one row for
each node, with the node that belongs to the selection marked and scrolled to. Rows can be clicked,
which selects the text of the node, and hovered, which highlights it. Where a buffer holds several
languages, a toolbar menu picks the tree to show.

`src/` is the verified part: how a node is found for a range, how a tree is listed, which layer is
shown after an edit, and every change of the state of the view. Trees come from `tree_sitter`; what
is assumed of that crate stands in `src/tree.rs`, over the model of a tree in `src/outline.rs`.

`app/` ties the view to an editor: it reports what happens there, draws the rows, and carries out
what `src/` decides. It is written for the `gpui`, `editor`, `language`, `theme`, `ui` and
`workspace` crates of the editor that it is built with, and expects the layers of `language` to give
access to their tree and offset, and its languages to give their id as a number.
