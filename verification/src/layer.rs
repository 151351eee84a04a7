//! The layers of syntax in a buffer: one tree for each language that occurs in it.
use crate::outline::Outline;
use crate::tree::{node_outline, root_node_with_offset, tree_outline};
use tree_sitter::{Node, Tree};
use vstd::math::abs;
use vstd::prelude::*;

verus! {

/// A language. Two languages are the same where their ids are.
#[derive(Debug)]
pub struct Language {
    pub id: u64,
    pub name: String,
}

/// Where in a buffer the text of a tree starts.
#[derive(Clone, Copy, Debug, PartialEq, Eq, Structural)]
pub struct Offset {
    pub bytes: usize,
    pub row: usize,
    pub column: usize,
}

/// A tree, the language in which it was parsed, and its place in the buffer.
#[derive(Debug)]
pub struct SyntaxLayer {
    pub language: Language,
    pub tree: Tree,
    pub offset: Offset,
}

impl SyntaxLayer {
    /// The tree as a mathematical value, with its places counted in the buffer.
    pub open spec fn outline(self) -> Outline {
        tree_outline(self.tree, self.offset.bytes, self.offset.row, self.offset.column)
    }

    /// The language, and where the root starts and ends.
    pub open spec fn place(self) -> LayerPlace {
        let root = self.outline().rows[0].node;
        LayerPlace {
            language_id: self.language.id,
            start_byte: root.start_byte,
            end_byte: root.end_byte,
        }
    }

    /// The root of the tree.
    pub fn node(&self) -> (node: Node<'_>)
        ensures
            node_outline(node) == self.outline(),
            self.outline().wf(),
    {
        root_node_with_offset(&self.tree, self.offset.bytes, self.offset.row, self.offset.column)
    }

    /// The language, and where the root starts and ends.
    pub fn layer_place(&self) -> (place: LayerPlace)
        ensures
            place == self.place(),
    {
        let range = self.node().byte_range();
        LayerPlace {
            language_id: self.language.id,
            start_byte: range.start as u32,
            end_byte: range.end as u32,
        }
    }
}

/// What decides whether a layer takes the place of another: its language, and where its root
/// starts and ends.
#[derive(Clone, Copy, Debug, PartialEq, Eq, Structural)]
pub struct LayerPlace {
    pub language_id: u64,
    pub start_byte: u32,
    pub end_byte: u32,
}

pub open spec fn gap(a: int, b: int) -> int {
    if a <= b {
        b - a
    } else {
        a - b
    }
}

/// How far two places lie apart: the sum over both ends.
pub open spec fn distance(a: LayerPlace, b: LayerPlace) -> int {
    gap(a.start_byte as int, b.start_byte as int) + gap(a.end_byte as int, b.end_byte as int)
}

/// Whether place `i` is one for the language of `prev`.
pub open spec fn same_language(places: Seq<LayerPlace>, prev: LayerPlace, i: int) -> bool {
    0 <= i < places.len() && places[i].language_id == prev.language_id
}

/// Whether place `i` is the first, among those for the language of `prev`, of those that lie
/// nearest to `prev`.
pub open spec fn is_closest(places: Seq<LayerPlace>, prev: LayerPlace, i: int) -> bool {
    &&& same_language(places, prev, i)
    &&& forall|j: int| #[trigger]
        same_language(places, prev, j) ==> distance(places[i], prev) <= distance(places[j], prev)
    &&& forall|j: int|
        j < i && #[trigger] same_language(places, prev, j) ==> distance(places[i], prev) < distance(
            places[j],
            prev,
        )
}

/// The place that comes after `prev`.
pub open spec fn closest(places: Seq<LayerPlace>, prev: LayerPlace) -> Option<int> {
    if exists|i: int| is_closest(places, prev, i) {
        Some(choose|i: int| is_closest(places, prev, i))
    } else {
        None
    }
}

/// The places of layers.
pub open spec fn places(layers: Seq<SyntaxLayer>) -> Seq<LayerPlace> {
    layers.map_values(|layer: SyntaxLayer| layer.place())
}

/// The layer to show: the one that takes the place of the layer shown before, or the first.
pub open spec fn chosen(layers: Seq<SyntaxLayer>, prev: Option<SyntaxLayer>) -> Option<int> {
    match prev {
        Some(prev) => closest(places(layers), prev.place()),
        None => if layers.len() > 0 {
            Some(0int)
        } else {
            None
        },
    }
}

/// At most one place is the first of the nearest.
pub proof fn lemma_closest_unique(places: Seq<LayerPlace>, prev: LayerPlace, i: int)
    requires
        is_closest(places, prev, i),
    ensures
        closest(places, prev) == Some(i),
{
    let k = closest(places, prev)->0;
    assert(is_closest(places, prev, k));
    assert(same_language(places, prev, i) && same_language(places, prev, k));
}

/// The distance between two byte offsets.
fn byte_gap(a: u32, b: u32) -> (d: u64)
    ensures
        d == gap(a as int, b as int),
{
    if a <= b {
        (b - a) as u64
    } else {
        (a - b) as u64
    }
}

/// Finds the place that comes after `prev`: the nearest for the same language, and the first of
/// these if there are several.
pub fn closest_place(places: &Vec<LayerPlace>, prev: LayerPlace) -> (found: Option<usize>)
    ensures
        match found {
            Some(i) => is_closest(places@, prev, i as int),
            None => forall|j: int| !same_language(places@, prev, j),
        },
        match found {
            Some(i) => closest(places@, prev) == Some(i as int),
            None => closest(places@, prev) is None,
        },
{
    let mut best: Option<(usize, u64)> = None;
    let mut i: usize = 0;
    while i < places.len()
        invariant
            0 <= i <= places@.len(),
            match best {
                Some((b, d)) => {
                    &&& 0 <= b < i
                    &&& same_language(places@, prev, b as int)
                    &&& d == distance(places@[b as int], prev)
                    &&& forall|j: int|
                        j < i && #[trigger] same_language(places@, prev, j) ==> d <= distance(
                            places@[j],
                            prev,
                        )
                    &&& forall|j: int|
                        j < b && #[trigger] same_language(places@, prev, j) ==> d < distance(
                            places@[j],
                            prev,
                        )
                },
                None => forall|j: int| j < i ==> !#[trigger] same_language(places@, prev, j),
            },
        decreases places@.len() - i,
    {
        let place = places[i];
        if place.language_id == prev.language_id {
            let d = byte_gap(place.start_byte, prev.start_byte) + byte_gap(
                place.end_byte,
                prev.end_byte,
            );
            best = match best {
                Some((b, least)) => if d < least {
                    Some((i, d))
                } else {
                    Some((b, least))
                },
                None => Some((i, d)),
            };
        }
        i += 1;
    }
    match best {
        Some((b, _)) => {
            proof {
                lemma_closest_unique(places@, prev, b as int);
            }
            Some(b)
        },
        None => None,
    }
}

/// Takes out of `layers` the layer to show next.
pub fn choose_layer(layers: Vec<SyntaxLayer>, prev: Option<&SyntaxLayer>) -> (layer: Option<
    SyntaxLayer,
>)
    ensures
        match chosen(
            layers@,
            match prev {
                Some(p) => Some(*p),
                None => None,
            },
        ) {
            Some(i) => layer == Some(layers@[i]),
            None => layer is None,
        },
{
    let mut layers = layers;
    let found = match prev {
        Some(prev) => {
            let mut candidates: Vec<LayerPlace> = Vec::new();
            let mut i: usize = 0;
            while i < layers.len()
                invariant
                    0 <= i <= layers@.len(),
                    candidates@ == places(layers@).take(i as int),
                decreases layers@.len() - i,
            {
                candidates.push(layers[i].layer_place());
                assert(candidates@ =~= places(layers@).take(i + 1));
                i += 1;
            }
            assert(candidates@ =~= places(layers@));
            closest_place(&candidates, prev.layer_place())
        },
        None => if layers.len() > 0 {
            Some(0usize)
        } else {
            None
        },
    };
    match found {
        Some(i) => Some(layers.swap_remove(i)),
        None => None,
    }
}

/// Where some layer lies just where the layer shown before lay, and is in the same language, the
/// layer that takes its place lies there too, and is in that language.
pub proof fn law_reparse_keeps_place(layers: Seq<SyntaxLayer>, prev: SyntaxLayer, i: int)
    requires
        0 <= i < layers.len(),
        layers[i].place() == prev.place(),
    ensures
        chosen(layers, Some(prev)) matches Some(k) && 0 <= k <= i && layers[k].place()
            == prev.place(),
{
    lemma_closest_exists(places(layers), prev.place(), i);
    let k = closest(places(layers), prev.place())->0;
    assert(is_closest(places(layers), prev.place(), k));
    assert(same_language(places(layers), prev.place(), i));
}

/// A layer that takes the place of another is in the same language, and some layer does whenever
/// one is.
pub proof fn law_reparse_keeps_language(layers: Seq<SyntaxLayer>, prev: SyntaxLayer)
    ensures
        match chosen(layers, Some(prev)) {
            Some(k) => 0 <= k < layers.len() && layers[k].language.id == prev.language.id,
            None => forall|i: int|
                0 <= i < layers.len() ==> (#[trigger] layers[i]).language.id != prev.language.id,
        },
{
    match chosen(layers, Some(prev)) {
        Some(k) => {
            assert(is_closest(places(layers), prev.place(), k));
        },
        None => {
            assert forall|i: int| 0 <= i < layers.len() implies (#[trigger] layers[i]).language.id
                != prev.language.id by {
                if layers[i].language.id == prev.language.id {
                    lemma_closest_exists(places(layers), prev.place(), i);
                }
            }
        },
    }
}

/// Some place comes after `prev` whenever there is one for its language.
pub proof fn lemma_closest_exists(places: Seq<LayerPlace>, prev: LayerPlace, i: int)
    requires
        same_language(places, prev, i),
    ensures
        closest(places, prev) is Some,
    decreases distance(places[i], prev), i,
{
    if !is_closest(places, prev, i) {
        if exists|j: int| #[trigger]
            same_language(places, prev, j) && distance(places[j], prev) < distance(places[i], prev) {
            let j = choose|j: int| #[trigger]
                same_language(places, prev, j) && distance(places[j], prev) < distance(
                    places[i],
                    prev,
                );
            lemma_closest_exists(places, prev, j);
        } else {
            let j = choose|j: int|
                j < i && #[trigger] same_language(places, prev, j) && distance(places[j], prev)
                    <= distance(places[i], prev);
            lemma_closest_exists(places, prev, j);
        }
    }
}

/// The places in a layer are counted in its buffer, and what decides on the layer is its language
/// and the bytes at which its root starts and ends there.
pub proof fn law_layer_lies_in_buffer(layer: SyntaxLayer)
    ensures
        layer.outline() == tree_outline(
            layer.tree,
            layer.offset.bytes,
            layer.offset.row,
            layer.offset.column,
        ),
        layer.place().language_id == layer.language.id,
        layer.place().start_byte == layer.outline().rows[0].node.start_byte,
        layer.place().end_byte == layer.outline().rows[0].node.end_byte,
{
}

/// The place that comes after another is in its language, and none in that language lies nearer,
/// both ends counted alike. Of those equally near it is the first. There is none only where no
/// place is in that language.
pub proof fn law_closest_place_is_nearest(places: Seq<LayerPlace>, prev: LayerPlace, j: int)
    requires
        0 <= j < places.len(),
        places[j].language_id == prev.language_id,
    ensures
        closest(places, prev) matches Some(k) && {
            let near = abs(places[k].start_byte - prev.start_byte) + abs(
                places[k].end_byte - prev.end_byte,
            );
            let far = abs(places[j].start_byte - prev.start_byte) + abs(
                places[j].end_byte - prev.end_byte,
            );
            &&& 0 <= k < places.len()
            &&& places[k].language_id == prev.language_id
            &&& near <= far
            &&& j < k ==> near < far
        },
{
    lemma_closest_exists(places, prev, j);
    let k = closest(places, prev)->0;
    assert(is_closest(places, prev, k));
    assert(same_language(places, prev, j));
}

/// No place comes after another where none is in its language.
pub proof fn law_no_place_in_another_language(places: Seq<LayerPlace>, prev: LayerPlace)
    requires
        forall|j: int|
            0 <= j < places.len() ==> (#[trigger] places[j]).language_id != prev.language_id,
    ensures
        closest(places, prev) is None,
{
    if let Some(k) = closest(places, prev) {
        assert(is_closest(places, prev, k));
    }
}

/// Where no layer was shown before, the first layer is to be shown, and none where there is none.
pub proof fn law_first_layer_comes_first(layers: Seq<SyntaxLayer>)
    ensures
        layers.len() > 0 ==> chosen(layers, None) == Some(0int),
        layers.len() == 0 ==> chosen(layers, None) is None,
{
}

/// The layer that takes the place of another is in its language, and of the layers in that
/// language none has a root that starts and ends nearer to where the root of the other did. Of
/// those equally near it is the first.
pub proof fn law_reparse_takes_nearest(layers: Seq<SyntaxLayer>, prev: SyntaxLayer, j: int)
    requires
        0 <= j < layers.len(),
        layers[j].language.id == prev.language.id,
    ensures
        chosen(layers, Some(prev)) matches Some(k) && {
            let root = prev.outline().rows[0].node;
            let taken = layers[k].outline().rows[0].node;
            let other = layers[j].outline().rows[0].node;
            let near = abs(taken.start_byte - root.start_byte) + abs(
                taken.end_byte - root.end_byte,
            );
            let far = abs(other.start_byte - root.start_byte) + abs(
                other.end_byte - root.end_byte,
            );
            &&& 0 <= k < layers.len()
            &&& layers[k].language.id == prev.language.id
            &&& near <= far
            &&& j < k ==> near < far
        },
{
    law_closest_place_is_nearest(places(layers), prev.place(), j);
}

} // verus!
