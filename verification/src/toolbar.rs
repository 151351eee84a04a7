//! The toolbar item that says which layer is shown and lets another one be picked.
use crate::layer::SyntaxLayer;
use crate::outline::Outline;
use crate::text::{format_node_range, law_range_text_tells_places_apart, range_text};
use crate::view::SyntaxTreeView;
use vstd::prelude::*;
use vstd::string::StringExecFns;

verus! {

/// The toolbar item. It belongs to the view that it was last shown for.
#[derive(Debug)]
pub struct SyntaxTreeToolbarItemView {
    pub tree_view: Option<u64>,
    /// The view whose changes make the item be drawn again.
    pub subscription: Option<u64>,
}

/// Where in the toolbar an item stands.
#[derive(Clone, Copy, Debug, PartialEq, Eq, Structural)]
pub enum ToolbarItemLocation {
    PrimaryLeft,
    Hidden,
}

/// The active item of a pane, and the syntax tree view that it is, if it is one.
#[derive(Clone, Copy, Debug, PartialEq, Eq, Structural)]
pub struct PaneItem {
    pub syntax_tree_view: Option<u64>,
}

/// What the button reads that opens the menu: the language and the place of a layer.
#[derive(Debug)]
pub struct MenuHeader {
    pub language: String,
    pub range: String,
}

/// An entry of the menu, which picks a layer.
#[derive(Debug)]
pub struct MenuEntry {
    pub label: String,
    pub layer_ix: usize,
}

/// The menu and the button that opens it. One without a layer has neither.
#[derive(Debug)]
pub struct LayerMenu {
    pub id: String,
    pub header: Option<MenuHeader>,
    pub entries: Vec<MenuEntry>,
}

/// A [`MenuHeader`] as a mathematical value.
pub struct HeaderText {
    pub language: Seq<char>,
    pub range: Seq<char>,
}

/// A [`MenuEntry`] as a mathematical value.
pub struct EntryText {
    pub label: Seq<char>,
    pub layer_ix: int,
}

/// A [`LayerMenu`] as a mathematical value.
pub struct MenuText {
    pub id: Seq<char>,
    pub header: Option<HeaderText>,
    pub entries: Seq<EntryText>,
}

impl View for MenuHeader {
    type V = HeaderText;

    open spec fn view(&self) -> HeaderText {
        HeaderText { language: self.language@, range: self.range@ }
    }
}

impl View for MenuEntry {
    type V = EntryText;

    open spec fn view(&self) -> EntryText {
        EntryText { label: self.label@, layer_ix: self.layer_ix as int }
    }
}

impl View for LayerMenu {
    type V = MenuText;

    open spec fn view(&self) -> MenuText {
        MenuText {
            id: self.id@,
            header: match self.header {
                Some(header) => Some(header@),
                None => None,
            },
            entries: self.entries@.map_values(|entry: MenuEntry| entry@),
        }
    }
}

/// The place of the root of an outline, written out.
pub open spec fn root_range_text(o: Outline) -> Seq<char> {
    range_text(o.rows[0].node.start, o.rows[0].node.end)
}

/// What the button reads for a layer.
pub open spec fn header_text(layer: SyntaxLayer) -> HeaderText {
    HeaderText { language: layer.language.name@, range: root_range_text(layer.outline()) }
}

/// The entry for layer `ix`.
pub open spec fn entry_text(layers: Seq<SyntaxLayer>, ix: int) -> EntryText {
    EntryText {
        label: layers[ix].language.name@ + " "@ + root_range_text(layers[ix].outline()),
        layer_ix: ix,
    }
}

/// The menu where `shown` is the layer that is shown, out of `layers`.
pub open spec fn menu_text(shown: SyntaxLayer, layers: Seq<SyntaxLayer>) -> MenuText {
    MenuText {
        id: "Syntax Tree"@,
        header: Some(header_text(shown)),
        entries: Seq::new(layers.len(), |ix: int| entry_text(layers, ix)),
    }
}

/// The menu where nothing is shown.
pub open spec fn empty_menu_text() -> MenuText {
    MenuText { id: "Empty Syntax Tree"@, header: None, entries: Seq::empty() }
}

/// What the button reads for a layer.
pub fn render_header(active_layer: &SyntaxLayer) -> (header: MenuHeader)
    ensures
        header@ == header_text(*active_layer),
{
    MenuHeader {
        language: active_layer.language.name.clone(),
        range: format_node_range(&active_layer.node()),
    }
}

/// The label of the entry for a layer in a language, at a place.
pub fn entry_label(language: &str, place: &str) -> (label: String)
    ensures
        label@ == language@ + " "@ + place@,
{
    let mut label = language.to_owned();
    label.append(" ");
    label.append(place);
    label
}

impl Default for SyntaxTreeToolbarItemView {
    fn default() -> (item: Self)
        ensures
            item == SyntaxTreeToolbarItemView::belonging_to(None).0,
            item.tree_view is None,
            item.subscription is None,
    {
        SyntaxTreeToolbarItemView::new()
    }
}

impl SyntaxTreeToolbarItemView {
    /// The item is drawn again with the view that it belongs to, and with no other.
    pub open spec fn wf(self) -> bool {
        self.subscription == self.tree_view
    }

    /// An item that belongs to no view.
    pub fn new() -> (item: SyntaxTreeToolbarItemView)
        ensures
            item == SyntaxTreeToolbarItemView::belonging_to(None).0,
            item.tree_view is None,
            item.subscription is None,
            item.wf(),
    {
        SyntaxTreeToolbarItemView { tree_view: None, subscription: None }
    }

    /// The layer that the item speaks of, where `view` is the view that it belongs to.
    pub open spec fn layer_of(self, view: Option<&SyntaxTreeView>) -> Option<SyntaxLayer> {
        match (self.tree_view, view) {
            (Some(_), Some(view)) => view.shown_layer(),
            _ => None,
        }
    }

    /// What the item shows for `view`, the view that it belongs to, where `layers` are those of
    /// the buffer that the view shows.
    pub open spec fn shown(
        self,
        view: Option<&SyntaxTreeView>,
        layers: Seq<SyntaxLayer>,
    ) -> MenuText {
        match self.layer_of(view) {
            Some(layer) => menu_text(layer, layers),
            None => empty_menu_text(),
        }
    }

    /// The view after layer `layer_ix` was picked for it, if that can be done.
    pub open spec fn picked(
        self,
        layer_ix: usize,
        view: SyntaxTreeView,
        layers: Seq<SyntaxLayer>,
    ) -> Option<SyntaxTreeView> {
        if self.tree_view is Some {
            view.with_layer(layer_ix, layers)
        } else {
            None
        }
    }

    /// An item that belongs to a view, or to none, and where it stands.
    pub open spec fn belonging_to(view: Option<u64>) -> (
        SyntaxTreeToolbarItemView,
        ToolbarItemLocation,
    ) {
        (
            SyntaxTreeToolbarItemView { tree_view: view, subscription: view },
            match view {
                Some(_) => ToolbarItemLocation::PrimaryLeft,
                None => ToolbarItemLocation::Hidden,
            },
        )
    }

    /// The menu for `view`, the view that the item belongs to, where `layers` are those of the
    /// buffer that it shows. There is none without a layer to show.
    pub fn render_menu(
        &self,
        view: Option<&SyntaxTreeView>,
        layers: &Vec<SyntaxLayer>,
    ) -> (menu: Option<LayerMenu>)
        ensures
            match (menu, self.layer_of(view)) {
                (Some(menu), Some(layer)) => menu@ == menu_text(layer, layers@),
                (None, None) => true,
                _ => false,
            },
    {
        if self.tree_view.is_none() {
            return None;
        }
        let tree_view = match view {
            Some(view) => view,
            None => return None,
        };
        let active_layer = match tree_view.active_layer() {
            Some(layer) => layer,
            None => return None,
        };
        let mut entries: Vec<MenuEntry> = Vec::new();
        let mut layer_ix: usize = 0;
        while layer_ix < layers.len()
            invariant
                layer_ix <= layers@.len(),
                entries@.len() == layer_ix,
                forall|k: int|
                    0 <= k < layer_ix ==> (#[trigger] entries@[k])@ == entry_text(layers@, k),
            decreases layers@.len() - layer_ix,
        {
            let layer = &layers[layer_ix];
            let place = format_node_range(&layer.node());
            let label = entry_label(layer.language.name.as_str(), place.as_str());
            entries.push(MenuEntry { label, layer_ix });
            layer_ix += 1;
        }
        let menu = LayerMenu {
            id: "Syntax Tree".to_owned(),
            header: Some(render_header(active_layer)),
            entries,
        };
        assert(menu@.entries =~= menu_text(*active_layer, layers@).entries);
        Some(menu)
    }

    /// What the item shows: the menu, or an empty one where there is nothing to pick.
    pub fn render(&self, view: Option<&SyntaxTreeView>, layers: &Vec<SyntaxLayer>) -> (menu:
        LayerMenu)
        ensures
            menu@ == self.shown(view, layers@),
            menu@ == match self.layer_of(view) {
                Some(layer) => menu_text(layer, layers@),
                None => empty_menu_text(),
            },
    {
        match self.render_menu(view, layers) {
            Some(menu) => menu,
            None => {
                let menu = LayerMenu {
                    id: "Empty Syntax Tree".to_owned(),
                    header: None,
                    entries: Vec::new(),
                };
                assert(menu@.entries =~= Seq::<EntryText>::empty());
                menu
            },
        }
    }

    /// Picks layer `layer_ix` for `view`, the view that the item belongs to, out of the layers
    /// of the buffer that it shows.
    pub fn select_layer(
        &self,
        layer_ix: usize,
        view: &mut SyntaxTreeView,
        layers: Vec<SyntaxLayer>,
    ) -> (done: Option<()>)
        ensures
            match self.picked(layer_ix, *old(view), layers@) {
                Some(picked) => *final(view) == picked && done is Some,
                None => *final(view) == *old(view) && done is None,
            },
            match (self.tree_view, old(view).with_layer(layer_ix, layers@)) {
                (Some(_), Some(picked)) => *final(view) == picked && done is Some,
                _ => *final(view) == *old(view) && done is None,
            },
    {
        if self.tree_view.is_none() {
            return None;
        }
        view.select_layer(layer_ix, layers)
    }

    /// Takes note of the active item of the pane. The item belongs to it if it is a syntax tree
    /// view, and hides otherwise.
    pub fn set_active_pane_item(&mut self, active_pane_item: Option<PaneItem>) -> (location:
        ToolbarItemLocation)
        ensures
            (*final(self), location) == SyntaxTreeToolbarItemView::belonging_to(
                match active_pane_item {
                    Some(item) => item.syntax_tree_view,
                    None => None,
                },
            ),
            final(self).tree_view == (match active_pane_item {
                Some(item) => item.syntax_tree_view,
                None => None,
            }),
            final(self).wf(),
            location == if final(self).tree_view is Some {
                ToolbarItemLocation::PrimaryLeft
            } else {
                ToolbarItemLocation::Hidden
            },
    {
        if let Some(item) = active_pane_item {
            if let Some(view) = item.syntax_tree_view {
                self.tree_view = Some(view);
                self.subscription = Some(view);
                return ToolbarItemLocation::PrimaryLeft;
            }
        }
        self.tree_view = None;
        self.subscription = None;
        ToolbarItemLocation::Hidden
    }
}

/// The menu has an entry for each layer, in order. The entry for a layer picks that layer, and its
/// label is the name of the language of that layer, a space, and the place of the root of that
/// layer.
pub proof fn law_menu_lists_each_layer(shown: SyntaxLayer, layers: Seq<SyntaxLayer>, ix: int)
    requires
        0 <= ix < layers.len(),
    ensures
        ({
            let entries = menu_text(shown, layers).entries;
            let name = layers[ix].language.name@;
            let root = layers[ix].outline().rows[0].node;
            let label = entries[ix].label;
            &&& entries.len() == layers.len()
            &&& entries[ix].layer_ix == ix
            &&& label.len() > name.len()
            &&& label.take(name.len() as int) == name
            &&& label[name.len() as int] == ' '
            &&& label.skip((name.len() + 1) as int) == range_text(root.start, root.end)
        }),
{
    reveal_strlit(" ");
    let name = layers[ix].language.name@;
    let label = menu_text(shown, layers).entries[ix].label;
    assert(label.take(name.len() as int) =~= name);
    assert(label.skip((name.len() + 1) as int) =~= root_range_text(layers[ix].outline()));
}

/// The label for a layer depends on that layer alone: not on where it stands among the layers, on
/// the other layers, or on which layer is shown.
pub proof fn law_label_depends_on_own_layer(
    shown: SyntaxLayer,
    layers: Seq<SyntaxLayer>,
    ix: int,
    other_shown: SyntaxLayer,
    other_layers: Seq<SyntaxLayer>,
    other_ix: int,
)
    requires
        0 <= ix < layers.len(),
        0 <= other_ix < other_layers.len(),
        layers[ix] == other_layers[other_ix],
    ensures
        menu_text(shown, layers).entries[ix].label == menu_text(
            other_shown,
            other_layers,
        ).entries[other_ix].label,
{
}

/// Two entries of a menu with the same label are for layers whose roots lie at the same place, and
/// whose languages have the same name if the names are equally long.
pub proof fn law_labels_tell_layers_apart(
    shown: SyntaxLayer,
    layers: Seq<SyntaxLayer>,
    i: int,
    j: int,
)
    requires
        0 <= i < layers.len(),
        0 <= j < layers.len(),
        menu_text(shown, layers).entries[i].label == menu_text(shown, layers).entries[j].label,
        layers[i].language.name@.len() == layers[j].language.name@.len(),
    ensures
        layers[i].language.name@ == layers[j].language.name@,
        layers[i].outline().rows[0].node.start == layers[j].outline().rows[0].node.start,
        layers[i].outline().rows[0].node.end == layers[j].outline().rows[0].node.end,
{
    law_menu_lists_each_layer(shown, layers, i);
    law_menu_lists_each_layer(shown, layers, j);
    let a = layers[i].outline().rows[0].node;
    let b = layers[j].outline().rows[0].node;
    law_range_text_tells_places_apart(a.start, a.end, b.start, b.end);
}

/// The button reads the language of the layer that is shown and the place of its root, whatever
/// other layers there are. The menu has as many entries as there are layers, even if none.
pub proof fn law_button_names_shown_layer(shown: SyntaxLayer, layers: Seq<SyntaxLayer>)
    ensures
        ({
            let menu = menu_text(shown, layers);
            let root = shown.outline().rows[0].node;
            &&& menu.entries.len() == layers.len()
            &&& menu.header is Some
            &&& menu.header->0.language == shown.language.name@
            &&& menu.header->0.range == range_text(root.start, root.end)
            &&& header_text(shown) == menu.header->0
            &&& menu.id == "Syntax Tree"@
        }),
{
}

/// The entry for the layer that is shown reads what the button reads, its two parts put together.
pub proof fn law_entry_reads_like_button(shown: SyntaxLayer, layers: Seq<SyntaxLayer>, ix: int)
    requires
        0 <= ix < layers.len(),
        layers[ix] == shown,
    ensures
        ({
            let menu = menu_text(shown, layers);
            menu.entries[ix].label == menu.header->0.language + seq![' '] + menu.header->0.range
        }),
{
    reveal_strlit(" ");
    assert(" "@ =~= seq![' ']);
}

/// The item shows the menu for the layer that its view shows. Where it belongs to no view, the view
/// is gone, or the view shows no layer, it shows neither a button nor an entry.
pub proof fn law_item_shows_layer_of_view(
    item: SyntaxTreeToolbarItemView,
    view: Option<&SyntaxTreeView>,
    layers: Seq<SyntaxLayer>,
)
    ensures
        ({
            let none = item.tree_view is None || view is None || view->0.shown_layer() is None;
            let menu = item.shown(view, layers);
            &&& none ==> {
                &&& item.layer_of(view) is None
                &&& menu.header is None
                &&& menu.entries.len() == 0
                &&& menu.id == "Empty Syntax Tree"@
            }
            &&& !none ==> {
                &&& item.layer_of(view) == view->0.shown_layer()
                &&& menu == menu_text(view->0.shown_layer()->0, layers)
            }
        }),
{
}

/// Picking an entry of the menu makes the view show the layer that the entry is for, and the button
/// then reads the language and the place in the label of that entry.
pub proof fn law_picked_entry_is_shown(
    item: SyntaxTreeToolbarItemView,
    view: SyntaxTreeView,
    layers: Seq<SyntaxLayer>,
    layer_ix: usize,
)
    requires
        item.tree_view is Some,
        view.shown_layer() is Some,
        layer_ix < layers.len(),
    ensures
        item.picked(layer_ix, view, layers) matches Some(after) && {
            let menu = item.shown(Some(&after), layers);
            &&& after.shown_layer() == Some(layers[layer_ix as int])
            &&& after.selected_descendant_ix is None
            &&& menu.entries == item.shown(Some(&view), layers).entries
            &&& menu.entries[layer_ix as int].layer_ix == layer_ix
            &&& menu.entries[layer_ix as int].label == menu.header->0.language + seq![' ']
                + menu.header->0.range
        },
{
    law_entry_reads_like_button(layers[layer_ix as int], layers, layer_ix as int);
}

/// An item that belongs to no view picks nothing, and any other picks just what its view can show.
pub proof fn law_item_picks_for_its_view(
    item: SyntaxTreeToolbarItemView,
    layer_ix: usize,
    view: SyntaxTreeView,
    layers: Seq<SyntaxLayer>,
)
    ensures
        item.tree_view is None ==> item.picked(layer_ix, view, layers) is None,
        item.tree_view is Some ==> item.picked(layer_ix, view, layers) == view.with_layer(
            layer_ix,
            layers,
        ),
{
}

/// An item belongs to, and is drawn again with, the view of the active item of its pane. It stands
/// in the toolbar just where there is one.
pub proof fn law_item_belongs_to_pane_item(view: Option<u64>)
    ensures
        ({
            let (item, location) = SyntaxTreeToolbarItemView::belonging_to(view);
            &&& item.tree_view == view
            &&& item.subscription == view
            &&& item.wf()
            &&& location == ToolbarItemLocation::PrimaryLeft <==> view is Some
            &&& location == ToolbarItemLocation::Hidden <==> view is None
        }),
{
}

/// As mathematical values, menus hold what they hold as executable ones.
pub proof fn law_views_of_menus(header: MenuHeader, entry: MenuEntry, menu: LayerMenu, i: int)
    ensures
        header@.language == header.language@,
        header@.range == header.range@,
        entry@.label == entry.label@,
        entry@.layer_ix == entry.layer_ix,
        menu@.id == menu.id@,
        menu@.header is Some <==> menu.header is Some,
        menu.header is Some ==> menu@.header->0 == menu.header->0@,
        menu@.entries.len() == menu.entries@.len(),
        0 <= i < menu.entries@.len() ==> menu@.entries[i] == menu.entries@[i]@,
{
}

} // verus!
