//! The state and the logic of a view that shows the syntax tree of the text under the cursor.
//!
//! - [`tree`]: what is taken on trust of `tree_sitter`, whose trees are shown;
//! - [`outline`]: such a tree as a mathematical value;
//! - [`locate`]: the node that belongs to a range of the text;
//! - [`rows`], [`text`]: the list that shows a tree;
//! - [`layer`]: the trees of a buffer, one for each language in it;
//! - [`view`]: the view, and what it follows, shows and selects;
//! - [`toolbar`]: the menu from which a layer is picked;
//! - [`laws`]: what holds of the view whatever happens, over one call or several.
pub mod laws;
pub mod layer;
pub mod locate;
pub mod outline;
pub mod rows;
pub mod text;
pub mod toolbar;
pub mod tree;
pub mod view;
