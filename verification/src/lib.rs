//! Verified logic of a retained-mode widget toolkit's container widgets:
//! parameter-row specifications, the code editor's cursor arithmetic, the
//! selection state of menus, paginators, breadcrumbs and groups, and the rings a
//! plate lays its children out on.
use vstd::prelude::*;

pub mod adapted;
pub mod text;
pub mod number;
pub mod cursor;
pub mod editor;
pub mod param_spec;
pub mod param_column;
pub mod param_panel;
pub mod strip;
pub mod menu_bar;
pub mod paginator;
pub mod breadcrumb;
pub mod element;
pub mod container;
pub mod group;
pub mod row_widgets;
pub mod ring_layout;
pub mod elements;

verus! {

} // verus!
