//! Widgets that are elements in their own right, each answering the host's events
//! directly: the plain menu bar and its menus, the flat breadcrumb, the flat parameter
//! panel and the plate paginator. Where a pointer lands is measured by the host, which
//! hands over what it hit.
pub mod menu;
pub mod breadcrumb;
pub mod paginator;
pub mod params;
