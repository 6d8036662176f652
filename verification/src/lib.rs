//! An owner-drawn popup menu engine: item model, layout, hit-testing,
//! placement, painting and the selection state machine, free of any
//! window system.
//!
//! The engine never touches a window. The host creates one window for
//! each menu and names it to the engine by its handle; it measures the
//! labels and hands the widths to `MenuX::build`; it starts a session
//! with `MenuX::popup_at` and then feeds every input event to
//! `MenuRegistry::pump`, carrying out the actions that come back in the
//! order given, until the outcome is a selection or a dismissal. Painting
//! works the same way: `MenuData::on_paint` plans the drawing steps and
//! the host draws them.
//!
//! Every function states what it computes over the mathematical views of
//! the types involved, and the laws of the engine (one row of a radio
//! group checked, one submenu on the screen at a time, popups inside the
//! work area, identifiers handed back as they were given) are proved
//! beside the functions they speak of.
pub mod config;
pub mod geometry;
pub mod item;
pub mod layout;
pub mod menu;
pub mod placement;
pub mod paint;
pub mod state;
pub mod registry;
pub mod reach;
pub mod session;
pub mod exclusion;
pub mod idle;
pub mod builder;
pub mod handle;
pub mod settings;
pub mod menus;
pub mod menu_id;
