//! filox: the state, rules and text formatting of a light file manager.

pub mod text;
pub mod sizes;
pub mod icons;
pub mod theme;
pub mod entry;
pub mod state;
pub mod settings;
pub mod order;
pub mod paths;
pub mod fs;
pub mod quick_access;
pub mod naming;
pub mod app;
pub mod view;
pub mod fonts;
