//! Glyphs of the Material Symbols Rounded icon font used by the interface.

use vstd::prelude::*;

verus! {

pub const FOLDER: char = '\u{e2c7}';
pub const FOLDER_OPEN: char = '\u{e2c8}';
pub const DESCRIPTION: char = '\u{e873}';
pub const CODE: char = '\u{e86f}';
pub const SETTINGS_ICON: char = '\u{e8b8}';
pub const LOCK: char = '\u{e897}';
pub const ARTICLE: char = '\u{ef42}';
pub const GAVEL: char = '\u{e90e}';
pub const HOME: char = '\u{e88a}';
pub const DOWNLOAD: char = '\u{f090}';
pub const STAR: char = '\u{e838}';
pub const CLOUD: char = '\u{e2bd}';
pub const CLOUD_SYNC: char = '\u{eb5a}';
pub const STORAGE: char = '\u{e1db}';
pub const CHEVRON_LEFT: char = '\u{e5cb}';
pub const CHEVRON_RIGHT: char = '\u{e5cc}';
pub const ARROW_UPWARD: char = '\u{e5d8}';
pub const REFRESH: char = '\u{e5d5}';
pub const DRIVE_FILE_MOVE: char = '\u{e675}';
pub const REORDER: char = '\u{e8fe}';
pub const GRID_VIEW: char = '\u{e9b0}';
pub const SEARCH: char = '\u{e8b6}';
pub const BOLT: char = '\u{ea0b}';
pub const OPEN_IN_NEW: char = '\u{e89e}';
pub const MORE_HORIZ: char = '\u{e5d3}';
pub const SCHEDULE: char = '\u{e8b5}';

} // verus!
