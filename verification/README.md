# filox

The core of filox, a light file manager for Windows: its state, its rules
and the text it shows, written in Verus and proved against their contracts.
The window itself (egui/eframe), the file system, the worker thread and the
configuration files are a thin shell around it.

## Layout

- `src/` — the verified library
  - `app.rs` — the application state, navigation with back/forward history,
    context actions, the delete and path dialogs, the settings panel
  - `state.rs` — the pane: listing, selection, status line
  - `entry.rs` — directory entries: icon, colour, type label, size, time
  - `fs.rs` — drives, cloud folders, entries from metadata, listing order
  - `order.rs` — the listing's key order and a stable sort of indices
  - `settings.rs`, `quick_access.rs` — the two configuration files' text
  - `naming.rs` — names for new files and folders
  - `view.rs` — what the list and grid views show: search and hidden
    filtering, delete targets, breadcrumb, folder tree, preview
  - `fonts.rs` — the order of the font families
  - `sizes.rs` — byte counts as `{:.1}`/`{:.0}` of their float value
  - `text.rs` — characters, numerals, lines, whitespace
  - `theme.rs`, `icons.rs` — colours and glyphs
  - `paths.rs` — `std::path` operations on path text
- `tests/` — tests of the library on concrete values
- `app/` — the shell: window, drawing, worker thread, file and system access
