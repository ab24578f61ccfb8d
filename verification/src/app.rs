//! The application's state and every decision it takes on it: navigation
//! and its history, the context actions, the delete and path dialogs, the
//! settings panel, and the results of the scanning worker.
//!
//! Work outside the program (opening files, writing, the clipboard, talking
//! to the worker) is handed back to the caller as values: an `FsMsg` to send
//! to the worker, a `Work` to perform.

use vstd::prelude::*;
use crate::entry::{Entry, EntryKind};
use crate::fs::{DriveInfo, FsMsg, ScanResult};
use crate::naming::{first_free_path, new_file_content, split_stem_ext, unique_path};
use crate::paths::{file_name_of, parent_of, paths_equal, path_file_name, path_parent, same_path};
use crate::quick_access::{qa_text, qa_views, quick_access_text};
use crate::settings::{settings_text, settings_text_spec, FontChoice, Saved};
use crate::state::{no_repeats, PaneState, Sort, SortColumn, ViewMode};
use crate::text::{chars_of, string_of, trim, trim_spec};
use crate::theme::{tokens_spec, Accent, Theme, Tokens};

verus! {

/// What a context menu asked for; it is carried out on the next frame.
pub enum ContextAction {
    Open(String),
    CopyPath(String),
    OpenTerminal(String),
    NewFolder,
    NewFile(String),
    Delete(Vec<String>),
    Rename(String),
    AddQuickAccess(String),
    RemoveQuickAccess(usize),
    Refresh,
}

/// Outside work that a handled action leaves for the shell.
pub enum Work {
    Nothing,
    /// Open the file with its default program and show `name` as opening.
    OpenFile { path: String, name: String },
    /// Put the text on the clipboard.
    CopyText(String),
    /// Open a terminal at the folder (or at the folder holding the file).
    OpenTerminal(String),
    /// Create the folder.
    CreateDir(String),
    /// Create the file with the contents.
    WriteFile { path: String, content: Vec<u8> },
    /// Write the quick-access file with the text.
    SaveQuickAccess(String),
}

/// The result of handling a pending action: the work to do first, then the
/// request to send to the scanning worker, if any.
pub struct Outcome {
    pub work: Work,
    pub request: Option<FsMsg>,
}

/// What the path typed in the path dialog names on disk.
#[derive(Clone, Copy, Debug, PartialEq, Eq, Structural)]
pub enum PathKind {
    Dir,
    File,
    Missing,
}

/// What submitting the path dialog leads to.
pub enum PathSubmit {
    /// The dialog closed and the pane moved to the folder.
    Navigate(FsMsg),
    /// The dialog closed; the file is to be opened.
    OpenFile(String),
    /// The path names nothing; the dialog stays open showing the error.
    Invalid,
}

/// What one frame of the settings panel brought: the theme clicked, the
/// new value of the hidden-files box where it was changed, the font
/// clicked, and whether the close button was clicked.
#[derive(Clone, Copy, Debug)]
pub struct SettingsInput {
    pub theme: Option<Theme>,
    pub show_hidden: Option<bool>,
    pub font: Option<FontChoice>,
    pub close: bool,
}

/// What the shell does after a frame of the settings panel: set the fonts
/// up again where the font changed, and write the settings file with
/// `save` where a stored setting changed.
pub struct SettingsStep {
    pub font_changed: bool,
    pub save: Option<String>,
}

/// Whether the clicked theme differs from the current one.
pub open spec fn theme_changes(a: FerroApp, input: SettingsInput) -> bool {
    input.theme matches Some(t) && t != a.theme
}

/// Whether the clicked font differs from the current one.
pub open spec fn font_changes(a: FerroApp, input: SettingsInput) -> bool {
    input.font matches Some(f) && f != a.font_choice
}

/// Whether a frame of the settings panel changed a stored setting.
pub open spec fn settings_changed(a: FerroApp, input: SettingsInput) -> bool {
    theme_changes(a, input) || input.show_hidden is Some || font_changes(a, input)
}

/// What a double click on an entry leads to.
pub enum Activation {
    /// The pane moved into the folder.
    Navigate(FsMsg),
    /// The file is to be opened with its default program.
    OpenFile(String),
}

pub struct FerroApp {
    pub main_pane: PaneState,
    pub view_mode: ViewMode,
    pub theme: Theme,
    pub accent: Accent,
    pub tokens: Tokens,
    pub search_text: String,
    pub preview_idx: Option<usize>,
    pub quick_access: Vec<(String, String)>,
    pub pending_action: Option<ContextAction>,
    pub delete_confirm: Option<Vec<String>>,
    pub rename_state: Option<(String, String)>,
    pub path_input_open: bool,
    pub path_input_text: String,
    pub path_input_error: bool,
    pub show_hidden: bool,
    pub drives: Vec<DriveInfo>,
    pub onedrive_paths: Vec<(String, String)>,
    pub settings_open: bool,
    pub font_choice: FontChoice,
}

/// Where the pane is and its history: (path, back stack, forward stack).
pub type NavView = (String, Seq<String>, Seq<String>);

/// The navigation state of the application.
pub open spec fn nav_of(a: FerroApp) -> NavView {
    (a.main_pane.path, a.main_pane.back_stack@, a.main_pane.forward_stack@)
}

/// Moving to `p`: the current path goes on the back stack, the forward
/// stack is emptied.
pub open spec fn nav_to(n: NavView, p: String) -> NavView {
    (p, n.1.push(n.0), seq![])
}

/// Going back: the last path of the back stack becomes current, the
/// current path goes on the forward stack; nothing happens without history.
pub open spec fn nav_back(n: NavView) -> NavView {
    if n.1.len() > 0 {
        (n.1.last(), n.1.drop_last(), n.2.push(n.0))
    } else {
        n
    }
}

/// Going forward: the mirror of going back.
pub open spec fn nav_forward(n: NavView) -> NavView {
    if n.2.len() > 0 {
        (n.2.last(), n.1.push(n.0), n.2.drop_last())
    } else {
        n
    }
}

/// The pane's listing and the rest of the application are as they were:
/// everything but the path, its history, `loading`, the selection, the
/// preview and the search text.
pub open spec fn same_but_place(a: FerroApp, b: FerroApp) -> bool {
    &&& a.view_mode == b.view_mode
    &&& a.theme == b.theme
    &&& a.accent == b.accent
    &&& a.tokens == b.tokens
    &&& a.quick_access == b.quick_access
    &&& a.pending_action == b.pending_action
    &&& a.delete_confirm == b.delete_confirm
    &&& a.rename_state == b.rename_state
    &&& a.path_input_open == b.path_input_open
    &&& a.path_input_text == b.path_input_text
    &&& a.path_input_error == b.path_input_error
    &&& a.show_hidden == b.show_hidden
    &&& a.drives == b.drives
    &&& a.onedrive_paths == b.onedrive_paths
    &&& a.settings_open == b.settings_open
    &&& a.font_choice == b.font_choice
    &&& a.main_pane.entries == b.main_pane.entries
    &&& a.main_pane.cursor == b.main_pane.cursor
    &&& a.main_pane.tagged == b.main_pane.tagged
    &&& a.main_pane.sort == b.main_pane.sort
    &&& a.main_pane.scan_time_ms == b.main_pane.scan_time_ms
    &&& a.main_pane.free_bytes == b.main_pane.free_bytes
}

/// Nothing but the pending action, the place and the dialogs differs.
pub open spec fn same_lists(a: FerroApp, b: FerroApp) -> bool {
    &&& a.view_mode == b.view_mode
    &&& a.theme == b.theme
    &&& a.accent == b.accent
    &&& a.tokens == b.tokens
    &&& a.show_hidden == b.show_hidden
    &&& a.drives == b.drives
    &&& a.onedrive_paths == b.onedrive_paths
    &&& a.settings_open == b.settings_open
    &&& a.font_choice == b.font_choice
    &&& a.main_pane.entries == b.main_pane.entries
    &&& a.main_pane.path == b.main_pane.path
    &&& a.main_pane.back_stack == b.main_pane.back_stack
    &&& a.main_pane.forward_stack == b.main_pane.forward_stack
}

/// The default quick-access entries: Home, Downloads and Desktop, each at
/// its known folder or at "C:\" where it is unknown.
pub open spec fn default_quick_access(
    home: Option<String>,
    downloads: Option<String>,
    desktop: Option<String>,
) -> Seq<(Seq<char>, Seq<char>)> {
    seq![
        ("Home"@, or_root(home)),
        ("Downloads"@, or_root(downloads)),
        ("Desktop"@, or_root(desktop)),
    ]
}

/// A known folder's path, or "C:\" where it is unknown.
pub open spec fn or_root(p: Option<String>) -> Seq<char> {
    match p {
        Some(s) => s@,
        None => "C:\\"@,
    }
}

/// A known folder's path, or "C:\" where it is unknown.
fn path_or_root(p: Option<String>) -> (r: String)
    ensures
        r@ == or_root(p),
{
    match p {
        Some(s) => s,
        None => "C:\\".to_string(),
    }
}

/// The name shown for a path: its final component, or the whole path.
pub open spec fn shown_name(p: Seq<char>) -> Seq<char> {
    match file_name_of(p) {
        Some(n) => n,
        None => p,
    }
}

/// A path's final component, or nothing where it has none.
pub open spec fn name_or_empty(p: Seq<char>) -> Seq<char> {
    match file_name_of(p) {
        Some(n) => n,
        None => Seq::empty(),
    }
}

/// The name shown for a path: its final component, or the whole path.
fn display_name(path: &String) -> (r: String)
    ensures
        r@ == shown_name(path@),
{
    match path_file_name(path.as_str()) {
        Some(n) => n,
        None => path.clone(),
    }
}

impl FerroApp {
    /// The application as it starts: the saved settings applied, the pane
    /// at `start` (loading), the saved quick-access entries or the defaults
    /// where none were saved, and the drives and cloud folders found.
    pub fn new(
        saved: Saved,
        start: String,
        saved_quick_access: Vec<(String, String)>,
        home: Option<String>,
        downloads: Option<String>,
        desktop: Option<String>,
        drives: Vec<DriveInfo>,
        onedrive_paths: Vec<(String, String)>,
    ) -> (app: Self)
        ensures
            app.main_pane.path == start,
            app.main_pane.back_stack@.len() == 0,
            app.main_pane.forward_stack@.len() == 0,
            app.main_pane.entries@.len() == 0,
            app.main_pane.selection@.len() == 0,
            app.main_pane.cursor == 0,
            app.main_pane.tagged@.len() == 0,
            no_repeats(app.main_pane.selection@) && no_repeats(app.main_pane.tagged@),
            app.main_pane.sort == (Sort { column: SortColumn::Name, ascending: true }),
            app.main_pane.scan_time_ms is None,
            app.main_pane.free_bytes is None,
            app.main_pane.loading,
            app.view_mode == ViewMode::Explorer,
            app.theme == (if saved.theme_dark {
                Theme::Dark
            } else {
                Theme::Light
            }),
            app.accent == Accent::Rust,
            app.tokens == tokens_spec(app.theme, app.accent),
            app.search_text@.len() == 0,
            app.preview_idx is None,
            qa_views(app.quick_access@) == if saved_quick_access@.len() == 0 {
                default_quick_access(home, downloads, desktop)
            } else {
                qa_views(saved_quick_access@)
            },
            app.pending_action is None,
            app.delete_confirm is None,
            app.rename_state is None,
            !app.path_input_open,
            app.path_input_text@.len() == 0,
            !app.path_input_error,
            app.show_hidden == saved.show_hidden,
            app.drives@ == drives@,
            app.onedrive_paths@ == onedrive_paths@,
            !app.settings_open,
            app.font_choice == saved.font,
    {
        let theme = if saved.theme_dark {
            Theme::Dark
        } else {
            Theme::Light
        };
        let accent = Accent::Rust;
        let quick_access = if saved_quick_access.len() == 0 {
            let v = vec![
                ("Home".to_string(), path_or_root(home)),
                ("Downloads".to_string(), path_or_root(downloads)),
                ("Desktop".to_string(), path_or_root(desktop)),
            ];
            assert(qa_views(v@) =~= default_quick_access(home, downloads, desktop));
            v
        } else {
            saved_quick_access
        };
        FerroApp {
            main_pane: PaneState::new(start),
            view_mode: ViewMode::Explorer,
            theme,
            accent,
            tokens: Tokens::new(theme, accent),
            search_text: String::new(),
            preview_idx: None,
            quick_access,
            pending_action: None,
            delete_confirm: None,
            rename_state: None,
            path_input_open: false,
            path_input_text: String::new(),
            path_input_error: false,
            show_hidden: saved.show_hidden,
            drives,
            onedrive_paths,
            settings_open: false,
            font_choice: saved.font,
        }
    }

    /// Moves the pane to `path`, recording the current path for "back",
    /// dropping the "forward" history, the selection, the preview and the
    /// search text, and asks the worker to list `path`.
    pub fn navigate_to(&mut self, path: String) -> (req: FsMsg)
        ensures
            nav_of(*final(self)) == nav_to(nav_of(*old(self)), path),
            final(self).main_pane.loading,
            final(self).main_pane.selection@.len() == 0 && no_repeats(final(self).main_pane.selection@),
            final(self).preview_idx is None,
            final(self).search_text@.len() == 0,
            same_but_place(*old(self), *final(self)),
            req == FsMsg::Request(path),
    {
        let old_path = self.main_pane.path.clone();
        self.main_pane.back_stack.push(old_path);
        self.main_pane.forward_stack = Vec::new();
        self.main_pane.path = path.clone();
        self.main_pane.loading = true;
        self.main_pane.selection = Vec::new();
        self.preview_idx = None;
        self.search_text = String::new();
        assert(self.main_pane.forward_stack@ =~= Seq::<String>::empty());
        FsMsg::Request(path)
    }

    /// Goes back to the previous path, if there is one, and asks the worker
    /// to list it; the path left goes on the "forward" history.
    pub fn navigate_back(&mut self) -> (req: Option<FsMsg>)
        ensures
            nav_of(*final(self)) == nav_back(nav_of(*old(self))),
            old(self).main_pane.back_stack@.len() > 0 ==> {
                &&& final(self).main_pane.loading
                &&& final(self).main_pane.selection@.len() == 0 && no_repeats(final(self).main_pane.selection@)
                &&& final(self).search_text@.len() == 0
                &&& req == Some(FsMsg::Request(final(self).main_pane.path))
            },
            old(self).main_pane.back_stack@.len() == 0 ==> req is None && *final(self) == *old(self),
            final(self).preview_idx == old(self).preview_idx,
            same_but_place(*old(self), *final(self)),
    {
        if self.main_pane.back_stack.len() == 0 {
            return None;
        }
        match self.main_pane.back_stack.pop() {
            Some(prev) => {
                let current = self.main_pane.path.clone();
                self.main_pane.forward_stack.push(current);
                self.main_pane.path = prev.clone();
                self.main_pane.loading = true;
                self.main_pane.selection = Vec::new();
                self.search_text = String::new();
                Some(FsMsg::Request(prev))
            },
            None => None,
        }
    }

    /// Goes forward again, if there is a path to go forward to, and asks
    /// the worker to list it; the path left goes on the "back" history.
    pub fn navigate_forward(&mut self) -> (req: Option<FsMsg>)
        ensures
            nav_of(*final(self)) == nav_forward(nav_of(*old(self))),
            old(self).main_pane.forward_stack@.len() > 0 ==> {
                &&& final(self).main_pane.loading
                &&& final(self).main_pane.selection@.len() == 0 && no_repeats(final(self).main_pane.selection@)
                &&& final(self).search_text@.len() == 0
                &&& req == Some(FsMsg::Request(final(self).main_pane.path))
            },
            old(self).main_pane.forward_stack@.len() == 0 ==> req is None && *final(self) == *old(self),
            final(self).preview_idx == old(self).preview_idx,
            same_but_place(*old(self), *final(self)),
    {
        if self.main_pane.forward_stack.len() == 0 {
            return None;
        }
        match self.main_pane.forward_stack.pop() {
            Some(next) => {
                let current = self.main_pane.path.clone();
                self.main_pane.back_stack.push(current);
                self.main_pane.path = next.clone();
                self.main_pane.loading = true;
                self.main_pane.selection = Vec::new();
                self.search_text = String::new();
                Some(FsMsg::Request(next))
            },
            None => None,
        }
    }

    /// Moves to the parent folder, where there is one (as `navigate_to` does).
    pub fn navigate_up(&mut self) -> (req: Option<FsMsg>)
        ensures
            match req {
                Some(FsMsg::Request(p)) => {
                    &&& nav_of(*final(self)) == nav_to(nav_of(*old(self)), p)
                    &&& p@.len() < old(self).main_pane.path@.len()
                    &&& final(self).main_pane.loading
                    &&& final(self).main_pane.selection@.len() == 0 && no_repeats(final(self).main_pane.selection@)
                    &&& final(self).preview_idx is None
                    &&& final(self).search_text@.len() == 0
                    &&& same_but_place(*old(self), *final(self))
                },
                None => *final(self) == *old(self),
            },
            match parent_of(old(self).main_pane.path@) {
                Some(q) => req matches Some(FsMsg::Request(p)) && p@ == q,
                None => req is None,
            },
            old(self).main_pane.path@.len() == 0 ==> req is None,
    {
        match path_parent(self.main_pane.path.as_str()) {
            Some(parent) => Some(self.navigate_to(parent)),
            None => None,
        }
    }

    /// Lists the current path again.
    pub fn refresh(&mut self) -> (req: FsMsg)
        ensures
            final(self).main_pane.loading,
            req == FsMsg::Request(old(self).main_pane.path),
            *final(self) == (FerroApp {
                main_pane: PaneState { loading: true, ..old(self).main_pane },
                ..*old(self)
            }),
    {
        let path = self.main_pane.path.clone();
        self.main_pane.loading = true;
        FsMsg::Request(path)
    }

    /// Moves the pane to `path` from the sidebar: as `navigate_to`, but the
    /// preview and the search text stay.
    pub fn navigate_left(&mut self, path: String) -> (req: FsMsg)
        ensures
            nav_of(*final(self)) == nav_to(nav_of(*old(self)), path),
            final(self).main_pane.loading,
            final(self).main_pane.selection@.len() == 0 && no_repeats(final(self).main_pane.selection@),
            final(self).preview_idx == old(self).preview_idx,
            final(self).search_text == old(self).search_text,
            same_but_place(*old(self), *final(self)),
            req == FsMsg::Request(path),
    {
        let old_path = self.main_pane.path.clone();
        self.main_pane.back_stack.push(old_path);
        self.main_pane.forward_stack = Vec::new();
        self.main_pane.path = path.clone();
        self.main_pane.loading = true;
        self.main_pane.selection = Vec::new();
        assert(self.main_pane.forward_stack@ =~= Seq::<String>::empty());
        FsMsg::Request(path)
    }

    /// The palette for the current theme and accent.
    pub fn update_tokens(&mut self)
        ensures
            *final(self) == (FerroApp {
                tokens: tokens_spec(old(self).theme, old(self).accent),
                ..*old(self)
            }),
    {
        self.tokens = Tokens::new(self.theme, self.accent);
    }

    /// Takes in what the worker found for a path: where it is the current
    /// path, the pane shows the entries, the scan time and the free space,
    /// and stops loading; a result for a path left meanwhile is dropped.
    pub fn apply_scan_result(&mut self, result: ScanResult)
        ensures
            ({
                let applied = FerroApp {
                    main_pane: PaneState {
                        entries: result.entries,
                        scan_time_ms: Some(result.elapsed_ms),
                        free_bytes: result.free_bytes,
                        loading: false,
                        ..old(self).main_pane
                    },
                    ..*old(self)
                };
                &&& *final(self) == if paths_equal(result.path@, old(self).main_pane.path@) {
                    applied
                } else {
                    *old(self)
                }
                &&& result.path@ == old(self).main_pane.path@ ==> *final(self) == applied
            }),
    {
        if same_path(result.path.as_str(), self.main_pane.path.as_str()) {
            self.main_pane.entries = result.entries;
            self.main_pane.scan_time_ms = Some(result.elapsed_ms);
            self.main_pane.free_bytes = result.free_bytes;
            self.main_pane.loading = false;
        }
    }

    /// Carries out the pending context action (and clears it). `occupied`
    /// tells whether a path is already taken on disk; it is asked only to
    /// name a new file or folder.
    pub fn process_pending_action<F: Fn(&String) -> bool>(&mut self, occupied: &F) -> (out:
        Outcome)
        requires
            forall|s: &String| call_requires(*occupied, (s,)),
        ensures
            final(self).pending_action is None,
            same_lists(*old(self), *final(self)),
            match old(self).pending_action {
                None => out.work == Work::Nothing && out.request is None && *final(self) == (
                FerroApp { pending_action: None, ..*old(self) }),
                Some(ContextAction::Open(p)) => (out.work matches Work::OpenFile { path, name }
                    && path == p && name@ == shown_name(p@)) && out.request is None && *final(self) == (FerroApp {
                    pending_action: None,
                    ..*old(self)
                }),
                Some(ContextAction::CopyPath(p)) => out.work == Work::CopyText(p) && out.request
                    is None && *final(self) == (FerroApp { pending_action: None, ..*old(self) }),
                Some(ContextAction::OpenTerminal(p)) => out.work == Work::OpenTerminal(p)
                    && out.request is None && *final(self) == (FerroApp {
                    pending_action: None,
                    ..*old(self)
                }),
                Some(ContextAction::NewFolder) => {
                    &&& out.work matches Work::CreateDir(target)
                    &&& first_free_path(
                        *occupied,
                        old(self).main_pane.path@,
                        "新しいフォルダー"@,
                        ""@,
                        target@,
                    )
                    &&& final(self).rename_state matches Some((t, n)) && t == target && n@
                        == "新しいフォルダー"@
                    &&& out.request == Some(FsMsg::Request(old(self).main_pane.path))
                    &&& *final(self) == (FerroApp {
                        pending_action: None,
                        rename_state: final(self).rename_state,
                        main_pane: PaneState { loading: true, ..old(self).main_pane },
                        ..*old(self)
                    })
                },
                Some(ContextAction::NewFile(f)) => {
                    &&& out.work matches Work::WriteFile { path, content }
                    &&& first_free_path(
                        *occupied,
                        old(self).main_pane.path@,
                        crate::naming::stem_ext_spec(f@).0,
                        crate::naming::stem_ext_spec(f@).1,
                        path@,
                    )
                    &&& final(self).rename_state matches Some((t, n)) && t == path && n@ == (
                    match file_name_of(path@) {
                        Some(x) => x,
                        None => f@,
                    })
                    &&& content@ == (if crate::naming::stem_ext_spec(f@).1 == "rtf"@ {
                        seq![123u8, 92u8, 114u8, 116u8, 102u8, 49u8, 125u8]
                    } else {
                        Seq::<u8>::empty()
                    })
                    &&& out.request == Some(FsMsg::Request(old(self).main_pane.path))
                    &&& *final(self) == (FerroApp {
                        pending_action: None,
                        rename_state: final(self).rename_state,
                        main_pane: PaneState { loading: true, ..old(self).main_pane },
                        ..*old(self)
                    })
                },
                Some(ContextAction::Delete(paths)) => out.work == Work::Nothing && out.request
                    is None && *final(self) == (FerroApp {
                    pending_action: None,
                    delete_confirm: Some(paths),
                    ..*old(self)
                }),
                Some(ContextAction::Rename(p)) => out.work == Work::Nothing && out.request is None
                    && (final(self).rename_state matches Some((t, n)) && t == p && n@ == name_or_empty(p@))
                    && *final(self)
                    == (FerroApp {
                    pending_action: None,
                    rename_state: final(self).rename_state,
                    ..*old(self)
                }),
                Some(ContextAction::AddQuickAccess(p)) => {
                    &&& out.request is None
                    &&& *final(self) == (FerroApp {
                        pending_action: None,
                        quick_access: final(self).quick_access,
                        ..*old(self)
                    })
                    &&& if exists|i: int|
                        0 <= i < old(self).quick_access@.len() && paths_equal(
                            #[trigger] old(self).quick_access@[i].1@,
                            p@,
                        ) {
                        final(self).quick_access@ == old(self).quick_access@ && out.work
                            == Work::Nothing
                    } else {
                        &&& final(self).quick_access@.len() == old(self).quick_access@.len() + 1
                        &&& final(self).quick_access@.drop_last() == old(self).quick_access@
                        &&& final(self).quick_access@.last().1 == p
                        &&& final(self).quick_access@.last().0@ == shown_name(p@)
                        &&& out.work matches Work::SaveQuickAccess(t) && t@ == qa_text(
                            qa_views(final(self).quick_access@),
                        )
                    }
                    &&& (exists|i: int|
                        0 <= i < old(self).quick_access@.len() && old(self).quick_access@[i].1@
                            == p@) ==> final(self).quick_access@ == old(self).quick_access@
                },
                Some(ContextAction::RemoveQuickAccess(idx)) => {
                    &&& out.request is None
                    &&& *final(self) == (FerroApp {
                        pending_action: None,
                        quick_access: final(self).quick_access,
                        ..*old(self)
                    })
                    &&& if idx < old(self).quick_access@.len() {
                        &&& final(self).quick_access@ == old(self).quick_access@.remove(idx as int)
                        &&& out.work matches Work::SaveQuickAccess(t) && t@ == qa_text(
                            qa_views(final(self).quick_access@),
                        )
                    } else {
                        final(self).quick_access@ == old(self).quick_access@ && out.work
                            == Work::Nothing
                    }
                },
                Some(ContextAction::Refresh) => out.work == Work::Nothing && out.request == Some(
                    FsMsg::Request(old(self).main_pane.path),
                ) && *final(self) == (FerroApp {
                    pending_action: None,
                    main_pane: PaneState { loading: true, ..old(self).main_pane },
                    ..*old(self)
                }),
            },
    {
        let action = self.pending_action.take();
        match action {
            None => Outcome { work: Work::Nothing, request: None },
            Some(ContextAction::Open(path)) => {
                let name = display_name(&path);
                Outcome { work: Work::OpenFile { path, name }, request: None }
            },
            Some(ContextAction::CopyPath(path)) => Outcome {
                work: Work::CopyText(path),
                request: None,
            },
            Some(ContextAction::OpenTerminal(path)) => Outcome {
                work: Work::OpenTerminal(path),
                request: None,
            },
            Some(ContextAction::NewFolder) => {
                let base = "新しいフォルダー";
                let target = unique_path(self.main_pane.path.as_str(), base, "", occupied);
                let req = self.refresh();
                self.rename_state = Some((target.clone(), base.to_string()));
                Outcome { work: Work::CreateDir(target), request: Some(req) }
            },
            Some(ContextAction::NewFile(filename)) => {
                let (stem, ext) = split_stem_ext(filename.as_str());
                let target = unique_path(
                    self.main_pane.path.as_str(),
                    stem.as_str(),
                    ext.as_str(),
                    occupied,
                );
                let content = new_file_content(ext.as_str());
                let req = self.refresh();
                let shown = match path_file_name(target.as_str()) {
                    Some(n) => n,
                    None => filename,
                };
                self.rename_state = Some((target.clone(), shown));
                Outcome { work: Work::WriteFile { path: target, content }, request: Some(req) }
            },
            Some(ContextAction::Delete(paths)) => {
                self.delete_confirm = Some(paths);
                Outcome { work: Work::Nothing, request: None }
            },
            Some(ContextAction::Rename(path)) => {
                let name = match path_file_name(path.as_str()) {
                    Some(n) => n,
                    None => String::new(),
                };
                self.rename_state = Some((path, name));
                Outcome { work: Work::Nothing, request: None }
            },
            Some(ContextAction::AddQuickAccess(path)) => {
                let name = display_name(&path);
                let n = self.quick_access.len();
                let mut found = false;
                for i in 0..n
                    invariant
                        n == self.quick_access.len(),
                        self.quick_access == old(self).quick_access,
                        found <==> exists|j: int|
                            0 <= j < i && paths_equal(#[trigger] self.quick_access@[j].1@, path@),
                        (exists|j: int| 0 <= j < i && #[trigger] self.quick_access@[j].1@ == path@)
                            ==> found,
                {
                    if !found && same_path(self.quick_access[i].1.as_str(), path.as_str()) {
                        found = true;
                    }
                }
                if !found {
                    self.quick_access.push((name, path));
                    let text = quick_access_text(&self.quick_access);
                    Outcome { work: Work::SaveQuickAccess(text), request: None }
                } else {
                    Outcome { work: Work::Nothing, request: None }
                }
            },
            Some(ContextAction::RemoveQuickAccess(idx)) => {
                if idx < self.quick_access.len() {
                    self.quick_access.remove(idx);
                    let text = quick_access_text(&self.quick_access);
                    Outcome { work: Work::SaveQuickAccess(text), request: None }
                } else {
                    Outcome { work: Work::Nothing, request: None }
                }
            },
            Some(ContextAction::Refresh) => {
                let req = self.refresh();
                Outcome { work: Work::Nothing, request: Some(req) }
            },
        }
    }
}

/// The question of the delete dialog for `count` items.
pub open spec fn delete_many_prompt(count: nat) -> Seq<char> {
    crate::text::decimal(count) + "個のアイテムを削除しますか？"@
}

/// The question of the delete dialog for one item named `name`.
pub open spec fn delete_one_prompt(name: Seq<char>) -> Seq<char> {
    "「"@ + name + "」を削除しますか？"@
}

impl FerroApp {
    /// The question the delete dialog asks, while it is open: the item's
    /// name for one item, their number otherwise.
    pub fn delete_prompt(&self) -> (r: Option<String>)
        ensures
            match self.delete_confirm {
                None => r is None,
                Some(paths) => if paths@.len() == 1 {
                    r matches Some(t) && t@ == delete_one_prompt(name_or_empty(paths@[0]@))
                } else {
                    r matches Some(t) && t@ == delete_many_prompt(paths@.len())
                },
            },
    {
        match &self.delete_confirm {
            None => None,
            Some(paths) => {
                let mut v: Vec<char> = Vec::new();
                if paths.len() == 1 {
                    let name = match path_file_name(paths[0].as_str()) {
                        Some(n) => n,
                        None => String::new(),
                    };
                    crate::text::push_str(&mut v, "「");
                    crate::text::push_str(&mut v, name.as_str());
                    crate::text::push_str(&mut v, "」を削除しますか？");
                    assert(v@ =~= delete_one_prompt(name@));
                } else {
                    crate::text::push_decimal(&mut v, paths.len() as u64);
                    crate::text::push_str(&mut v, "個のアイテムを削除しますか？");
                    assert(v@ =~= delete_many_prompt(paths@.len()));
                }
                Some(string_of(&v))
            },
        }
    }

    /// Confirms the delete dialog: it closes, the selection is dropped and
    /// the folder is listed again; the paths to delete are handed back with
    /// the request (the shell deletes them before sending it).
    pub fn confirm_delete(&mut self) -> (r: Option<(Vec<String>, FsMsg)>)
        ensures
            match old(self).delete_confirm {
                None => r is None && *final(self) == *old(self),
                Some(paths) => {
                    &&& r matches Some((ps, req)) && ps == paths && req == FsMsg::Request(
                        old(self).main_pane.path,
                    )
                    &&& *final(self) == (FerroApp {
                        delete_confirm: None,
                        main_pane: PaneState {
                            selection: final(self).main_pane.selection,
                            loading: true,
                            ..old(self).main_pane
                        },
                        ..*old(self)
                    })
                    &&& final(self).main_pane.selection@.len() == 0 && no_repeats(final(self).main_pane.selection@)
                },
            },
    {
        match self.delete_confirm.take() {
            None => None,
            Some(paths) => {
                self.main_pane.selection = Vec::new();
                let req = self.refresh();
                Some((paths, req))
            },
        }
    }

    /// Closes the delete dialog without deleting.
    pub fn cancel_delete(&mut self)
        ensures
            *final(self) == (FerroApp { delete_confirm: None, ..*old(self) }),
    {
        self.delete_confirm = None;
    }

    /// Opens the path dialog with the current path in it.
    pub fn open_path_input(&mut self)
        ensures
            *final(self) == (FerroApp {
                path_input_text: old(self).main_pane.path,
                path_input_error: false,
                path_input_open: true,
                ..*old(self)
            }),
    {
        self.path_input_text = self.main_pane.path.clone();
        self.path_input_error = false;
        self.path_input_open = true;
    }

    /// The path the dialog's text names: the text without outer whitespace.
    pub fn path_input_target(&self) -> (r: String)
        ensures
            r@ == trim_spec(self.path_input_text@),
    {
        let t = trim(&chars_of(self.path_input_text.as_str()));
        string_of(&t)
    }

    /// Submits the path dialog, `kind` being what its target names on disk:
    /// a folder is moved to, a file is opened, and for nothing the dialog
    /// stays open and shows the error.
    pub fn submit_path_input(&mut self, kind: PathKind) -> (r: PathSubmit)
        ensures
            ({
                let target = trim_spec(old(self).path_input_text@);
                match kind {
                    PathKind::Dir => r matches PathSubmit::Navigate(FsMsg::Request(p)) && p@
                        == target && !final(self).path_input_open && nav_of(*final(self)) == nav_to(
                        nav_of(*old(self)),
                        p,
                    ) && final(self).main_pane.loading && final(self).main_pane.selection@.len()
                        == 0 && final(self).preview_idx is None && final(self).search_text@.len()
                        == 0 && same_but_place(
                        FerroApp { path_input_open: false, ..*old(self) },
                        *final(self),
                    ),
                    PathKind::File => r matches PathSubmit::OpenFile(p) && p@ == target
                        && *final(self) == (FerroApp { path_input_open: false, ..*old(self) }),
                    PathKind::Missing => r is Invalid && *final(self) == (FerroApp {
                        path_input_error: true,
                        ..*old(self)
                    }),
                }
            }),
    {
        let target = self.path_input_target();
        match kind {
            PathKind::Dir => {
                self.path_input_open = false;
                PathSubmit::Navigate(self.navigate_to(target))
            },
            PathKind::File => {
                self.path_input_open = false;
                PathSubmit::OpenFile(target)
            },
            PathKind::Missing => {
                self.path_input_error = true;
                PathSubmit::Invalid
            },
        }
    }

    /// Closes the path dialog.
    pub fn close_path_input(&mut self)
        ensures
            *final(self) == (FerroApp { path_input_open: false, ..*old(self) }),
    {
        self.path_input_open = false;
    }

    /// Chooses a theme in the settings panel; the palette follows. Returns
    /// whether anything changed (choosing the current theme changes nothing).
    pub fn select_theme(&mut self, theme: Theme) -> (changed: bool)
        ensures
            changed == (theme != old(self).theme),
            changed ==> *final(self) == (FerroApp {
                theme,
                tokens: tokens_spec(theme, old(self).accent),
                ..*old(self)
            }),
            !changed ==> *final(self) == *old(self),
    {
        if self.theme != theme {
            self.theme = theme;
            self.update_tokens();
            true
        } else {
            false
        }
    }

    /// Switches hidden files on or off in the settings panel; the selection
    /// is dropped.
    pub fn set_show_hidden(&mut self, show: bool)
        ensures
            *final(self) == (FerroApp {
                show_hidden: show,
                main_pane: PaneState { selection: final(self).main_pane.selection, ..old(self).main_pane },
                ..*old(self)
            }),
            final(self).main_pane.selection@.len() == 0 && no_repeats(final(self).main_pane.selection@),
    {
        self.show_hidden = show;
        self.main_pane.selection = Vec::new();
    }

    /// Chooses a font in the settings panel. Returns whether it changed.
    pub fn select_font(&mut self, font: FontChoice) -> (changed: bool)
        ensures
            changed == (font != old(self).font_choice),
            *final(self) == (FerroApp { font_choice: font, ..*old(self) }),
    {
        let changed = self.font_choice != font;
        self.font_choice = font;
        changed
    }

    /// The text of the settings file for the current settings.
    pub fn settings_file_text(&self) -> (r: String)
        ensures
            r@ == settings_text_spec(self.theme == Theme::Dark, self.show_hidden, self.font_choice),
    {
        settings_text(self.theme == Theme::Dark, self.show_hidden, &self.font_choice)
    }

    /// One frame of the settings panel: a new theme is taken with its
    /// palette, a changed hidden-files box is taken and drops the selection,
    /// a new font is taken, and the close button closes the panel. The
    /// settings file is written once, with the new settings, exactly where
    /// one of them changed.
    #[verifier::rlimit(40)]
    pub fn settings_step(&mut self, input: SettingsInput) -> (r: SettingsStep)
        ensures
            final(self).theme == (if theme_changes(*old(self), input) {
                input.theme.unwrap()
            } else {
                old(self).theme
            }),
            final(self).tokens == (if theme_changes(*old(self), input) {
                tokens_spec(input.theme.unwrap(), old(self).accent)
            } else {
                old(self).tokens
            }),
            final(self).show_hidden == (match input.show_hidden {
                Some(h) => h,
                None => old(self).show_hidden,
            }),
            final(self).main_pane == (if input.show_hidden is Some {
                PaneState { selection: final(self).main_pane.selection, ..old(self).main_pane }
            } else {
                old(self).main_pane
            }),
            input.show_hidden is Some ==> final(self).main_pane.selection@.len() == 0 && no_repeats(
                final(self).main_pane.selection@,
            ),
            final(self).font_choice == (if font_changes(*old(self), input) {
                input.font.unwrap()
            } else {
                old(self).font_choice
            }),
            final(self).settings_open == (old(self).settings_open && !input.close),
            *final(self) == (FerroApp {
                theme: final(self).theme,
                tokens: final(self).tokens,
                show_hidden: final(self).show_hidden,
                main_pane: final(self).main_pane,
                font_choice: final(self).font_choice,
                settings_open: final(self).settings_open,
                ..*old(self)
            }),
            r.font_changed == font_changes(*old(self), input),
            r.save is Some == settings_changed(*old(self), input),
            r.save matches Some(t) ==> t@ == settings_text_spec(
                final(self).theme == Theme::Dark,
                final(self).show_hidden,
                final(self).font_choice,
            ),
    {
        let ghost a0 = *self;
        let mut changed = false;
        match input.theme {
            Some(t) => {
                if self.select_theme(t) {
                    changed = true;
                }
            },
            None => {},
        }
        let ghost a1 = *self;
        assert(changed == theme_changes(a0, input));
        assert(a1 == (FerroApp { theme: a1.theme, tokens: a1.tokens, ..a0 }));
        match input.show_hidden {
            Some(h) => {
                self.set_show_hidden(h);
                changed = true;
            },
            None => {},
        }
        let ghost a2 = *self;
        assert(a2 == (FerroApp { show_hidden: a2.show_hidden, main_pane: a2.main_pane, ..a1 }));
        let mut font_changed = false;
        match input.font {
            Some(f) => {
                if self.select_font(f) {
                    font_changed = true;
                    changed = true;
                }
            },
            None => {},
        }
        if input.close {
            self.settings_open = false;
        }
        let save = if changed {
            Some(self.settings_file_text())
        } else {
            None
        };
        SettingsStep { font_changed, save }
    }

    /// A double click on an entry: a folder is moved into, anything else is
    /// to be opened.
    pub fn activate_entry(&mut self, entry: &Entry) -> (r: Activation)
        ensures
            entry.kind == EntryKind::Dir ==> r == Activation::Navigate(FsMsg::Request(entry.path))
                && nav_of(*final(self)) == nav_to(nav_of(*old(self)), entry.path)
                && final(self).main_pane.loading && final(self).main_pane.selection@.len() == 0 && no_repeats(final(self).main_pane.selection@)
                && final(self).preview_idx is None && final(self).search_text@.len() == 0
                && same_but_place(*old(self), *final(self)),
            entry.kind != EntryKind::Dir ==> r == Activation::OpenFile(entry.path) && *final(self)
                == *old(self),
    {
        if entry.kind == EntryKind::Dir {
            Activation::Navigate(self.navigate_to(entry.path.clone()))
        } else {
            Activation::OpenFile(entry.path.clone())
        }
    }

    /// The entry the preview panel shows: the one at the preview index among
    /// all entries of the pane.
    pub fn preview_entry(&self) -> (r: Option<Entry>)
        ensures
            match self.preview_idx {
                Some(i) => if i < self.main_pane.entries@.len() {
                    r == Some(self.main_pane.entries@[i as int])
                } else {
                    r is None
                },
                None => r is None,
            },
    {
        match self.preview_idx {
            Some(i) => if i < self.main_pane.entries.len() {
                Some(self.main_pane.entries[i].duplicate())
            } else {
                None
            },
            None => None,
        }
    }
}


/// Going back right after moving to a path returns to where the pane was,
/// with the back history as it was and the path left as the only "forward".
pub proof fn lemma_back_undoes_navigate(n: NavView, p: String)
    ensures
        nav_back(nav_to(n, p)) == (n.0, n.1, seq![p]),
{
    let m = nav_to(n, p);
    assert(m.1.drop_last() =~= n.1);
    assert(m.2.push(p) =~= seq![p]);
}

/// Going forward right after going back restores the navigation state.
pub proof fn lemma_forward_undoes_back(n: NavView)
    requires
        n.1.len() > 0,
    ensures
        nav_forward(nav_back(n)) == n,
{
    let m = nav_back(n);
    assert(m.1.push(m.0) =~= n.1);
    assert(m.2.drop_last() =~= n.2);
}

/// Going back right after going forward restores the navigation state.
pub proof fn lemma_back_undoes_forward(n: NavView)
    requires
        n.2.len() > 0,
    ensures
        nav_back(nav_forward(n)) == n,
{
    let m = nav_forward(n);
    assert(m.1.drop_last() =~= n.1);
    assert(m.2.push(m.0) =~= n.2);
}

/// Going back or forward keeps the number of places in the history; moving
/// to a new path drops the forward history and adds one place behind.
pub proof fn lemma_history_size(n: NavView, p: String)
    ensures
        nav_back(n).1.len() + nav_back(n).2.len() == n.1.len() + n.2.len(),
        nav_forward(n).1.len() + nav_forward(n).2.len() == n.1.len() + n.2.len(),
        nav_to(n, p).1.len() == n.1.len() + 1,
        nav_to(n, p).2.len() == 0,
{
}

} // verus!
