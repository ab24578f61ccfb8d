use filox::app::{Activation, ContextAction, FerroApp, PathKind, PathSubmit, SettingsInput, Work};
use filox::entry::{Entry, EntryKind};
use filox::fs::{FsMsg, ScanResult};
use filox::settings::{FontChoice, Saved};
use filox::state::ViewMode;
use filox::theme::{Accent, Theme, Tokens};

fn app_at(path: &str) -> FerroApp {
    FerroApp::new(
        Saved::default(),
        path.to_string(),
        Vec::new(),
        Some("/home/u".to_string()),
        None,
        Some("/home/u/Desktop".to_string()),
        Vec::new(),
        Vec::new(),
    )
}

fn requested(m: FsMsg) -> String {
    match m {
        FsMsg::Request(p) => p,
    }
}

fn entry(name: &str, kind: EntryKind, size: Option<u64>, hidden: bool) -> Entry {
    Entry {
        name: name.to_string(),
        path: format!("/d/{name}"),
        kind,
        size,
        modified: None,
        is_hidden: hidden,
        is_cloud_only: false,
    }
}

#[test]
fn new_app_state() {
    let app = app_at("/start");
    assert_eq!(app.main_pane.path, "/start");
    assert!(app.main_pane.loading);
    assert_eq!(app.view_mode, ViewMode::Explorer);
    assert_eq!(app.theme, Theme::Dark);
    assert_eq!(app.accent, Accent::Rust);
    assert_eq!(app.tokens, Tokens::new(Theme::Dark, Accent::Rust));
    assert_eq!(app.font_choice, FontChoice::NotoSansJp);
    assert_eq!(
        app.quick_access,
        vec![
            ("Home".to_string(), "/home/u".to_string()),
            ("Downloads".to_string(), "C:\\".to_string()),
            ("Desktop".to_string(), "/home/u/Desktop".to_string()),
        ]
    );
    let saved = vec![("x".to_string(), "/x".to_string())];
    let light = Saved { theme_dark: false, show_hidden: true, font: FontChoice::MsGothic };
    let app = FerroApp::new(light, "/".to_string(), saved.clone(), None, None, None, Vec::new(), Vec::new());
    assert_eq!(app.quick_access, saved);
    assert_eq!(app.theme, Theme::Light);
    assert!(app.show_hidden);
}

#[test]
fn back_and_forward_restore_places() {
    let mut app = app_at("/a");
    assert_eq!(requested(app.navigate_to("/a/b".to_string())), "/a/b");
    assert_eq!(requested(app.navigate_to("/a/b/c".to_string())), "/a/b/c");
    assert_eq!(app.main_pane.back_stack, vec!["/a".to_string(), "/a/b".to_string()]);
    assert!(app.main_pane.forward_stack.is_empty());

    assert_eq!(requested(app.navigate_back().unwrap()), "/a/b");
    assert_eq!(app.main_pane.path, "/a/b");
    assert_eq!(app.main_pane.forward_stack, vec!["/a/b/c".to_string()]);

    assert_eq!(requested(app.navigate_forward().unwrap()), "/a/b/c");
    assert_eq!(app.main_pane.path, "/a/b/c");
    assert_eq!(app.main_pane.back_stack, vec!["/a".to_string(), "/a/b".to_string()]);
    assert!(app.main_pane.forward_stack.is_empty());
    assert!(app.navigate_forward().is_none());
}

#[test]
fn navigate_to_drops_forward_history_and_search() {
    let mut app = app_at("/a");
    app.navigate_to("/b".to_string());
    app.navigate_back();
    assert_eq!(app.main_pane.forward_stack.len(), 1);
    app.search_text = "query".to_string();
    app.preview_idx = Some(3);
    app.main_pane.selection = vec![1, 2];
    app.navigate_to("/c".to_string());
    assert!(app.main_pane.forward_stack.is_empty());
    assert!(app.search_text.is_empty());
    assert_eq!(app.preview_idx, None);
    assert!(app.main_pane.selection.is_empty());
    // going back and forward clear the search text too
    app.search_text = "q".to_string();
    app.navigate_back();
    assert!(app.search_text.is_empty());
    assert_eq!(app.main_pane.path, "/a");
    app.search_text = "r".to_string();
    app.navigate_forward();
    assert!(app.search_text.is_empty());
    assert_eq!(app.main_pane.path, "/c");
    // with no history nothing changes, the search text included
    app.search_text = "s".to_string();
    assert!(app.navigate_forward().is_none());
    assert_eq!(app.search_text, "s");
}

#[test]
fn back_without_history_does_nothing() {
    let mut app = app_at("/a");
    assert!(app.navigate_back().is_none());
    assert_eq!(app.main_pane.path, "/a");
    assert!(app.main_pane.forward_stack.is_empty());
}

#[test]
fn navigate_up_goes_to_parent() {
    let mut app = app_at("/a/b/c");
    assert_eq!(requested(app.navigate_up().unwrap()), "/a/b");
    assert_eq!(app.main_pane.path, "/a/b");
    let mut app = app_at("/");
    assert!(app.navigate_up().is_none());
    assert_eq!(app.main_pane.path, "/");
    let mut app = app_at("");
    assert!(app.navigate_up().is_none());
}

#[test]
fn navigate_up_on_relative_paths() {
    let mut app = app_at("docs/notes");
    assert_eq!(requested(app.navigate_up().unwrap()), "docs");
    assert_eq!(requested(app.navigate_up().unwrap()), "");
    assert!(app.navigate_up().is_none());
    assert_eq!(app.main_pane.back_stack, vec!["docs/notes".to_string(), "docs".to_string()]);
}

#[test]
fn navigate_left_keeps_preview() {
    let mut app = app_at("/a");
    app.preview_idx = Some(1);
    app.search_text = "s".to_string();
    assert_eq!(requested(app.navigate_left("/b".to_string())), "/b");
    assert_eq!(app.preview_idx, Some(1));
    assert_eq!(app.search_text, "s");
    assert_eq!(app.main_pane.back_stack, vec!["/a".to_string()]);
}

#[test]
fn refresh_requests_current_path() {
    let mut app = app_at("/a");
    app.main_pane.loading = false;
    assert_eq!(requested(app.refresh()), "/a");
    assert!(app.main_pane.loading);
}

#[test]
fn scan_results_for_the_current_path_are_shown() {
    let mut app = app_at("/a");
    app.apply_scan_result(ScanResult {
        path: "/other".to_string(),
        entries: vec![entry("x", EntryKind::File, Some(1), false)],
        elapsed_ms: 5,
        free_bytes: Some(9),
    });
    assert!(app.main_pane.loading);
    assert!(app.main_pane.entries.is_empty());
    app.apply_scan_result(ScanResult {
        path: "/a".to_string(),
        entries: vec![entry("x", EntryKind::File, Some(1), false)],
        elapsed_ms: 5,
        free_bytes: Some(9),
    });
    assert!(!app.main_pane.loading);
    assert_eq!(app.main_pane.entries.len(), 1);
    assert_eq!(app.main_pane.scan_time_ms, Some(5));
    assert_eq!(app.main_pane.free_bytes, Some(9));
}

#[test]
fn scan_results_match_the_path_not_its_text() {
    let mut app = app_at("/a/b");
    app.apply_scan_result(ScanResult {
        path: "/a/b/".to_string(),
        entries: vec![entry("x", EntryKind::File, Some(1), false)],
        elapsed_ms: 7,
        free_bytes: None,
    });
    assert!(!app.main_pane.loading);
    assert_eq!(app.main_pane.scan_time_ms, Some(7));
    let mut app = app_at("/a/b");
    app.apply_scan_result(ScanResult {
        path: "/a".to_string(),
        entries: vec![entry("x", EntryKind::File, Some(1), false)],
        elapsed_ms: 7,
        free_bytes: None,
    });
    assert!(app.main_pane.loading);
    assert_eq!(app.main_pane.scan_time_ms, None);
}

#[test]
fn pending_actions() {
    let never = |_p: &String| false;
    let mut app = app_at("/a");
    let out = app.process_pending_action(&never);
    assert!(matches!(out.work, Work::Nothing));
    assert!(out.request.is_none());

    app.pending_action = Some(ContextAction::Open("/a/file.txt".to_string()));
    let out = app.process_pending_action(&never);
    match out.work {
        Work::OpenFile { path, name } => {
            assert_eq!(path, "/a/file.txt");
            assert_eq!(name, "file.txt");
        }
        _ => panic!("expected OpenFile"),
    }
    assert!(app.pending_action.is_none());

    app.pending_action = Some(ContextAction::CopyPath("/a/x".to_string()));
    assert!(matches!(app.process_pending_action(&never).work, Work::CopyText(p) if p == "/a/x"));

    app.pending_action = Some(ContextAction::OpenTerminal("/a/x".to_string()));
    assert!(matches!(app.process_pending_action(&never).work, Work::OpenTerminal(p) if p == "/a/x"));

    app.pending_action = Some(ContextAction::Delete(vec!["/a/1".to_string(), "/a/2".to_string()]));
    app.process_pending_action(&never);
    assert_eq!(app.delete_confirm, Some(vec!["/a/1".to_string(), "/a/2".to_string()]));

    app.pending_action = Some(ContextAction::Rename("/a/old.txt".to_string()));
    app.process_pending_action(&never);
    assert_eq!(app.rename_state, Some(("/a/old.txt".to_string(), "old.txt".to_string())));

    app.main_pane.loading = false;
    app.pending_action = Some(ContextAction::Refresh);
    let out = app.process_pending_action(&never);
    assert_eq!(requested(out.request.unwrap()), "/a");
    assert!(app.main_pane.loading);
}

#[test]
fn new_folder_and_file_get_free_names() {
    let taken = |p: &String| p == "/a/新しいフォルダー" || p == "/a/doc.rtf";
    let mut app = app_at("/a");
    app.pending_action = Some(ContextAction::NewFolder);
    let out = app.process_pending_action(&taken);
    assert!(matches!(out.work, Work::CreateDir(ref t) if t == "/a/新しいフォルダー (2)"));
    assert_eq!(requested(out.request.unwrap()), "/a");
    assert_eq!(
        app.rename_state,
        Some(("/a/新しいフォルダー (2)".to_string(), "新しいフォルダー".to_string()))
    );

    app.pending_action = Some(ContextAction::NewFile("doc.rtf".to_string()));
    let out = app.process_pending_action(&taken);
    match out.work {
        Work::WriteFile { path, content } => {
            assert_eq!(path, "/a/doc (2).rtf");
            assert_eq!(content, b"{\\rtf1}".to_vec());
        }
        _ => panic!("expected WriteFile"),
    }
    assert_eq!(app.rename_state, Some(("/a/doc (2).rtf".to_string(), "doc (2).rtf".to_string())));

    app.pending_action = Some(ContextAction::NewFile("notes.txt".to_string()));
    match app.process_pending_action(&taken).work {
        Work::WriteFile { path, content } => {
            assert_eq!(path, "/a/notes.txt");
            assert!(content.is_empty());
        }
        _ => panic!("expected WriteFile"),
    }
}

#[test]
fn quick_access_add_and_remove() {
    let never = |_p: &String| false;
    let mut app = app_at("/a");
    let before = app.quick_access.clone();
    app.pending_action = Some(ContextAction::AddQuickAccess("/home/u".to_string()));
    assert!(matches!(app.process_pending_action(&never).work, Work::Nothing));
    assert_eq!(app.quick_access, before);

    app.pending_action = Some(ContextAction::AddQuickAccess("/a/proj".to_string()));
    match app.process_pending_action(&never).work {
        Work::SaveQuickAccess(text) => assert_eq!(
            text,
            "Home\t/home/u\nDownloads\tC:\\\nDesktop\t/home/u/Desktop\nproj\t/a/proj\n"
        ),
        _ => panic!("expected SaveQuickAccess"),
    }
    assert_eq!(app.quick_access.len(), 4);
    assert_eq!(app.quick_access[3], ("proj".to_string(), "/a/proj".to_string()));

    // the same folder written with a trailing separator is no new entry
    app.pending_action = Some(ContextAction::AddQuickAccess("/a/proj/".to_string()));
    assert!(matches!(app.process_pending_action(&never).work, Work::Nothing));
    assert_eq!(app.quick_access.len(), 4);

    app.pending_action = Some(ContextAction::RemoveQuickAccess(0));
    assert!(matches!(app.process_pending_action(&never).work, Work::SaveQuickAccess(_)));
    assert_eq!(app.quick_access[0].0, "Downloads");
    app.pending_action = Some(ContextAction::RemoveQuickAccess(10));
    assert!(matches!(app.process_pending_action(&never).work, Work::Nothing));
    assert_eq!(app.quick_access.len(), 3);
}

#[test]
fn delete_dialog() {
    let mut app = app_at("/a");
    assert!(app.delete_prompt().is_none());
    assert!(app.confirm_delete().is_none());
    app.delete_confirm = Some(vec!["/a/report.pdf".to_string()]);
    assert_eq!(app.delete_prompt().unwrap(), "「report.pdf」を削除しますか？");
    app.delete_confirm = Some(vec!["/a/1".to_string(), "/a/2".to_string(), "/a/3".to_string()]);
    assert_eq!(app.delete_prompt().unwrap(), "3個のアイテムを削除しますか？");
    app.main_pane.selection = vec![0, 1];
    let (paths, req) = app.confirm_delete().unwrap();
    assert_eq!(paths.len(), 3);
    assert_eq!(requested(req), "/a");
    assert!(app.delete_confirm.is_none());
    assert!(app.main_pane.selection.is_empty());
    app.delete_confirm = Some(vec![]);
    app.cancel_delete();
    assert!(app.delete_confirm.is_none());
}

#[test]
fn path_dialog() {
    let mut app = app_at("/a");
    app.open_path_input();
    assert!(app.path_input_open);
    assert_eq!(app.path_input_text, "/a");
    app.path_input_text = "  /missing \n".to_string();
    assert_eq!(app.path_input_target(), "/missing");
    assert!(matches!(app.submit_path_input(PathKind::Missing), PathSubmit::Invalid));
    assert!(app.path_input_open);
    assert!(app.path_input_error);
    app.path_input_text = " /b ".to_string();
    match app.submit_path_input(PathKind::Dir) {
        PathSubmit::Navigate(m) => assert_eq!(requested(m), "/b"),
        _ => panic!("expected Navigate"),
    }
    assert!(!app.path_input_open);
    assert_eq!(app.main_pane.path, "/b");
    app.open_path_input();
    assert!(!app.path_input_error);
    app.path_input_text = "/b/f.txt".to_string();
    assert!(matches!(app.submit_path_input(PathKind::File), PathSubmit::OpenFile(p) if p == "/b/f.txt"));
    assert!(!app.path_input_open);
    app.open_path_input();
    app.close_path_input();
    assert!(!app.path_input_open);
}

#[test]
fn settings_panel() {
    let mut app = app_at("/a");
    assert!(!app.select_theme(Theme::Dark));
    assert!(app.select_theme(Theme::Light));
    assert_eq!(app.tokens, Tokens::new(Theme::Light, Accent::Rust));
    app.main_pane.selection = vec![2];
    app.set_show_hidden(true);
    assert!(app.show_hidden);
    assert!(app.main_pane.selection.is_empty());
    assert!(app.select_font(FontChoice::YuGothic));
    assert!(!app.select_font(FontChoice::YuGothic));
    assert_eq!(app.settings_file_text(), "theme=light\nshow_hidden=true\nfont=yugothic\n");
}

#[test]
fn activation_and_preview() {
    let mut app = app_at("/d");
    let dir = entry("sub", EntryKind::Dir, None, false);
    match app.activate_entry(&dir) {
        Activation::Navigate(m) => assert_eq!(requested(m), "/d/sub"),
        _ => panic!("expected Navigate"),
    }
    assert_eq!(app.main_pane.path, "/d/sub");
    let f = entry("f.txt", EntryKind::File, Some(3), false);
    assert!(matches!(app.activate_entry(&f), Activation::OpenFile(p) if p == "/d/f.txt"));
    assert_eq!(app.main_pane.path, "/d/sub");

    app.main_pane.entries = vec![f.duplicate(), dir.duplicate()];
    assert!(app.preview_entry().is_none());
    app.preview_idx = Some(1);
    assert_eq!(app.preview_entry().unwrap().name, "sub");
    app.preview_idx = Some(2);
    assert!(app.preview_entry().is_none());
}

fn panel(theme: Option<Theme>, show_hidden: Option<bool>, font: Option<FontChoice>, close: bool) -> SettingsInput {
    SettingsInput { theme, show_hidden, font, close }
}

#[test]
fn settings_panel_saves_exactly_when_something_changed() {
    let mut app = app_at("/a");
    app.settings_open = true;
    let dark = app.theme == Theme::Dark;
    // clicking the current theme and font changes nothing and saves nothing
    let current = app.theme;
    let font = app.font_choice;
    let step = app.settings_step(panel(Some(current), None, Some(font), false));
    assert!(step.save.is_none());
    assert!(!step.font_changed);
    assert!(app.settings_open);
    // a new theme is saved with its palette
    let other = if dark { Theme::Light } else { Theme::Dark };
    let step = app.settings_step(panel(Some(other), None, None, false));
    assert_eq!(app.theme, other);
    assert_eq!(app.tokens, Tokens::new(other, app.accent));
    assert_eq!(step.save, Some(app.settings_file_text()));
    // the hidden-files box drops the selection and is saved
    app.main_pane.selection = vec![0, 2];
    let step = app.settings_step(panel(None, Some(true), None, false));
    assert!(app.show_hidden);
    assert!(app.main_pane.selection.is_empty());
    assert!(step.save.unwrap().contains("show_hidden=true"));
    // a new font asks for the fonts again; closing closes
    let step = app.settings_step(panel(None, None, Some(FontChoice::IbmPlexSans), true));
    assert!(step.font_changed);
    assert_eq!(app.font_choice, FontChoice::IbmPlexSans);
    assert!(step.save.is_some());
    assert!(!app.settings_open);
}

#[test]
fn a_new_app_starts_with_a_fresh_pane() {
    let app = app_at("/a");
    assert_eq!(app.main_pane.cursor, 0);
    assert!(app.main_pane.tagged.is_empty());
    assert_eq!(app.main_pane.scan_time_ms, None);
    assert_eq!(app.main_pane.free_bytes, None);
}

#[test]
fn new_items_leave_the_rest_of_the_state() {
    let never = |_p: &String| false;
    let mut app = app_at("/a");
    app.search_text = "q".to_string();
    app.main_pane.selection = vec![1];
    app.main_pane.loading = false;
    app.pending_action = Some(ContextAction::NewFolder);
    app.process_pending_action(&never);
    assert_eq!(app.search_text, "q");
    assert_eq!(app.main_pane.selection, vec![1]);
    assert!(app.main_pane.loading);
    app.pending_action = Some(ContextAction::NewFile("a.txt".to_string()));
    app.process_pending_action(&never);
    assert_eq!(app.search_text, "q");
    assert_eq!(app.main_pane.selection, vec![1]);
}
