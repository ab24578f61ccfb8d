use filox::entry::{Entry, EntryKind};
use filox::fs::{entry_from_metadata, free_space, is_cloud_only_file, list_drives, list_onedrive_paths, sort_entries};
use filox::quick_access::{parse_quick_access, quick_access_text};
use filox::state::PaneState;
use filox::view::{
    breadcrumb, breadcrumb_skip, delete_targets, drive_space_text, first_lines, folder_ancestors, is_text_preview, quick_access_icon,
    tile_label, truncate_str, visible_entries, visible_indices,
};
use filox::icons;

fn e(name: &str, kind: EntryKind, size: Option<u64>, hidden: bool) -> Entry {
    Entry {
        name: name.to_string(),
        path: format!("/d/{name}"),
        kind,
        size,
        modified: None,
        is_hidden: hidden,
        is_cloud_only: false,
    }
}

fn names(v: &[Entry]) -> Vec<String> {
    v.iter().map(|x| x.name.clone()).collect()
}

#[test]
fn entries_from_metadata() {
    let d = entry_from_metadata("src".into(), "/p/src".into(), true, false, 4096, false, None);
    assert_eq!(d.kind, EntryKind::Dir);
    assert_eq!(d.size, None);
    let l = entry_from_metadata("ln".into(), "/p/ln".into(), false, true, 10, false, None);
    assert_eq!(l.kind, EntryKind::Symlink);
    assert_eq!(l.size, None);
    let f = entry_from_metadata(".env".into(), "/p/.env".into(), false, false, 77, false, None);
    assert_eq!(f.kind, EntryKind::File);
    assert_eq!(f.size, Some(77));
    assert!(f.is_hidden);
    let c = entry_from_metadata("cloud.docx".into(), "/p/cloud.docx".into(), false, false, 5000, true, None);
    assert_eq!(c.size, Some(0));
    assert!(c.is_cloud_only);
    assert!(!c.is_hidden);
}

#[test]
fn cloud_attribute_bits() {
    assert!(is_cloud_only_file(0x0004_0000));
    assert!(is_cloud_only_file(0x0040_0000 | 0x20));
    assert!(!is_cloud_only_file(0x20));
    assert!(!is_cloud_only_file(0));
}

#[test]
fn sort_puts_folders_first_then_names_case_insensitively() {
    let v = vec![
        e("b.txt", EntryKind::File, Some(1), false),
        e("Zeta", EntryKind::Dir, None, false),
        e("A.txt", EntryKind::File, Some(1), false),
        e("alpha", EntryKind::Dir, None, false),
        e("a.TXT", EntryKind::File, Some(2), false),
        e("link", EntryKind::Symlink, None, false),
    ];
    let s = sort_entries(v);
    assert_eq!(names(&s), vec!["alpha", "Zeta", "A.txt", "a.TXT", "b.txt", "link"]);
    // equal keys keep their order
    assert_eq!(s[2].size, Some(1));
    assert_eq!(s[3].size, Some(2));
}

#[test]
fn sort_matches_std_sort_by() {
    let raw = ["Ä", "a", "B", "b", "_x", "10", "9", "ß", "Dir2", "dir1", "Ω", "ω", "z", "Z"];
    let mut v = Vec::new();
    for (i, n) in raw.iter().enumerate() {
        let kind = if i % 3 == 0 { EntryKind::Dir } else { EntryKind::File };
        v.push(e(n, kind, Some(i as u64), false));
    }
    let mut expected: Vec<(String, u64)> = v.iter().map(|x| (x.name.clone(), x.size.unwrap())).collect();
    let kinds: Vec<EntryKind> = v.iter().map(|x| x.kind).collect();
    let mut idx: Vec<usize> = (0..v.len()).collect();
    idx.sort_by(|&a, &b| {
        let ra = if kinds[a] == EntryKind::Dir { 0u8 } else { 1 };
        let rb = if kinds[b] == EntryKind::Dir { 0u8 } else { 1 };
        ra.cmp(&rb).then_with(|| expected[a].0.to_lowercase().cmp(&expected[b].0.to_lowercase()))
    });
    expected = idx.iter().map(|&i| expected[i].clone()).collect();
    let got: Vec<(String, u64)> = sort_entries(v).iter().map(|x| (x.name.clone(), x.size.unwrap())).collect();
    assert_eq!(got, expected);
}

#[test]
fn drives_from_mask() {
    let space = |p: &String| if p == "C:\\" { Some((10u64, 100u64)) } else { None };
    let d = list_drives(Some(0b101), &space);
    assert_eq!(d.len(), 2);
    assert_eq!(d[0].letter, 'A');
    assert_eq!(d[0].path, "A:\\");
    assert_eq!((d[0].free_bytes, d[0].total_bytes), (0, 0));
    assert_eq!(d[1].letter, 'C');
    assert_eq!((d[1].free_bytes, d[1].total_bytes), (10, 100));
    let all = list_drives(Some(u32::MAX), &space);
    assert_eq!(all.len(), 26);
    assert_eq!(all[25].letter, 'Z');
    assert!(list_drives(Some(0), &space).is_empty());
    let root = list_drives(None, &space);
    assert_eq!(root.len(), 1);
    assert_eq!(root[0].letter, '/');
    assert_eq!(root[0].path, "/");
}

#[test]
fn free_space_of_drive() {
    assert_eq!(free_space(Some((5, 9))), Some(5));
    assert_eq!(free_space(None), None);
}

#[test]
fn onedrive_folders() {
    let r = list_onedrive_paths(Some("/home/u/OneDrive".into()), Some("/home/u/OneDrive - Corp".into()));
    assert_eq!(r, vec![
        ("OneDrive".to_string(), "/home/u/OneDrive".to_string()),
        ("OneDrive - Corp".to_string(), "/home/u/OneDrive - Corp".to_string()),
    ]);
    let r = list_onedrive_paths(Some("/same".into()), Some("/same".into()));
    assert_eq!(r.len(), 1);
    let r = list_onedrive_paths(None, Some("/".into()));
    assert_eq!(r, vec![("OneDrive for Business".to_string(), "/".to_string())]);
    assert!(list_onedrive_paths(None, None).is_empty());
    let r = list_onedrive_paths(Some("/".into()), Some("/x/Docs".into()));
    assert_eq!(r, vec![
        ("OneDrive".to_string(), "/".to_string()),
        ("Docs".to_string(), "/x/Docs".to_string()),
    ]);
    let r = list_onedrive_paths(Some("/x/Docs".into()), Some("/x/Docs/".into()));
    assert_eq!(r, vec![("Docs".to_string(), "/x/Docs".to_string())]);
}

#[test]
fn quick_access_file_round_trip() {
    let qa = vec![
        ("Home".to_string(), "C:\\Users\\u".to_string()),
        ("プロジェクト".to_string(), "D:\\dev\\tab\there".to_string()),
        ("empty path".to_string(), String::new()),
    ];
    let text = quick_access_text(&qa);
    assert_eq!(text, "Home\tC:\\Users\\u\nプロジェクト\tD:\\dev\\tab\there\nempty path\t\n");
    assert_eq!(parse_quick_access(&text), qa);
}

#[test]
fn quick_access_parse_skips_lines_without_tab() {
    let r = parse_quick_access("no tab here\nA\t/a\r\n\nB\t/b");
    assert_eq!(r, vec![("A".to_string(), "/a".to_string()), ("B".to_string(), "/b".to_string())]);
}

#[test]
fn status_line() {
    let mut p = PaneState::new("/d".to_string());
    p.entries = vec![
        e("a", EntryKind::File, Some(1000), false),
        e("b", EntryKind::File, Some(2000), false),
        e("c", EntryKind::Dir, None, false),
    ];
    assert_eq!(p.status_text(), "3 items");
    p.selection = vec![0, 1, 2, 7];
    assert_eq!(p.total_size_selected(), 3000);
    assert_eq!(p.status_text(), "3 items · 4 selected · 2.9 KB");
    p.tagged = vec![1];
    assert_eq!(p.status_text(), "3 items · 4 selected · 2.9 KB · 1 tagged · 2.0 KB");
    p.selection = vec![];
    assert_eq!(p.status_text(), "3 items · 1 tagged · 2.0 KB");
}

#[test]
fn clicks_select_rows() {
    let mut p = PaneState::new("/d".to_string());
    p.click_entry(2, false);
    assert_eq!(p.selection, vec![2]);
    p.click_entry(4, true);
    assert_eq!(p.selection, vec![2, 4]);
    p.click_entry(2, true);
    assert_eq!(p.selection, vec![4]);
    p.click_entry(7, false);
    assert_eq!(p.selection, vec![7]);
}

#[test]
fn visible_rows_and_delete_targets() {
    let all = vec![
        e(".git", EntryKind::Dir, None, true),
        e("a", EntryKind::File, Some(1), false),
        e("b", EntryKind::File, Some(1), false),
    ];
    assert_eq!(names(&visible_entries(&all, false, "")), vec!["a", "b"]);
    assert_eq!(names(&visible_entries(&all, true, "")), vec![".git", "a", "b"]);
    let vis = visible_entries(&all, false, "");
    assert_eq!(delete_targets(&vis, &vec![1, 0, 5], 0, true), vec!["/d/b".to_string(), "/d/a".to_string()]);
    assert_eq!(delete_targets(&vis, &vec![1, 0, 5], 0, false), vec!["/d/a".to_string()]);
    assert_eq!(delete_targets(&vis, &vec![1], 0, false), vec!["/d/a".to_string()]);
    assert_eq!(delete_targets(&vis, &vec![1], 1, true), vec!["/d/b".to_string()]);
}

#[test]
fn search_filters_by_name_ignoring_case() {
    let all = vec![
        e(".Config", EntryKind::Dir, None, true),
        e("Report.TXT", EntryKind::File, Some(1), false),
        e("notes.md", EntryKind::File, Some(2), false),
        e("ÄRGER.txt", EntryKind::File, Some(3), false),
    ];
    assert_eq!(names(&visible_entries(&all, false, "txt")), vec!["Report.TXT", "ÄRGER.txt"]);
    assert_eq!(names(&visible_entries(&all, true, "CONF")), vec![".Config"]);
    assert_eq!(names(&visible_entries(&all, false, "CONF")), Vec::<String>::new());
    assert_eq!(names(&visible_entries(&all, false, "ärger")), vec!["ÄRGER.txt"]);
    assert_eq!(names(&visible_entries(&all, false, "zzz")), Vec::<String>::new());
    assert_eq!(names(&visible_entries(&all, true, "")).len(), 4);
}

#[test]
fn rows_keep_their_positions_among_all_entries() {
    let all = vec![
        e(".git", EntryKind::Dir, None, true),
        e("a", EntryKind::File, Some(10), false),
        e("b", EntryKind::File, Some(20), false),
    ];
    assert_eq!(visible_indices(&all, false, ""), vec![1, 2]);
    assert_eq!(visible_indices(&all, true, ""), vec![0, 1, 2]);
    assert_eq!(visible_indices(&all, false, "B"), vec![2]);
    // a selection of the row "b" names "b" among all entries
    let rows = visible_indices(&all, false, "");
    let mut p = PaneState::new("/d".to_string());
    p.entries = all.clone();
    p.click_entry(rows[1], false);
    assert_eq!(p.total_size_selected(), 20);
    assert_eq!(delete_targets(&all, &vec![rows[1], rows[0]], rows[0], true), vec!["/d/b".to_string(), "/d/a".to_string()]);
}

#[test]
fn shortened_names() {
    assert_eq!(truncate_str("short.txt"), "short.txt");
    let long = "abcdefghijklmnopqrstuvwxyz0123";
    assert_eq!(truncate_str(long), "abcdefghijklmnopqrstuvwxyz…");
    assert_eq!(truncate_str("abcdefghijklmnopqrstuvwxyz01"), "abcdefghijklmnopqrstuvwxyz01");
    assert_eq!(tile_label("fourteen_chars"), "fourteen_chars");
    assert_eq!(tile_label("fifteen_chars__"), "fifteen_char…");
    assert_eq!(tile_label("日本語のとても長いファイル名です"), "日本語のとても長いファイ…");
}

#[test]
fn preview_and_icons() {
    assert!(is_text_preview(&e("a.RS", EntryKind::File, Some(1), false)));
    assert!(is_text_preview(&e("Cargo.lock", EntryKind::File, Some(1), false)));
    assert!(!is_text_preview(&e("a.png", EntryKind::File, Some(1), false)));
    assert!(!is_text_preview(&e("x.md", EntryKind::Dir, None, false)));
    assert_eq!(first_lines("1\n2\r\n3\n4", 2), vec!["1".to_string(), "2".to_string()]);
    assert_eq!(first_lines("only", 20), vec!["only".to_string()]);
    assert_eq!(quick_access_icon("Home"), icons::HOME);
    assert_eq!(quick_access_icon("Downloads"), icons::DOWNLOAD);
    assert_eq!(quick_access_icon("Desktop"), icons::STAR);
    assert_eq!(quick_access_icon("Work"), icons::FOLDER);
}

#[test]
fn breadcrumb_and_tree() {
    assert_eq!(breadcrumb_skip(3), 0);
    assert_eq!(breadcrumb_skip(4), 0);
    assert_eq!(breadcrumb_skip(7), 3);
    assert_eq!(folder_ancestors(&"/a/b".to_string()), vec!["/".to_string(), "/a".to_string(), "/a/b".to_string()]);
    assert_eq!(folder_ancestors(&"rel".to_string()), vec!["".to_string(), "rel".to_string()]);
}

fn crumb(label: &str, target: &str, last: bool) -> (String, String, bool) {
    (label.to_string(), target.to_string(), last)
}

#[test]
fn breadcrumb_parts_and_targets() {
    assert_eq!(breadcrumb("/a/b"), vec![crumb("/", "/", false), crumb("a", "/a", false), crumb("b", "/a/b", true)]);
    assert_eq!(breadcrumb("/1/2/3/4/5/"), vec![
        crumb("2", "/1/2", false),
        crumb("3", "/1/2/3", false),
        crumb("4", "/1/2/3/4", false),
        crumb("5", "/1/2/3/4/5", true),
    ]);
    assert_eq!(breadcrumb("x/./y"), vec![crumb("x", "x", false), crumb("y", "x/y", true)]);
    assert!(breadcrumb("").is_empty());
}

#[test]
fn drive_space_in_gb() {
    let gib: u64 = 1 << 30;
    assert_eq!(drive_space_text(500 * gib, 1024 * gib), "500 GB / 1024 GB");
    assert_eq!(drive_space_text(3 * gib / 2, 5 * gib / 2), "2 GB / 2 GB");
    assert_eq!(drive_space_text(0, 0), "0 GB / 0 GB");
    for (f, t) in [(123_456_789_012u64, 987_654_321_098u64), (gib - 1, u64::MAX)] {
        let want = format!("{:.0} GB / {:.0} GB", f as f64 / 1024.0_f64.powi(3), t as f64 / 1024.0_f64.powi(3));
        assert_eq!(drive_space_text(f, t), want);
    }
}
