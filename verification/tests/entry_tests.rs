use chrono::{Datelike, NaiveDate, Timelike};
use filox::entry::{extension_key, Entry, EntryKind, Stamp};
use filox::icons;
use filox::theme::{Accent, Rgba, Theme, Tokens};

fn e(name: &str, kind: EntryKind, hidden: bool) -> Entry {
    Entry {
        name: name.to_string(),
        path: format!("/x/{name}"),
        kind,
        size: None,
        modified: None,
        is_hidden: hidden,
        is_cloud_only: false,
    }
}

#[test]
fn type_labels() {
    assert_eq!(e("src", EntryKind::Dir, false).type_label(), "Folder");
    assert_eq!(e("link", EntryKind::Symlink, false).type_label(), "Symlink");
    assert_eq!(e("main.rs", EntryKind::File, false).type_label(), "Rust Source");
    assert_eq!(e("MAIN.RS", EntryKind::File, false).type_label(), "Rust Source");
    assert_eq!(e("Cargo.toml", EntryKind::File, false).type_label(), "TOML Config");
    assert_eq!(e("Cargo.lock", EntryKind::File, false).type_label(), "Lock File");
    assert_eq!(e("README.Markdown", EntryKind::File, false).type_label(), "Markdown");
    assert_eq!(e("a.md", EntryKind::File, false).type_label(), "Markdown");
    assert_eq!(e("notes.TXT", EntryKind::File, false).type_label(), "Text File");
    assert_eq!(e("data.json", EntryKind::File, false).type_label(), "JSON");
    assert_eq!(e("c.yml", EntryKind::File, false).type_label(), "YAML");
    assert_eq!(e("c.YAML", EntryKind::File, false).type_label(), "YAML");
    assert_eq!(e("photo.png", EntryKind::File, false).type_label(), "File");
    assert_eq!(e("rs", EntryKind::File, false).type_label(), "Rust Source");
}

#[test]
fn icons_and_colours() {
    let accent = Accent::Aqua.color();
    assert_eq!(e("d", EntryKind::Dir, false).icon_char(), icons::FOLDER);
    assert_eq!(e("l", EntryKind::Symlink, false).icon_char(), icons::DESCRIPTION);
    assert_eq!(e("lib.rs", EntryKind::File, false).icon_char(), icons::CODE);
    assert_eq!(e("x.toml", EntryKind::File, false).icon_char(), icons::SETTINGS_ICON);
    assert_eq!(e("x.lock", EntryKind::File, false).icon_char(), icons::LOCK);
    assert_eq!(e("x.md", EntryKind::File, false).icon_char(), icons::ARTICLE);
    assert_eq!(e("LICENSE-MIT", EntryKind::File, false).icon_char(), icons::GAVEL);
    assert_eq!(e("license", EntryKind::File, false).icon_char(), icons::DESCRIPTION);
    assert_eq!(e("x.png", EntryKind::File, false).icon_char(), icons::DESCRIPTION);

    assert_eq!(e("d", EntryKind::Dir, false).icon_color(accent), Rgba { r: 0xcf, g: 0x9b, b: 0x53, a: 255 });
    assert_eq!(e(".d", EntryKind::Dir, true).icon_color(accent), Rgba { r: 0x6f, g: 0x76, b: 0x7b, a: 255 });
    assert_eq!(e("l", EntryKind::Symlink, false).icon_color(accent), Rgba { r: 0x8a, g: 0x90, b: 0x95, a: 255 });
    assert_eq!(e("a.rs", EntryKind::File, false).icon_color(accent), accent);
    assert_eq!(e("a.toml", EntryKind::File, false).icon_color(accent), Rgba { r: 0x8a, g: 0xa8, b: 0x61, a: 255 });
    assert_eq!(e("a.MD", EntryKind::File, false).icon_color(accent), Rgba { r: 0x5f, g: 0x9e, b: 0x95, a: 255 });
    assert_eq!(e("a.bin", EntryKind::File, false).icon_color(accent), Rgba { r: 0x8a, g: 0x90, b: 0x95, a: 255 });
}

#[test]
fn lowercase_follows_unicode() {
    assert_eq!(extension_key("X.ÄBC"), "äbc");
    assert_eq!(extension_key("Photo.JPEG"), "jpeg");
    assert_eq!(extension_key("NOEXT"), "noext");
    assert_eq!(extension_key("trailing."), "");
}

#[test]
fn modified_display_format() {
    let mut x = e("a", EntryKind::File, false);
    assert_eq!(x.modified_display(), "");
    x.modified = Some(Stamp { year: 2024, month: 3, day: 7, hour: 9, minute: 5 });
    assert_eq!(x.modified_display(), "2024/03/07 09:05");
    x.modified = Some(Stamp { year: 987, month: 12, day: 31, hour: 23, minute: 59 });
    assert_eq!(x.modified_display(), "0987/12/31 23:59");
    x.modified = Some(Stamp { year: 12345, month: 1, day: 1, hour: 0, minute: 0 });
    assert_eq!(x.modified_display(), "+12345/01/01 00:00");
    x.modified = Some(Stamp { year: -44, month: 3, day: 15, hour: 12, minute: 0 });
    assert_eq!(x.modified_display(), "-0044/03/15 12:00");
}

#[test]
fn modified_display_matches_chrono() {
    for (y, mo, d, h, mi) in [(2024, 3, 7, 9, 5), (1999, 12, 31, 23, 59), (5, 1, 2, 3, 4), (10000, 6, 6, 6, 6), (-1, 1, 1, 1, 1)] {
        let dt = NaiveDate::from_ymd_opt(y, mo, d).unwrap().and_hms_opt(h, mi, 0).unwrap();
        let mut x = e("a", EntryKind::File, false);
        x.modified = Some(Stamp {
            year: dt.year(),
            month: dt.month(),
            day: dt.day(),
            hour: dt.hour(),
            minute: dt.minute(),
        });
        assert_eq!(x.modified_display(), dt.format("%Y/%m/%d %H:%M").to_string());
    }
}

#[test]
fn accent_colours_and_tokens() {
    assert_eq!(Accent::Rust.color(), Rgba { r: 0xe0, g: 0x82, b: 0x4a, a: 255 });
    assert_eq!(Accent::Purple.color(), Rgba { r: 0xc0, g: 0x7a, b: 0x92, a: 255 });
    let soft = Accent::Rust.soft();
    assert_eq!(soft.a, 44);
    let c = egui::Color32::from_rgba_unmultiplied(0xe0, 0x82, 0x4a, 44);
    assert_eq!([soft.r, soft.g, soft.b, soft.a], c.to_array());
    assert_ne!(soft, Accent::Rust.color());
    let t = Tokens::new(Theme::Dark, Accent::Green);
    assert_eq!(t.bg, Rgba { r: 0x16, g: 0x18, b: 0x1b, a: 255 });
    assert_eq!(t.accent, Accent::Green.color());
    assert_eq!(t.accent_soft, Accent::Green.soft());
    assert_eq!(t.syn_type, Rgba { r: 0xc9, g: 0x9a, b: 0x4e, a: 255 });
    let l = Tokens::new(Theme::Light, Accent::Green);
    assert_eq!(l.elev, Rgba { r: 0xff, g: 0xff, b: 0xff, a: 255 });
    assert_eq!(l.text, Rgba { r: 0x27, g: 0x2b, b: 0x2e, a: 255 });
}
