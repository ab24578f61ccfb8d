//! Directory entries and how the listing shows them: icon, colour, type
//! label, size and modification time.

use vstd::prelude::*;
use crate::icons;
use crate::sizes::{push_scaled, scaled_text};
use crate::text::{
    chars_of, decimal, has_prefix, last_index, lemma_last_index_unique, push_decimal, push_str, push_zero_padded, rfind_char,
    same_text, slice_chars, starts_with, string_of, zero_padded,
};
use crate::theme::{rgb, Rgba};

verus! {

#[derive(Clone, Copy, Debug, PartialEq, Eq, Structural)]
pub enum EntryKind {
    Dir,
    File,
    Symlink,
}

/// A local date and time to the minute, as the calendar shows it:
/// month 1 to 12, day 1 to 31, hour 0 to 23, minute 0 to 59.
#[derive(Clone, Copy, Debug, PartialEq, Eq, Structural)]
pub struct Stamp {
    pub year: i32,
    pub month: u32,
    pub day: u32,
    pub hour: u32,
    pub minute: u32,
}

#[derive(Clone)]
pub struct Entry {
    pub name: String,
    pub path: String,
    pub kind: EntryKind,
    pub size: Option<u64>,
    pub modified: Option<Stamp>,
    pub is_hidden: bool,
    pub is_cloud_only: bool,
}

/// The lower-case form of a text as `str::to_lowercase` gives it.
pub uninterp spec fn lowercase_of(s: Seq<char>) -> Seq<char>;

/// Calls `str::to_lowercase`, which maps each character to its Unicode
/// lower-case mapping. Claimed: the result is `lowercase_of` of the text
/// (a function of the text alone); the Unicode tables are left unsaid.
#[verifier::external_body]
pub(crate) fn to_lowercase(s: &str) -> (r: String)
    ensures
        r@ == lowercase_of(s@),
{
    s.to_lowercase()
}

/// What follows the last '.' of a name, or the whole name without one
/// (`name.rsplit('.').next()`).
pub open spec fn last_segment(name: Seq<char>) -> Seq<char> {
    name.skip(last_index(name, '.') + 1)
}

/// The lower-case extension by which a file's icon and label are chosen.
pub open spec fn ext_key(name: Seq<char>) -> Seq<char> {
    lowercase_of(last_segment(name))
}

/// The glyph of a file by its lower-case extension and its name.
pub open spec fn file_icon_spec(ext: Seq<char>, name: Seq<char>) -> char {
    if ext == "rs"@ {
        icons::CODE
    } else if ext == "toml"@ {
        icons::SETTINGS_ICON
    } else if ext == "lock"@ {
        icons::LOCK
    } else if ext == "md"@ || ext == "markdown"@ {
        icons::ARTICLE
    } else if has_prefix(name, "LICENSE"@) {
        icons::GAVEL
    } else {
        icons::DESCRIPTION
    }
}

/// The colour of a file's glyph by its lower-case extension.
pub open spec fn file_icon_color_spec(ext: Seq<char>, accent: Rgba) -> Rgba {
    if ext == "rs"@ {
        accent
    } else if ext == "toml"@ {
        rgb(0x8a, 0xa8, 0x61)
    } else if ext == "lock"@ {
        rgb(0x8a, 0x90, 0x95)
    } else if ext == "md"@ || ext == "markdown"@ {
        rgb(0x5f, 0x9e, 0x95)
    } else {
        rgb(0x8a, 0x90, 0x95)
    }
}

/// The type label of a file by its lower-case extension.
pub open spec fn file_label_spec(ext: Seq<char>) -> Seq<char> {
    if ext == "rs"@ {
        "Rust Source"@
    } else if ext == "toml"@ {
        "TOML Config"@
    } else if ext == "lock"@ {
        "Lock File"@
    } else if ext == "md"@ || ext == "markdown"@ {
        "Markdown"@
    } else if ext == "txt"@ {
        "Text File"@
    } else if ext == "json"@ {
        "JSON"@
    } else if ext == "yaml"@ || ext == "yml"@ {
        "YAML"@
    } else {
        "File"@
    }
}

/// The text of a byte count in the listing's size column.
pub open spec fn size_text(size: Option<u64>) -> Seq<char> {
    match size {
        None => seq![],
        Some(b) => if b == 0 {
            "0 B"@
        } else if b < 1024 {
            decimal(b as nat) + " B"@
        } else if b < 1024 * 1024 {
            scaled_text(b as nat, 10, 1) + " KB"@
        } else if b < 1024 * 1024 * 1024 {
            scaled_text(b as nat, 20, 1) + " MB"@
        } else {
            scaled_text(b as nat, 30, 1) + " GB"@
        },
    }
}

/// The absolute value of a year.
pub open spec fn year_abs(y: i32) -> nat {
    if y < 0 {
        (-y) as nat
    } else {
        y as nat
    }
}

/// A year as the `%Y` of a date format writes it: four digits at least,
/// with a sign when it is below 0 or above 9999.
pub open spec fn year_text(y: i32) -> Seq<char> {
    if 0 <= y <= 9999 {
        zero_padded(y as nat, 4)
    } else if y < 0 {
        seq!['-'] + zero_padded(year_abs(y), 4)
    } else {
        seq!['+'] + zero_padded(year_abs(y), 4)
    }
}

/// A time stamp as "YYYY/MM/DD HH:MM" (the format "%Y/%m/%d %H:%M").
pub open spec fn stamp_text(t: Stamp) -> Seq<char> {
    year_text(t.year) + "/"@ + zero_padded(t.month as nat, 2) + "/"@ + zero_padded(t.day as nat, 2)
        + " "@ + zero_padded(t.hour as nat, 2) + ":"@ + zero_padded(t.minute as nat, 2)
}

/// Whether a text is one of the given literals' views.
fn is_one_of2(s: &str, a: &str, b: &str) -> (r: bool)
    ensures
        r == (s@ == a@ || s@ == b@),
{
    same_text(s, a) || same_text(s, b)
}

/// The extension is what follows the last '.': for a name `s.e` whose `e`
/// holds no '.', the key is `e` lower-cased, whatever `s` holds; a name
/// with no '.' is its own key, lower-cased.
pub proof fn lemma_ext_key_after_last_dot(s: Seq<char>, e: Seq<char>)
    requires
        !e.contains('.'),
    ensures
        ext_key(s + "."@ + e) == lowercase_of(e),
        ext_key(e) == lowercase_of(e),
{
    reveal_strlit(".");
    let name = s + "."@ + e;
    let k = s.len() as int;
    assert(name[k] == '.');
    assert forall|j: int| k < j < name.len() implies name[j] != '.' by {
        assert(name[j] == e[j - k - 1]);
    }
    lemma_last_index_unique(name, '.', k);
    assert(name.skip(k + 1) =~= e);
    assert forall|j: int| -1 < j < e.len() implies e[j] != '.' by {
        if e[j] == '.' {
            assert(e.contains('.'));
        }
    }
    lemma_last_index_unique(e, '.', -1);
    assert(e.skip(0) =~= e);
}

/// The lower-case extension of a name (`name.rsplit('.').next()`, lower-cased).
pub fn extension_key(name: &str) -> (r: String)
    ensures
        r@ == ext_key(name@),
{
    let chars = chars_of(name);
    let seg = match rfind_char(&chars, '.') {
        Some(i) => slice_chars(&chars, i + 1, chars.len()),
        None => slice_chars(&chars, 0, chars.len()),
    };
    assert(seg@ =~= last_segment(name@));
    let s = string_of(&seg);
    to_lowercase(s.as_str())
}

/// The glyph of a file by its lower-case extension `ext` and its name.
pub fn file_icon_for(ext: &str, name: &str) -> (c: char)
    ensures
        c == file_icon_spec(ext@, name@),
{
    if same_text(ext, "rs") {
        icons::CODE
    } else if same_text(ext, "toml") {
        icons::SETTINGS_ICON
    } else if same_text(ext, "lock") {
        icons::LOCK
    } else if is_one_of2(ext, "md", "markdown") {
        icons::ARTICLE
    } else if starts_with(&chars_of(name), "LICENSE") {
        icons::GAVEL
    } else {
        icons::DESCRIPTION
    }
}

/// The colour of a file's glyph by its lower-case extension `ext`.
pub fn file_icon_color_for(ext: &str, accent: Rgba) -> (c: Rgba)
    ensures
        c == file_icon_color_spec(ext@, accent),
{
    if same_text(ext, "rs") {
        accent
    } else if same_text(ext, "toml") {
        Rgba::from_rgb(0x8a, 0xa8, 0x61)
    } else if same_text(ext, "lock") {
        Rgba::from_rgb(0x8a, 0x90, 0x95)
    } else if is_one_of2(ext, "md", "markdown") {
        Rgba::from_rgb(0x5f, 0x9e, 0x95)
    } else {
        Rgba::from_rgb(0x8a, 0x90, 0x95)
    }
}

/// The type label of a file by its lower-case extension `ext`.
pub fn file_label_for(ext: &str) -> (r: &'static str)
    ensures
        r@ == file_label_spec(ext@),
{
    if same_text(ext, "rs") {
        "Rust Source"
    } else if same_text(ext, "toml") {
        "TOML Config"
    } else if same_text(ext, "lock") {
        "Lock File"
    } else if is_one_of2(ext, "md", "markdown") {
        "Markdown"
    } else if same_text(ext, "txt") {
        "Text File"
    } else if same_text(ext, "json") {
        "JSON"
    } else if is_one_of2(ext, "yaml", "yml") {
        "YAML"
    } else {
        "File"
    }
}

/// Appends a two-digit field (as `%m`, `%d`, `%H`, `%M` write it).
fn push_two(out: &mut Vec<char>, v: u32)
    ensures
        final(out)@ == old(out)@ + zero_padded(v as nat, 2),
{
    push_zero_padded(out, v as u64, 2);
}

/// A time stamp as "YYYY/MM/DD HH:MM".
pub fn stamp_string(t: Stamp) -> (r: String)
    ensures
        r@ == stamp_text(t),
{
    let mut v: Vec<char> = Vec::new();
    if 0 <= t.year && t.year <= 9999 {
        push_zero_padded(&mut v, t.year as u64, 4);
    } else {
        let abs: u64 = if t.year < 0 {
            v.push('-');
            (-(t.year as i64)) as u64
        } else {
            v.push('+');
            t.year as u64
        };
        assert(abs == year_abs(t.year));
        push_zero_padded(&mut v, abs, 4);
    }
    assert(v@ =~= year_text(t.year));
    push_str(&mut v, "/");
    push_two(&mut v, t.month);
    push_str(&mut v, "/");
    push_two(&mut v, t.day);
    push_str(&mut v, " ");
    push_two(&mut v, t.hour);
    push_str(&mut v, ":");
    push_two(&mut v, t.minute);
    assert(v@ =~= stamp_text(t));
    string_of(&v)
}

impl Entry {
    /// A copy of the entry, field for field.
    pub fn duplicate(&self) -> (r: Entry)
        ensures
            r == *self,
    {
        Entry {
            name: self.name.clone(),
            path: self.path.clone(),
            kind: self.kind,
            size: self.size,
            modified: self.modified,
            is_hidden: self.is_hidden,
            is_cloud_only: self.is_cloud_only,
        }
    }

    pub fn icon_char(&self) -> (c: char)
        ensures
            c == match self.kind {
                EntryKind::Dir => icons::FOLDER,
                EntryKind::File => file_icon_spec(ext_key(self.name@), self.name@),
                EntryKind::Symlink => icons::DESCRIPTION,
            },
    {
        match &self.kind {
            EntryKind::Dir => icons::FOLDER,
            EntryKind::File => self.file_icon(),
            EntryKind::Symlink => icons::DESCRIPTION,
        }
    }

    pub fn icon_color(&self, accent: Rgba) -> (c: Rgba)
        ensures
            c == match self.kind {
                EntryKind::Dir => if self.is_hidden {
                    rgb(0x6f, 0x76, 0x7b)
                } else {
                    rgb(0xcf, 0x9b, 0x53)
                },
                EntryKind::File => file_icon_color_spec(ext_key(self.name@), accent),
                EntryKind::Symlink => rgb(0x8a, 0x90, 0x95),
            },
    {
        match &self.kind {
            EntryKind::Dir => if self.is_hidden {
                Rgba::from_rgb(0x6f, 0x76, 0x7b)
            } else {
                Rgba::from_rgb(0xcf, 0x9b, 0x53)
            },
            EntryKind::File => self.file_icon_color(accent),
            EntryKind::Symlink => Rgba::from_rgb(0x8a, 0x90, 0x95),
        }
    }

    fn file_icon(&self) -> (c: char)
        ensures
            c == file_icon_spec(ext_key(self.name@), self.name@),
    {
        let ext = extension_key(self.name.as_str());
        file_icon_for(ext.as_str(), self.name.as_str())
    }

    fn file_icon_color(&self, accent: Rgba) -> (c: Rgba)
        ensures
            c == file_icon_color_spec(ext_key(self.name@), accent),
    {
        let ext = extension_key(self.name.as_str());
        file_icon_color_for(ext.as_str(), accent)
    }

    pub fn type_label(&self) -> (r: &'static str)
        ensures
            r@ == match self.kind {
                EntryKind::Dir => "Folder"@,
                EntryKind::File => file_label_spec(ext_key(self.name@)),
                EntryKind::Symlink => "Symlink"@,
            },
    {
        match &self.kind {
            EntryKind::Dir => "Folder",
            EntryKind::File => {
                let ext = extension_key(self.name.as_str());
                file_label_for(ext.as_str())
            },
            EntryKind::Symlink => "Symlink",
        }
    }

    pub fn size_display(&self) -> (r: String)
        ensures
            r@ == size_text(self.size),
    {
        let mut v: Vec<char> = Vec::new();
        match self.size {
            None => {},
            Some(b) => {
                if b == 0 {
                    push_str(&mut v, "0 B");
                } else if b < 1024 {
                    push_decimal(&mut v, b);
                    push_str(&mut v, " B");
                } else if b < 1024 * 1024 {
                    push_scaled(&mut v, b, 10, 1);
                    push_str(&mut v, " KB");
                } else if b < 1024 * 1024 * 1024 {
                    push_scaled(&mut v, b, 20, 1);
                    push_str(&mut v, " MB");
                } else {
                    push_scaled(&mut v, b, 30, 1);
                    push_str(&mut v, " GB");
                }
            },
        }
        assert(v@ =~= size_text(self.size));
        string_of(&v)
    }

    pub fn modified_display(&self) -> (r: String)
        ensures
            r@ == match self.modified {
                Some(t) => stamp_text(t),
                None => seq![],
            },
    {
        match self.modified {
            Some(t) => stamp_string(t),
            None => String::new(),
        }
    }
}

} // verus!
