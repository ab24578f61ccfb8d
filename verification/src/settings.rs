//! The user's settings (theme, hidden files, font) and their text form,
//! one `key=value` line each.

use vstd::prelude::*;
use crate::text::{
    chars_of, lemma_first_index_unique, lemma_lines_step, lines,
    lines_of, push_str, same_chars, split_once_char, split_once_spec, string_of, trim, trim_end,
    trim_spec, trim_start, views,
};

verus! {

#[derive(Clone, Copy, Debug, PartialEq, Eq, Structural)]
pub enum FontChoice {
    Meiryo,
    YuGothic,
    BizUdGothic,
    MsGothic,
    NotoSansJp,
    IbmPlexSans,
}

/// The name of a font as the settings panel lists it.
pub open spec fn font_label(f: FontChoice) -> Seq<char> {
    match f {
        FontChoice::Meiryo => "メイリオ"@,
        FontChoice::YuGothic => "Yu Gothic"@,
        FontChoice::BizUdGothic => "BIZ UD Gothic"@,
        FontChoice::MsGothic => "MS Gothic"@,
        FontChoice::NotoSansJp => "Noto Sans JP (内蔵)"@,
        FontChoice::IbmPlexSans => "IBM Plex Sans (内蔵)"@,
    }
}

/// The key of a font in the settings file.
pub open spec fn font_key(f: FontChoice) -> Seq<char> {
    match f {
        FontChoice::Meiryo => "meiryo"@,
        FontChoice::YuGothic => "yugothic"@,
        FontChoice::BizUdGothic => "bizudgothic"@,
        FontChoice::MsGothic => "msgothic"@,
        FontChoice::NotoSansJp => "notosansjp"@,
        FontChoice::IbmPlexSans => "ibmplexsans"@,
    }
}

/// The font a key names; any other text names Meiryo.
pub open spec fn font_of_key(s: Seq<char>) -> FontChoice {
    if s == "yugothic"@ {
        FontChoice::YuGothic
    } else if s == "bizudgothic"@ {
        FontChoice::BizUdGothic
    } else if s == "msgothic"@ {
        FontChoice::MsGothic
    } else if s == "notosansjp"@ {
        FontChoice::NotoSansJp
    } else if s == "ibmplexsans"@ {
        FontChoice::IbmPlexSans
    } else {
        FontChoice::Meiryo
    }
}

/// Every font, in the order the settings panel lists them.
pub open spec fn all_fonts() -> Seq<FontChoice> {
    seq![
        FontChoice::Meiryo,
        FontChoice::YuGothic,
        FontChoice::BizUdGothic,
        FontChoice::MsGothic,
        FontChoice::NotoSansJp,
        FontChoice::IbmPlexSans,
    ]
}

/// Whether a text holds exactly the characters of a literal.
fn is_text(v: &Vec<char>, lit: &str) -> (r: bool)
    ensures
        r == (v@ == lit@),
{
    let l = chars_of(lit);
    same_chars(v, &l)
}

impl FontChoice {
    pub fn label(&self) -> (r: &'static str)
        ensures
            r@ == font_label(*self),
    {
        match self {
            FontChoice::Meiryo => "メイリオ",
            FontChoice::YuGothic => "Yu Gothic",
            FontChoice::BizUdGothic => "BIZ UD Gothic",
            FontChoice::MsGothic => "MS Gothic",
            FontChoice::NotoSansJp => "Noto Sans JP (内蔵)",
            FontChoice::IbmPlexSans => "IBM Plex Sans (内蔵)",
        }
    }

    pub fn as_str(&self) -> (r: &'static str)
        ensures
            r@ == font_key(*self),
    {
        match self {
            FontChoice::Meiryo => "meiryo",
            FontChoice::YuGothic => "yugothic",
            FontChoice::BizUdGothic => "bizudgothic",
            FontChoice::MsGothic => "msgothic",
            FontChoice::NotoSansJp => "notosansjp",
            FontChoice::IbmPlexSans => "ibmplexsans",
        }
    }

    pub fn from_str(s: &str) -> (f: Self)
        ensures
            f == font_of_key(s@),
    {
        let v = chars_of(s);
        Self::from_chars(&v)
    }

    /// The font a key names, the key given as characters.
    pub fn from_chars(v: &Vec<char>) -> (f: Self)
        ensures
            f == font_of_key(v@),
    {
        if is_text(v, "yugothic") {
            FontChoice::YuGothic
        } else if is_text(v, "bizudgothic") {
            FontChoice::BizUdGothic
        } else if is_text(v, "msgothic") {
            FontChoice::MsGothic
        } else if is_text(v, "notosansjp") {
            FontChoice::NotoSansJp
        } else if is_text(v, "ibmplexsans") {
            FontChoice::IbmPlexSans
        } else {
            FontChoice::Meiryo
        }
    }

    pub fn all() -> (v: Vec<Self>)
        ensures
            v@ == all_fonts(),
    {
        let v = vec![
            FontChoice::Meiryo,
            FontChoice::YuGothic,
            FontChoice::BizUdGothic,
            FontChoice::MsGothic,
            FontChoice::NotoSansJp,
            FontChoice::IbmPlexSans,
        ];
        assert(v@ =~= all_fonts());
        v
    }
}

/// The key of every font names that font again.
pub proof fn lemma_font_key_roundtrip(f: FontChoice)
    ensures
        font_of_key(font_key(f)) == f,
{
    reveal_strlit("meiryo");
    reveal_strlit("yugothic");
    reveal_strlit("bizudgothic");
    reveal_strlit("msgothic");
    reveal_strlit("notosansjp");
    reveal_strlit("ibmplexsans");
    let k = font_key(f);
    // the keys differ in their first character, or (yugothic, msgothic) in length
    assert("yugothic"@[0] == 'y');
    assert("bizudgothic"@[0] == 'b');
    assert("msgothic"@[0] == 'm');
    assert("notosansjp"@[0] == 'n');
    assert("ibmplexsans"@[0] == 'i');
    assert("meiryo"@[0] == 'm');
    assert("meiryo"@.len() == 6);
    assert("msgothic"@.len() == 8);
    match f {
        FontChoice::Meiryo => {
            assert(k != "yugothic"@);
            assert(k != "bizudgothic"@);
            assert(k != "msgothic"@);
            assert(k != "notosansjp"@);
            assert(k != "ibmplexsans"@);
        },
        FontChoice::YuGothic => {},
        FontChoice::BizUdGothic => {
            assert(k != "yugothic"@);
        },
        FontChoice::MsGothic => {
            assert(k != "yugothic"@);
            assert(k != "bizudgothic"@);
        },
        FontChoice::NotoSansJp => {
            assert(k != "yugothic"@);
            assert(k != "bizudgothic"@);
            assert(k != "msgothic"@);
        },
        FontChoice::IbmPlexSans => {
            assert(k != "yugothic"@);
            assert(k != "bizudgothic"@);
            assert(k != "msgothic"@);
            assert(k != "notosansjp"@);
        },
    }
}

/// The list of fonts holds every font, each once.
pub proof fn lemma_all_fonts_complete(f: FontChoice)
    ensures
        all_fonts().contains(f),
        forall|i: int, j: int|
            0 <= i < j < all_fonts().len() ==> all_fonts()[i] != all_fonts()[j],
{
    let a = all_fonts();
    match f {
        FontChoice::Meiryo => assert(a[0] == f),
        FontChoice::YuGothic => assert(a[1] == f),
        FontChoice::BizUdGothic => assert(a[2] == f),
        FontChoice::MsGothic => assert(a[3] == f),
        FontChoice::NotoSansJp => assert(a[4] == f),
        FontChoice::IbmPlexSans => assert(a[5] == f),
    }
}

#[derive(Clone, Copy, Debug, PartialEq, Eq, Structural)]
pub struct Saved {
    pub theme_dark: bool,
    pub show_hidden: bool,
    pub font: FontChoice,
}

/// The settings used where none were saved.
pub open spec fn default_saved() -> Saved {
    Saved { theme_dark: true, show_hidden: false, font: FontChoice::NotoSansJp }
}

impl Default for Saved {
    fn default() -> (s: Self)
        ensures
            s == default_saved(),
    {
        Saved { theme_dark: true, show_hidden: false, font: FontChoice::NotoSansJp }
    }
}

/// The settings after one line of the settings file: a `key=value` line with
/// a known key (both sides trimmed) sets that setting; other lines change nothing.
pub open spec fn apply_setting(s: Saved, line: Seq<char>) -> Saved {
    match split_once_spec(line, '=') {
        Some((k, v)) => {
            let key = trim_spec(k);
            let value = trim_spec(v);
            if key == "theme"@ {
                Saved { theme_dark: value == "dark"@, ..s }
            } else if key == "show_hidden"@ {
                Saved { show_hidden: value == "true"@, ..s }
            } else if key == "font"@ {
                Saved { font: font_of_key(value), ..s }
            } else {
                s
            }
        },
        None => s,
    }
}

/// The settings that the given lines leave, starting from the defaults.
pub open spec fn settings_of_lines(ls: Seq<Seq<char>>) -> Saved
    decreases ls.len(),
{
    if ls.len() == 0 {
        default_saved()
    } else {
        apply_setting(settings_of_lines(ls.drop_last()), ls.last())
    }
}

/// The settings that a settings file's text holds.
pub open spec fn settings_of_text(text: Seq<char>) -> Saved {
    settings_of_lines(lines_of(text))
}

/// The text of the settings file for the given settings.
pub open spec fn settings_text_spec(theme_dark: bool, show_hidden: bool, font: FontChoice) -> Seq<
    char,
> {
    "theme="@ + (if theme_dark {
        "dark"@
    } else {
        "light"@
    }) + "\n"@ + "show_hidden="@ + (if show_hidden {
        "true"@
    } else {
        "false"@
    }) + "\n"@ + "font="@ + font_key(font) + "\n"@
}

/// The settings after one line.
fn apply_setting_line(s: Saved, line: &str) -> (r: Saved)
    ensures
        r == apply_setting(s, line@),
{
    let v = chars_of(line);
    match split_once_char(&v, '=') {
        Some((k, val)) => {
            let key = trim(&k);
            let value = trim(&val);
            if is_text(&key, "theme") {
                Saved { theme_dark: is_text(&value, "dark"), ..s }
            } else if is_text(&key, "show_hidden") {
                Saved { show_hidden: is_text(&value, "true"), ..s }
            } else if is_text(&key, "font") {
                Saved { font: FontChoice::from_chars(&value), ..s }
            } else {
                s
            }
        },
        None => s,
    }
}

/// Reads the settings from the text of the settings file; lines that are
/// not a known `key=value` are skipped, and later lines win.
pub fn parse_settings(text: &str) -> (s: Saved)
    ensures
        s == settings_of_text(text@),
{
    let ls = lines(text);
    let mut s = Saved::default();
    let n = ls.len();
    for i in 0..n
        invariant
            n == ls.len(),
            views(ls@) == lines_of(text@),
            s == settings_of_lines(views(ls@).take(i as int)),
    {
        proof {
            assert(views(ls@).take(i + 1).drop_last() =~= views(ls@).take(i as int));
            assert(views(ls@).take(i + 1).last() == ls@[i as int]@);
        }
        s = apply_setting_line(s, ls[i].as_str());
    }
    assert(views(ls@).take(n as int) =~= views(ls@));
    s
}

/// The text of the settings file for the given settings.
pub fn settings_text(theme_dark: bool, show_hidden: bool, font: &FontChoice) -> (r: String)
    ensures
        r@ == settings_text_spec(theme_dark, show_hidden, *font),
{
    let mut v: Vec<char> = Vec::new();
    push_str(&mut v, "theme=");
    push_str(
        &mut v,
        if theme_dark {
            "dark"
        } else {
            "light"
        },
    );
    push_str(&mut v, "\n");
    push_str(&mut v, "show_hidden=");
    push_str(
        &mut v,
        if show_hidden {
            "true"
        } else {
            "false"
        },
    );
    push_str(&mut v, "\n");
    push_str(&mut v, "font=");
    push_str(&mut v, font.as_str());
    push_str(&mut v, "\n");
    assert(v@ =~= settings_text_spec(theme_dark, show_hidden, *font));
    string_of(&v)
}

/// A `key=value` line whose key and value carry no '=', '\n' or outer
/// whitespace gives back that key and value.
proof fn lemma_setting_line(key: Seq<char>, value: Seq<char>)
    requires
        forall|j: int| 0 <= j < key.len() ==> key[j] != '=',
        key.len() > 0,
        value.len() > 0,
        !crate::text::is_whitespace(key[0]),
        !crate::text::is_whitespace(key.last()),
        !crate::text::is_whitespace(value[0]),
        !crate::text::is_whitespace(value.last()),
    ensures
        split_once_spec(key + "="@ + value, '=') == Some((key, value)),
        trim_spec(key) == key,
        trim_spec(value) == value,
{
    reveal_strlit("=");
    let line = key + "="@ + value;
    assert(line[key.len() as int] == '=');
    assert forall|j: int| 0 <= j < key.len() implies line[j] != '=' by {
        assert(line[j] == key[j]);
    }
    lemma_first_index_unique(line, '=', key.len() as int);
    assert(line.take(key.len() as int) =~= key);
    assert(line.skip(key.len() as int + 1) =~= value);
    assert(trim_start(key) == key);
    assert(trim_end(key) == key);
    assert(trim_start(value) == value);
    assert(trim_end(value) == value);
}

/// Lines without '\n' joined each with a final '\n' split back into those lines.
proof fn lemma_three_lines(a: Seq<char>, b: Seq<char>, c: Seq<char>)
    requires
        forall|j: int| 0 <= j < a.len() ==> a[j] != '\n',
        forall|j: int| 0 <= j < b.len() ==> b[j] != '\n',
        forall|j: int| 0 <= j < c.len() ==> c[j] != '\n',
        a.len() > 0 ==> a.last() != '\r',
        b.len() > 0 ==> b.last() != '\r',
        c.len() > 0 ==> c.last() != '\r',
    ensures
        lines_of(a + "\n"@ + b + "\n"@ + c + "\n"@) == seq![a, b, c],
{
    reveal_strlit("\n");
    let nl = "\n"@;
    assert(nl =~= seq!['\n']);
    let e = Seq::<char>::empty();
    lemma_lines_step(c, '\n', e);
    assert(c + seq!['\n'] + e =~= c + nl);
    assert(lines_of(e) == Seq::<Seq<char>>::empty());
    lemma_lines_step(b, '\n', c + nl);
    assert(b + seq!['\n'] + (c + nl) =~= b + nl + c + nl);
    lemma_lines_step(a, '\n', b + nl + c + nl);
    assert(a + seq!['\n'] + (b + nl + c + nl) =~= a + nl + b + nl + c + nl);
    assert(lines_of(a + nl + b + nl + c + nl) =~= seq![a, b, c]);
}

/// Saving the settings and reading the file back gives the same settings.
pub proof fn lemma_settings_roundtrip(theme_dark: bool, show_hidden: bool, font: FontChoice)
    ensures
        settings_of_text(settings_text_spec(theme_dark, show_hidden, font)) == (Saved {
            theme_dark,
            show_hidden,
            font,
        }),
{
    reveal_strlit("theme=");
    reveal_strlit("show_hidden=");
    reveal_strlit("font=");
    reveal_strlit("theme");
    reveal_strlit("show_hidden");
    reveal_strlit("font");
    reveal_strlit("dark");
    reveal_strlit("light");
    reveal_strlit("true");
    reveal_strlit("false");
    reveal_strlit("=");
    reveal_strlit("meiryo");
    reveal_strlit("yugothic");
    reveal_strlit("bizudgothic");
    reveal_strlit("msgothic");
    reveal_strlit("notosansjp");
    reveal_strlit("ibmplexsans");
    let tv = if theme_dark {
        "dark"@
    } else {
        "light"@
    };
    let hv = if show_hidden {
        "true"@
    } else {
        "false"@
    };
    let fv = font_key(font);
    let l1 = "theme"@ + "="@ + tv;
    let l2 = "show_hidden"@ + "="@ + hv;
    let l3 = "font"@ + "="@ + fv;
    assert("theme="@ =~= "theme"@ + "="@);
    assert("show_hidden="@ =~= "show_hidden"@ + "="@);
    assert("font="@ =~= "font"@ + "="@);
    assert(settings_text_spec(theme_dark, show_hidden, font) =~= l1 + "\n"@ + l2 + "\n"@ + l3
        + "\n"@);
    lemma_setting_line("theme"@, tv);
    lemma_setting_line("show_hidden"@, hv);
    lemma_setting_line("font"@, fv);
    lemma_three_lines(l1, l2, l3);
    lemma_font_key_roundtrip(font);
    let ls = seq![l1, l2, l3];
    assert(ls.drop_last().drop_last().drop_last() =~= Seq::<Seq<char>>::empty());
    assert(ls.drop_last().drop_last() =~= seq![l1]);
    assert(ls.drop_last() =~= seq![l1, l2]);
    assert("light"@ != "dark"@) by {
        assert("light"@.len() != "dark"@.len());
    }
    assert("false"@ != "true"@) by {
        assert("false"@.len() != "true"@.len());
    }
    assert("show_hidden"@ != "theme"@) by {
        assert("show_hidden"@[0] != "theme"@[0]);
    }
    assert("font"@ != "theme"@) by {
        assert("font"@[0] != "theme"@[0]);
    }
    assert("font"@ != "show_hidden"@) by {
        assert("font"@[0] != "show_hidden"@[0]);
    }
    let s0 = default_saved();
    let s1 = apply_setting(s0, l1);
    assert(s1 == Saved { theme_dark, ..s0 });
    let s2 = apply_setting(s1, l2);
    assert(s2 == Saved { theme_dark, show_hidden, ..s0 });
    let s3 = apply_setting(s2, l3);
    assert(s3 == Saved { theme_dark, show_hidden, font });
    assert(seq![l1].drop_last() =~= Seq::<Seq<char>>::empty());
    assert(seq![l1].last() == l1);
    assert(settings_of_lines(Seq::<Seq<char>>::empty()) == s0);
    assert(settings_of_lines(seq![l1]) == s1);
    assert(settings_of_lines(seq![l1, l2]) == s2);
    assert(settings_of_lines(ls) == s3);
}

} // verus!
