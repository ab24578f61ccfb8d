use filox::fonts::{font_families, BundledFonts};
use filox::settings::{parse_settings, settings_text, FontChoice, Saved};

#[test]
fn font_keys_round_trip() {
    for f in FontChoice::all() {
        assert_eq!(FontChoice::from_str(f.as_str()), f);
    }
    assert_eq!(FontChoice::from_str("unknown"), FontChoice::Meiryo);
    assert_eq!(FontChoice::from_str(""), FontChoice::Meiryo);
}

#[test]
fn font_list_and_labels() {
    let all = FontChoice::all();
    assert_eq!(all.len(), 6);
    assert_eq!(all[0], FontChoice::Meiryo);
    assert_eq!(all[5], FontChoice::IbmPlexSans);
    assert_eq!(FontChoice::Meiryo.label(), "メイリオ");
    assert_eq!(FontChoice::NotoSansJp.label(), "Noto Sans JP (内蔵)");
    assert_eq!(FontChoice::BizUdGothic.as_str(), "bizudgothic");
}

#[test]
fn settings_round_trip() {
    for dark in [true, false] {
        for hidden in [true, false] {
            for f in FontChoice::all() {
                let text = settings_text(dark, hidden, &f);
                let s = parse_settings(&text);
                assert_eq!(s, Saved { theme_dark: dark, show_hidden: hidden, font: f });
            }
        }
    }
}

#[test]
fn settings_text_format() {
    assert_eq!(
        settings_text(false, true, &FontChoice::MsGothic),
        "theme=light\nshow_hidden=true\nfont=msgothic\n"
    );
}

#[test]
fn settings_parse_defaults_and_overrides() {
    assert_eq!(parse_settings(""), Saved::default());
    assert_eq!(Saved::default(), Saved { theme_dark: true, show_hidden: false, font: FontChoice::NotoSansJp });
    let s = parse_settings("  theme = light \r\n garbage\nfont= yugothic\nshow_hidden=yes\nfont=ibmplexsans");
    assert_eq!(s, Saved { theme_dark: false, show_hidden: false, font: FontChoice::IbmPlexSans });
    let s = parse_settings("theme=dark=x\nshow_hidden=true");
    assert_eq!(s, Saved { theme_dark: false, show_hidden: true, font: FontChoice::NotoSansJp });
}

fn strings(v: &[&str]) -> Vec<String> {
    v.iter().map(|s| s.to_string()).collect()
}

#[test]
fn font_family_order() {
    let all = BundledFonts { material: true, jetbrains: true, ibm_plex: true, noto_sans_jp: true };
    let prop = strings(&["Ubuntu-Light", "NotoEmoji-Regular"]);
    let mono = strings(&["Hack", "Ubuntu-Light"]);
    let (p, m) = font_families(FontChoice::Meiryo, true, all, &prop, &mono);
    assert_eq!(p, strings(&["PrimaryFont", "Ubuntu-Light", "NotoEmoji-Regular", "IBMPlexSans", "NotoSansJP", "MaterialSymbols"]));
    assert_eq!(m, strings(&["PrimaryFont", "Hack", "Ubuntu-Light", "JetBrainsMono", "NotoSansJP", "MaterialSymbols"]));
    // a system font that could not be read is left out
    let (p, m) = font_families(FontChoice::MsGothic, false, all, &prop, &mono);
    assert_eq!(p[0], "Ubuntu-Light");
    assert_eq!(m[0], "Hack");
    // a bundled choice comes first and is not repeated as a fallback
    let (p, m) = font_families(FontChoice::IbmPlexSans, false, all, &prop, &mono);
    assert_eq!(p, strings(&["IBMPlexSans", "Ubuntu-Light", "NotoEmoji-Regular", "NotoSansJP", "MaterialSymbols"]));
    assert_eq!(m, strings(&["IBMPlexSans", "Hack", "Ubuntu-Light", "JetBrainsMono", "NotoSansJP", "MaterialSymbols"]));
    let (p, _m) = font_families(FontChoice::NotoSansJp, false, all, &prop, &mono);
    assert_eq!(p, strings(&["PrimaryFont", "Ubuntu-Light", "NotoEmoji-Regular", "IBMPlexSans", "MaterialSymbols"]));
    // without bundled files only egui's fonts and the system font remain
    let none = BundledFonts { material: false, jetbrains: false, ibm_plex: false, noto_sans_jp: false };
    let (p, m) = font_families(FontChoice::NotoSansJp, true, none, &prop, &mono);
    assert_eq!(p, prop);
    assert_eq!(m, mono);
}
