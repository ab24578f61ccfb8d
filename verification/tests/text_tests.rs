use filox::naming::{candidate_name, new_file_content, split_stem_ext, unique_name, unique_path};
use filox::text::{chars_of, decimal_string, lines, same_text, trim};

#[test]
fn lines_match_std() {
    let samples = [
        "", "\n", "a", "a\n", "a\nb", "a\r\nb\r\n", "a\r", "\r\n\r\n", "x\n\ny\n", "tab\there\n",
        "\r", "a\rb\nc", "end\r\r\n",
    ];
    for s in samples {
        let expected: Vec<String> = s.lines().map(|l| l.to_string()).collect();
        assert_eq!(lines(s), expected, "text = {s:?}");
    }
}

#[test]
fn trim_matches_std() {
    let samples = [
        "", " ", "  a  ", "\t\nx y\r\n", "\u{3000}全角\u{3000}", "\u{a0}a\u{85}", "\u{2028}b\u{2029}",
        "\u{200b}zero width\u{200b}", "\u{1680}\u{2000}\u{200a}c\u{202f}\u{205f}", "\u{b}\u{c}d",
    ];
    for s in samples {
        let t = trim(&chars_of(s));
        assert_eq!(t.iter().collect::<String>(), s.trim(), "text = {s:?}");
    }
}

#[test]
fn decimal_and_equality() {
    assert_eq!(decimal_string(0), "0");
    assert_eq!(decimal_string(7), "7");
    assert_eq!(decimal_string(1234567890), "1234567890");
    assert_eq!(decimal_string(u64::MAX), u64::MAX.to_string());
    assert!(same_text("abc", "abc"));
    assert!(!same_text("abc", "abd"));
    assert!(!same_text("abc", "ab"));
}

#[test]
fn split_stem_ext_cases() {
    assert_eq!(split_stem_ext("新しいテキスト ドキュメント.txt"), ("新しいテキスト ドキュメント".to_string(), "txt".to_string()));
    assert_eq!(split_stem_ext("archive.tar.gz"), ("archive.tar".to_string(), "gz".to_string()));
    assert_eq!(split_stem_ext(".bashrc"), (".bashrc".to_string(), String::new()));
    assert_eq!(split_stem_ext("README"), ("README".to_string(), String::new()));
    assert_eq!(split_stem_ext("name."), ("name".to_string(), String::new()));
}

#[test]
fn split_then_name_gives_the_name_back() {
    for f in ["a.txt", "report.final.docx", ".hidden", "plain", "x.rtf"] {
        let (stem, ext) = split_stem_ext(f);
        assert_eq!(candidate_name(&stem, &ext, 0), f);
    }
    // the one exception: a final '.' after the first character is lost
    let (stem, ext) = split_stem_ext("name.");
    assert_eq!(candidate_name(&stem, &ext, 0), "name");
}

#[test]
fn candidate_names() {
    assert_eq!(candidate_name("新しいフォルダー", "", 0), "新しいフォルダー");
    assert_eq!(candidate_name("新しいフォルダー", "", 2), "新しいフォルダー (2)");
    assert_eq!(candidate_name("doc", "txt", 0), "doc.txt");
    assert_eq!(candidate_name("doc", "txt", 13), "doc (13).txt");
}

#[test]
fn unique_name_takes_first_free() {
    let taken = ["doc.txt", "doc (2).txt", "doc (3).txt"];
    let r = unique_name("doc", "txt", &|s: &String| taken.contains(&s.as_str()));
    assert_eq!(r, "doc (4).txt");
    let r = unique_name("doc", "txt", &|_s: &String| false);
    assert_eq!(r, "doc.txt");
}

#[test]
fn unique_path_joins_the_folder() {
    let dir = std::path::Path::new("/data/work");
    let taken: Vec<String> = ["a.txt", "a (2).txt"]
        .iter()
        .map(|n| dir.join(n).to_string_lossy().to_string())
        .collect();
    let occupied = |p: &String| taken.contains(p);
    let r = unique_path("/data/work", "a", "txt", &occupied);
    assert_eq!(r, dir.join("a (3).txt").to_string_lossy().to_string());
    let r = unique_path("/data/work", "b", "", &occupied);
    assert_eq!(r, dir.join("b").to_string_lossy().to_string());
}

#[test]
fn new_file_contents() {
    assert_eq!(new_file_content("rtf"), b"{\\rtf1}".to_vec());
    assert_eq!(new_file_content("txt"), Vec::<u8>::new());
    assert_eq!(new_file_content(""), Vec::<u8>::new());
}
