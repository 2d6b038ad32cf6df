use lfm_cmd::text::{chars_of, contains_str, replace_all, trim_str, usize_string};

#[test]
fn digits_render_exactly() {
    assert_eq!(usize_string(0), "0");
    assert_eq!(usize_string(7), "7");
    assert_eq!(usize_string(42), "42");
    assert_eq!(usize_string(1234567890), "1234567890");
}

#[test]
fn replace_substitutes_every_occurrence() {
    assert_eq!(replace_all("a{X}b{X}", "{X}", "yy"), "ayybyy");
    assert_eq!(replace_all("{TEXT}", "{TEXT}", ""), "");
    assert_eq!(replace_all("no placeholder", "{TEXT}", "zz"), "no placeholder");
}

#[test]
fn replace_scans_left_to_right_without_overlap() {
    assert_eq!(replace_all("aaa", "aa", "b"), "ba");
    assert_eq!(replace_all("aaaa", "aa", "b"), "bb");
}

#[test]
fn replace_with_empty_pattern_changes_nothing() {
    assert_eq!(replace_all("abc", "", "zz"), "abc");
}

#[test]
fn replace_handles_multibyte_text() {
    assert_eq!(
        replace_all("こんにちは{TEXT}世界", "{TEXT}", "、"),
        "こんにちは、世界"
    );
}

#[test]
fn trim_removes_surrounding_white_space() {
    assert_eq!(trim_str("  \t\nhello \u{3000}"), "hello");
    assert_eq!(trim_str("   "), "");
    assert_eq!(trim_str(""), "");
    assert_eq!(trim_str("内部 空白 は残る"), "内部 空白 は残る");
}

#[test]
fn contains_finds_patterns() {
    assert!(contains_str("今回は特になしです", "特になし"));
    assert!(!contains_str("要約です", "特になし"));
    assert!(contains_str("anything", ""));
}

#[test]
fn chars_collects_in_order() {
    let v = chars_of("a。b");
    assert_eq!(v, vec!['a', '。', 'b']);
}
