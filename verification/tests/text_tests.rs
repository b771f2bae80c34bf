use khimoo_portfolio::text::{
    char_is_whitespace, chars_of, contains, format_usize, last_segment_of, matches_at, replace,
    starts_with, str_eq, str_is_blank, take_before, trim, trim_end, trim_matches, trim_start,
    trim_start_matches,
};

#[test]
fn comparisons_and_searches() {
    assert!(str_eq("abc", "abc"));
    assert!(!str_eq("abc", "abd"));
    assert!(str_eq("", ""));
    assert_eq!(chars_of("aé日"), vec!['a', 'é', '日']);
    assert!(contains("khimoo.github.io", "github.io"));
    assert!(contains("abc", ""));
    assert!(contains("", ""));
    assert!(!contains("", "a"));
    assert!(!contains("github.i", "github.io"));
    assert!(contains("xxgithub.io", "github.io"));
    assert!(contains("aab", "ab"));
    assert!(starts_with("http://x", "http"));
    assert!(!starts_with("htt", "http"));
    assert!(!starts_with("xhttp", "http"));
    assert!(starts_with("anything", ""));
    let text = chars_of("abcabc");
    let pattern = chars_of("bc");
    assert!(matches_at(&text, &pattern, 1));
    assert!(matches_at(&text, &pattern, 4));
    assert!(!matches_at(&text, &pattern, 0));
    assert!(!matches_at(&text, &pattern, 5));
    assert!(!matches_at(&text, &pattern, 600));
}

#[test]
fn trimming() {
    assert_eq!(trim_start_matches("///a/b/", '/'), "a/b/");
    assert_eq!(trim_start_matches("a", '/'), "a");
    assert_eq!(trim_start_matches("//", '/'), "");
    assert_eq!(trim_matches("--a-b--", '-'), "a-b");
    assert_eq!(trim_matches("---", '-'), "");
    assert_eq!(trim_matches("", '-'), "");
    assert_eq!(trim("  \t a b \n"), "a b");
    assert_eq!(trim("\u{3000}全角\u{a0}"), "全角");
    assert_eq!(trim(" \r\n "), "");
    assert_eq!(trim_start("  a "), "a ");
    assert_eq!(trim_end("  a "), "  a");
    for text in ["", " ", " a", "a ", "\u{2028}x\u{85}", "\u{200b}x", "é \u{1680}"] {
        assert_eq!(trim(text), text.trim());
        assert_eq!(trim_start(text), text.trim_start());
        assert_eq!(trim_end(text), text.trim_end());
    }
    assert!(str_is_blank(""));
    assert!(str_is_blank(" \t\r\n\u{3000}"));
    assert!(!str_is_blank(" a "));
    for code in 0u32..0x3100 {
        if let Some(c) = char::from_u32(code) {
            assert_eq!(char_is_whitespace(c), c.is_whitespace(), "code {:x}", code);
        }
    }
}

#[test]
fn segments_and_splits() {
    assert_eq!(last_segment_of("../content/articles/about.md", '/'), "about.md");
    assert_eq!(last_segment_of("about.md", '/'), "about.md");
    assert_eq!(last_segment_of("dir/", '/'), "");
    assert_eq!(last_segment_of("", '/'), "");
    assert_eq!(take_before("a|b|c", '|'), "a");
    assert_eq!(take_before("abc", '|'), "abc");
    assert_eq!(take_before("", '|'), "");
}

#[test]
fn replacement() {
    assert_eq!(replace("a.b.c", ".", "--"), "a--b--c");
    assert_eq!(replace("aaa", "aa", "b"), "ba");
    assert_eq!(replace("abc", "abcd", "x"), "abc");
    assert_eq!(replace("abc", "", "x"), "abc");
    assert_eq!(replace("", "a", "x"), "");
    assert_eq!(replace("xyz", "z", ""), "xy");
    for (text, from, to) in [
        ("articles/img/author_img.png", "articles/img/author_img.png", "m.png"),
        ("ababab", "ab", "ba"),
        ("日本語の本", "本", "ほん"),
        ("aXbXc", "X", "X"),
    ] {
        assert_eq!(replace(text, from, to), text.replace(from, to));
    }
}

#[test]
fn decimal_numerals() {
    assert_eq!(format_usize(0), "0");
    assert_eq!(format_usize(7), "7");
    assert_eq!(format_usize(10), "10");
    assert_eq!(format_usize(1234567890), "1234567890");
    assert_eq!(format_usize(usize::MAX), usize::MAX.to_string());
}
