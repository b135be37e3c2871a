use password_manager::text::{find_char, split, str_eq, str_eq_ignore_ascii_case, trim};

#[test]
fn trim_matches_str_trim() {
    let cases = [
        "",
        "   ",
        "a",
        " a ",
        "\t a b \n",
        "\u{00A0}x\u{3000}",
        "no-space",
    ];
    for case in cases {
        assert_eq!(trim(case), case.trim(), "case {:?}", case);
    }
}

#[test]
fn split_keeps_empty_pieces() {
    assert_eq!(split("a,b,,c", ','), vec!["a", "b", "", "c"]);
    assert_eq!(split("", ','), vec![""]);
    assert_eq!(split(",", ','), vec!["", ""]);
    assert_eq!(split("abc", ','), vec!["abc"]);
}

#[test]
fn find_char_finds_first_occurrence() {
    assert_eq!(find_char("a:b:c", ':'), Some(1));
    assert_eq!(find_char("abc", ':'), None);
    assert_eq!(find_char(":x", ':'), Some(0));
}

#[test]
fn str_eq_decides_equality() {
    assert!(str_eq("abc", "abc"));
    assert!(!str_eq("abc", "abd"));
    assert!(!str_eq("abc", "ab"));
    assert!(str_eq("", ""));
}

#[test]
fn case_insensitive_equality_is_ascii_only() {
    assert!(str_eq_ignore_ascii_case("Web", "wEB"));
    assert!(str_eq_ignore_ascii_case("", ""));
    assert!(!str_eq_ignore_ascii_case("web", "webs"));
    assert!(!str_eq_ignore_ascii_case("web", "wee"));
}
