use hob::paths;
use hob::text;
use std::path::Path;

fn std_join(base: &str, rel: &str) -> String {
    Path::new(base).join(rel).to_string_lossy().into_owned()
}

#[test]
fn join_agrees_with_the_standard_library() {
    let cases = [
        ("/tmp/hob/root", ".hob/dest"),
        ("/tmp/hob/root/", ".hob/dest"),
        ("a", "b"),
        ("a", ""),
        ("", "b"),
        ("", ""),
        ("a/b", "/c"),
        ("/", "x"),
        ("a//", "b"),
        ("/tmp/hob/cache", "abc-file.tar.gz"),
    ];
    for (base, rel) in cases {
        assert_eq!(paths::join(base, rel), std_join(base, rel), "{:?} {:?}", base, rel);
    }
}

#[test]
fn join_puts_one_separator_between() {
    assert_eq!(paths::join("/tmp/hob/root", ".hob/dest"), "/tmp/hob/root/.hob/dest");
    assert_eq!(paths::join("/tmp/hob/root/", ".hob/dest"), "/tmp/hob/root/.hob/dest");
    assert_eq!(paths::join("a", "/etc"), "/etc");
}

#[test]
fn file_name_agrees_with_the_standard_library() {
    let cases = [
        "", "/", "a", "a/", "a/b", "a/b/", "a/.", "a/..", ".", "..", "./.", "a//b", "/a",
        "x.tar.gz", "/cache/0a-x.tar.gz", "dir/x.tar/", "dir/x.tar/.", "..a", "a/./b", "//",
        "a/b/./", ".hidden", "a/...",
    ];
    for case in cases {
        let expected = Path::new(case).file_name().map(|n| n.to_string_lossy().into_owned());
        assert_eq!(paths::file_name(case), expected, "{:?}", case);
    }
}

#[test]
fn parent_agrees_with_the_standard_library() {
    let cases = [
        "", "/", "a", "a/", "a/b", "a/b/", "a/.", ".", "a//b", "/a", "usr/bin/tool",
        "a/./b", "/a/b", "a/b/./", "usr/share/man/man1/x.1",
    ];
    for case in cases {
        let expected = Path::new(case).parent().map(|n| n.to_string_lossy().into_owned());
        assert_eq!(paths::parent(case), expected, "{:?}", case);
    }
}

#[test]
fn decimal_writes_numbers_in_base_ten() {
    assert_eq!(text::decimal_string(0), "0");
    assert_eq!(text::decimal_string(7), "7");
    assert_eq!(text::decimal_string(10), "10");
    assert_eq!(text::decimal_string(1234567890), "1234567890");
    assert_eq!(text::decimal_string(u128::MAX), u128::MAX.to_string());
}

#[test]
fn join_strings_puts_the_separator_between_neighbours() {
    let none: Vec<String> = vec![];
    assert_eq!(text::join(&none, " "), "");
    assert_eq!(text::join(&vec!["MIT".to_string()], " "), "MIT");
    assert_eq!(
        text::join(&vec!["a".to_string(), "b".to_string(), "c".to_string()], ", "),
        "a, b, c"
    );
}

#[test]
fn str_equal_compares_characters() {
    assert!(text::str_equal("fetch", "fetch"));
    assert!(!text::str_equal("fetch", "fetcH"));
    assert!(!text::str_equal("fetch", "fetc"));
    assert!(text::str_equal("", ""));
    assert!(text::str_equal("grüße", "grüße"));
}

#[test]
fn ends_with_looks_at_the_end() {
    let s: Vec<char> = "x.tar.gz".chars().collect();
    let yes: Vec<char> = ".tar.gz".chars().collect();
    let no: Vec<char> = ".tar".chars().collect();
    let long: Vec<char> = "xx.tar.gz.".chars().collect();
    assert!(text::ends_with(&s, &yes));
    assert!(!text::ends_with(&s, &no));
    assert!(!text::ends_with(&s, &long));
    assert!(text::ends_with(&s, &vec![]));
}
