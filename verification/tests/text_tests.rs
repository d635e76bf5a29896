use pypack::order::{sort_dedup, sort_strings, str_lt};
use pypack::text::{
    count_of_char, has_prefix, has_substring, has_suffix, index_of_char, join_strings,
    split_lines, str_eq, terminate_strings, trim_start_str, trim_str,
};

fn strings(items: &[&str]) -> Vec<String> {
    items.iter().map(|s| s.to_string()).collect()
}

#[test]
fn trimming() {
    assert_eq!(trim_str("  a b \t\r\n"), "a b");
    assert_eq!(trim_str("\u{3000}x\u{a0}"), "x");
    assert_eq!(trim_str("   "), "");
    assert_eq!(trim_start_str("  {x} "), "{x} ");
}

#[test]
fn line_splitting() {
    assert_eq!(split_lines(""), Vec::<String>::new());
    assert_eq!(split_lines("a\nb"), strings(&["a", "b"]));
    assert_eq!(split_lines("a\nb\n"), strings(&["a", "b"]));
    assert_eq!(split_lines("a\n\nb"), strings(&["a", "", "b"]));
    assert_eq!(split_lines("\n"), strings(&[""]));
}

#[test]
fn searching() {
    assert!(has_prefix("cpython-3.11", "cpython-"));
    assert!(!has_prefix("cp", "cpython"));
    assert!(has_suffix("x.tar.gz", ".tar.gz"));
    assert!(!has_suffix("x.zip", ".tar.gz"));
    assert!(has_substring("error: linker `cc` not found", "linker"));
    assert!(!has_substring("error", "linker"));
    assert!(has_substring("abc", ""));
    assert_eq!(index_of_char("a=b=c", '='), 1);
    assert_eq!(index_of_char("abc", '='), 3);
    assert_eq!(count_of_char("a-b-c", '-'), 2);
    assert!(str_eq("abc", "abc"));
    assert!(!str_eq("abc", "abd"));
}

#[test]
fn joining() {
    assert_eq!(join_strings(&strings(&["a", "b", "c"]), "\n  "), "a\n  b\n  c");
    assert_eq!(join_strings(&strings(&[]), ","), "");
    assert_eq!(terminate_strings(&strings(&["a", "b"]), "\n"), "a\nb\n");
}

#[test]
fn ordering_matches_string_order() {
    assert!(str_lt("abc", "abd"));
    assert!(str_lt("ab", "abc"));
    assert!(!str_lt("abc", "abc"));
    assert!(!str_lt("b", "abc"));
    assert!(str_lt("Z", "a"));
}

#[test]
fn sorting_with_and_without_duplicates() {
    let v = strings(&["numpy", "attrs", "requests", "attrs", "Flask"]);
    assert_eq!(sort_dedup(&v), strings(&["Flask", "attrs", "numpy", "requests"]));
    assert_eq!(sort_strings(&v), strings(&["Flask", "attrs", "attrs", "numpy", "requests"]));
    let mut expected = v.clone();
    expected.sort();
    assert_eq!(sort_strings(&v), expected);
    expected.dedup();
    assert_eq!(sort_dedup(&v), expected);
}
