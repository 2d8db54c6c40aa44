use imv_tui::path::{extension, file_name, name_ext, path_components};
use imv_tui::sort::{sort_entries, SortEntry};
use imv_tui::text::{
    chars_of, decimal_string, find_char_from, lowercase_chars, parse_i32, parse_u32, parse_usize, trim_chars,
    uppercase_chars,
};

fn cv(s: &str) -> Vec<char> {
    s.chars().collect()
}

fn text(v: Vec<char>) -> String {
    v.into_iter().collect()
}

#[test]
fn integers_parse_with_signs_and_limits() {
    assert_eq!(parse_i32(&cv("-2147483648")), Some(i32::MIN));
    assert_eq!(parse_i32(&cv("+7")), Some(7));
    assert_eq!(parse_i32(&cv("-")), None);
    assert_eq!(parse_i32(&cv("")), None);
    assert_eq!(parse_i32(&cv("1 2")), None);
    assert_eq!(parse_u32(&cv("+7")), Some(7));
    assert_eq!(parse_u32(&cv("-7")), None);
    assert_eq!(parse_usize(&cv("0012")), Some(12));
}

#[test]
fn text_helpers() {
    assert_eq!(text(trim_chars(&cv(" \t ab c \n"))), "ab c");
    assert_eq!(find_char_from(&cv("a:b:c"), ':', 2), Some(1));
    assert_eq!(find_char_from(&cv("abc"), ':', 0), None);
    assert_eq!(decimal_string(0), "0");
    assert_eq!(decimal_string(1234567890), "1234567890");
    assert_eq!(chars_of("hé"), vec!['h', 'é']);
    // case mappings go through the standard library: non-ASCII letters too
    assert_eq!(text(lowercase_chars(&cv("ÄbC"))), "äbc");
    assert_eq!(text(uppercase_chars(&cv("straße"))), "STRASSE");
}

#[test]
fn path_parts() {
    let comps: Vec<String> = path_components(&cv("/a//b/./c.tar.gz")).into_iter().map(text).collect();
    assert_eq!(comps, vec!["/", "a", "b", "c.tar.gz"]);
    assert_eq!(file_name(&cv("dir/file.png")).map(text), Some("file.png".to_string()));
    assert_eq!(file_name(&cv("dir/..")), None);
    assert_eq!(extension(&cv("x/c.tar.gz")).map(text), Some("gz".to_string()));
    assert_eq!(extension(&cv("x/.hidden")), None);
    assert_eq!(name_ext(&cv("noext")), None);
}

#[test]
fn entries_sort_stably_by_key() {
    let e = |present: bool, key: &str, value: &str| SortEntry { present, key: cv(key), value: value.to_string() };
    let sorted = sort_entries(vec![e(true, "b", "1"), e(true, "a", "2"), e(false, "", "3"), e(true, "a", "4")]);
    let values: Vec<String> = sorted.into_iter().map(|s| s.value).collect();
    assert_eq!(values, vec!["3", "2", "4", "1"]);
}
