use disk_cleaner::rollup::rollup;
use disk_cleaner::sorting::{stable_order, text_less, IntKey, TextKey};
use disk_cleaner::text::{
    chars_of, concat2, concat3, concat5, decimal_string, str_contains, str_ends_with, str_eq,
    str_starts_with, string_of_chars,
};

#[test]
fn decimal_rendering() {
    assert_eq!(decimal_string(0), "0");
    assert_eq!(decimal_string(7), "7");
    assert_eq!(decimal_string(1234567890), "1234567890");
    assert_eq!(decimal_string(u64::MAX), "18446744073709551615");
}

#[test]
fn substring_tests() {
    assert!(str_contains("/home/u/node_modules/x", "node_modules"));
    assert!(!str_contains("abc", "abcd"));
    assert!(str_contains("abc", ""));
    assert!(str_starts_with("/usr/bin", "/usr"));
    assert!(str_ends_with("file.tar.gz", ".tar.gz"));
    assert!(str_eq("a", "a"));
    assert!(!str_eq("a", "b"));
}

#[test]
fn string_assembly() {
    assert_eq!(concat2("a", "b"), "ab");
    assert_eq!(concat3("a", "b", "c"), "abc");
    assert_eq!(concat5("1", "2", "3", "4", "5"), "12345");
    let cs = chars_of("héllo");
    assert_eq!(cs, vec!['h', 'é', 'l', 'l', 'o']);
    assert_eq!(string_of_chars(&cs), "héllo");
}

#[test]
fn stable_sorting() {
    let keys = vec![IntKey(3), IntKey(1), IntKey(3), IntKey(2)];
    assert_eq!(stable_order(&keys, false), vec![1, 3, 0, 2]);
    assert_eq!(stable_order(&keys, true), vec![0, 2, 3, 1]);
    let words = vec![TextKey(vec!['b']), TextKey(vec!['a', 'b']), TextKey(vec!['a'])];
    assert_eq!(stable_order(&words, false), vec![2, 1, 0]);
    assert!(text_less(&vec!['a'], &vec!['a', 'a']));
    assert!(!text_less(&vec!['b'], &vec!['a', 'z']));
}

#[test]
fn rollup_totals_by_key() {
    let ks = vec![Some("x".to_string()), None, Some("y".to_string()), Some("x".to_string())];
    let sizes = vec![1, 100, 5, 10];
    let (names, totals) = rollup(&ks, &sizes);
    assert_eq!(names, vec!["x".to_string(), "y".to_string()]);
    assert_eq!(totals, vec![11, 5]);
}
