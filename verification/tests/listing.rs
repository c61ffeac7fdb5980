use version_switch::error::SwitchError;
use version_switch::lister::{denotes_version, insert_sorted, list_versions, DirEntry, DirListing};
use version_switch::text::{chars_equal, chars_le, chars_of, str_eq, str_le};

fn dir(name: &str) -> DirEntry {
    DirEntry { name: name.to_string(), is_dir: true }
}

fn file(name: &str) -> DirEntry {
    DirEntry { name: name.to_string(), is_dir: false }
}

fn strings(names: &[&str]) -> Vec<String> {
    names.iter().map(|s| s.to_string()).collect()
}

#[test]
fn lists_directories_without_current_in_order() {
    let listing = DirListing::Entries(vec![
        dir("2.0"),
        dir("1.5"),
        file("current"),
        dir("10.0"),
        file("README"),
    ]);
    assert_eq!(list_versions(&listing), Ok(strings(&["1.5", "10.0", "2.0"])));
}

#[test]
fn current_is_left_out_even_as_a_directory() {
    let listing = DirListing::Entries(vec![dir("current"), dir("3.1"), dir("Current")]);
    assert_eq!(list_versions(&listing), Ok(strings(&["3.1", "Current"])));
}

#[test]
fn files_are_never_versions() {
    let listing = DirListing::Entries(vec![file("1.0"), file("2.0")]);
    assert_eq!(list_versions(&listing), Ok(Vec::<String>::new()));
}

#[test]
fn empty_directory_lists_nothing() {
    assert_eq!(list_versions(&DirListing::Entries(vec![])), Ok(Vec::<String>::new()));
}

#[test]
fn order_is_case_sensitive() {
    let listing = DirListing::Entries(vec![dir("beta"), dir("Alpha"), dir("alpha"), dir("Beta")]);
    assert_eq!(list_versions(&listing), Ok(strings(&["Alpha", "Beta", "alpha", "beta"])));
}

#[test]
fn prefix_comes_before_its_extensions() {
    let listing = DirListing::Entries(vec![dir("1.10"), dir("1.1.1"), dir("1.1"), dir("1")]);
    assert_eq!(list_versions(&listing), Ok(strings(&["1", "1.1", "1.1.1", "1.10"])));
}

#[test]
fn listing_does_not_depend_on_read_order() {
    let one = DirListing::Entries(vec![dir("c"), dir("a"), file("x"), dir("b")]);
    let other = DirListing::Entries(vec![dir("b"), file("x"), dir("c"), dir("a")]);
    assert_eq!(list_versions(&one), list_versions(&other));
    assert_eq!(list_versions(&one), Ok(strings(&["a", "b", "c"])));
}

#[test]
fn listing_agrees_with_the_order_of_strings() {
    let raw = ["zeta", "10", "9", "Zeta", "a b", "é", "~", "", "1.0-rc1", "1.0", "日本"];
    let listing = DirListing::Entries(raw.iter().map(|n| dir(n)).collect());
    let mut expected = strings(&raw);
    expected.sort();
    assert_eq!(list_versions(&listing), Ok(expected));
}

#[test]
fn missing_directory_is_not_found() {
    assert_eq!(list_versions(&DirListing::Missing), Err(SwitchError::DirectoryNotFound));
}

#[test]
fn unreadable_directory_is_reported() {
    assert_eq!(list_versions(&DirListing::Unreadable), Err(SwitchError::DirectoryUnreadable));
}

#[test]
fn denotes_version_needs_a_directory_not_named_current() {
    assert!(denotes_version(&dir("1.0")));
    assert!(!denotes_version(&file("1.0")));
    assert!(!denotes_version(&dir("current")));
    assert!(denotes_version(&dir("currents")));
    assert!(denotes_version(&dir("")));
}

#[test]
fn insert_sorted_keeps_the_order() {
    let mut list = strings(&["a", "c", "e"]);
    insert_sorted(&mut list, "d".to_string());
    assert_eq!(list, strings(&["a", "c", "d", "e"]));
    insert_sorted(&mut list, "0".to_string());
    assert_eq!(list, strings(&["0", "a", "c", "d", "e"]));
    insert_sorted(&mut list, "z".to_string());
    insert_sorted(&mut list, "c".to_string());
    assert_eq!(list, strings(&["0", "a", "c", "c", "d", "e", "z"]));
}

#[test]
fn str_le_is_the_order_of_strings() {
    let samples = ["", "a", "A", "ab", "b", "1.5", "10.0", "2.0", "é", "e", "~", "日本", "\u{10FFFF}"];
    for a in samples.iter() {
        for b in samples.iter() {
            assert_eq!(str_le(a, b), a <= b);
            assert_eq!(str_eq(a, b), a == b);
        }
    }
}

#[test]
fn chars_of_gives_each_character() {
    assert_eq!(chars_of("a1é"), vec!['a', '1', 'é']);
    assert_eq!(chars_of(""), Vec::<char>::new());
}

#[test]
fn chars_are_compared_in_order() {
    assert!(chars_equal(&vec!['a', 'b'], &vec!['a', 'b']));
    assert!(!chars_equal(&vec!['a', 'b'], &vec!['a']));
    assert!(!chars_equal(&vec!['a', 'b'], &vec!['a', 'c']));
    assert!(chars_le(&vec![], &vec!['a']));
    assert!(!chars_le(&vec!['a'], &vec![]));
    assert!(chars_le(&vec!['a', 'z'], &vec!['b']));
    assert!(!chars_le(&vec!['b'], &vec!['a', 'z']));
    assert!(chars_le(&vec!['a'], &vec!['a']));
}
