use path_selector::error::DirectoryError;
use path_selector::listing::{listing_of, sentinel_name, sort_names};
use path_selector::order::name_precedes;
use path_selector::snapshot::{collect_names, Children, DirectorySnapshot, Reading};

fn names(list: &[&str]) -> Vec<String> {
    list.iter().map(|s| s.to_string()).collect()
}

fn read(list: &[&str]) -> Reading {
    Ok(list.iter().map(|s| Ok(s.to_string())).collect())
}

#[test]
fn sentinel_is_two_full_stops() {
    assert_eq!(sentinel_name(), "..");
}

#[test]
fn name_order_is_by_bytes() {
    assert!(name_precedes("a", "b"));
    assert!(!name_precedes("b", "a"));
    assert!(name_precedes("a", "a"));
    assert!(name_precedes("", "a"));
    assert!(!name_precedes("a", ""));
    assert!(name_precedes("", ""));
    assert!(name_precedes("a", "ab"));
    assert!(!name_precedes("ab", "a"));
    assert!(name_precedes("Z", "a"));
    assert!(!name_precedes("a", "Z"));
    assert!(name_precedes("..", "a"));
    assert!(name_precedes(".-", ".."));
    assert!(!name_precedes("..", ".-"));
    assert!(name_precedes("z", "\u{e9}"));
    assert!(name_precedes("\u{e9}", "\u{4e2d}"));
    assert!(!name_precedes("\u{4e2d}", "\u{e9}"));
}

#[test]
fn name_order_agrees_with_str_order() {
    let samples = ["", ".", "..", "...", ".-", "-", "A", "a", "ab", "b", "\u{e9}", "\u{1f600}", "~"];
    for a in samples.iter() {
        for b in samples.iter() {
            assert_eq!(name_precedes(a, b), a <= b, "{:?} {:?}", a, b);
        }
    }
}

#[test]
fn sort_names_orders_and_keeps_every_name() {
    let sorted = sort_names(names(&["pear", "apple", "fig", "apple", "Fig", ""]));
    assert_eq!(sorted, names(&["", "Fig", "apple", "apple", "fig", "pear"]));
}

#[test]
fn sort_names_of_nothing_is_nothing() {
    assert_eq!(sort_names(Vec::new()), Vec::<String>::new());
}

#[test]
fn sort_names_leaves_a_sorted_list_alone() {
    let sorted = sort_names(names(&["a", "b", "c", "d"]));
    assert_eq!(sorted, names(&["a", "b", "c", "d"]));
    let sorted = sort_names(names(&["d", "c", "b", "a"]));
    assert_eq!(sorted, names(&["a", "b", "c", "d"]));
}

#[test]
fn listing_with_parent_holds_the_sentinel_once() {
    let entries = listing_of(names(&["y", "x"]), true);
    assert_eq!(entries, names(&["..", "x", "y"]));
    assert_eq!(entries.iter().filter(|e| e.as_str() == "..").count(), 1);
}

#[test]
fn listing_without_parent_holds_no_sentinel() {
    let entries = listing_of(names(&["y", "x"]), false);
    assert_eq!(entries, names(&["x", "y"]));
    assert!(!entries.contains(&"..".to_string()));
}

#[test]
fn sentinel_takes_its_place_in_the_order() {
    let entries = listing_of(names(&["a", ".-", "-", "...", "!"]), true);
    assert_eq!(entries, names(&["!", "-", ".-", "..", "...", "a"]));
}

#[test]
fn listing_of_an_empty_directory() {
    assert_eq!(listing_of(Vec::new(), true), names(&[".."]));
    assert_eq!(listing_of(Vec::new(), false), Vec::<String>::new());
}

#[test]
fn collect_names_keeps_the_order_read() {
    let children: Children = vec![Ok("b".to_string()), Ok("a".to_string())];
    assert_eq!(collect_names(children), Ok(names(&["b", "a"])));
}

#[test]
fn collect_names_stops_at_the_first_failure() {
    let children: Children = vec![
        Ok("b".to_string()),
        Err(DirectoryError::new("first".to_string())),
        Ok("a".to_string()),
        Err(DirectoryError::new("second".to_string())),
    ];
    let e = collect_names(children).unwrap_err();
    assert_eq!(e.reason(), "first");
}

#[test]
fn snapshot_of_the_example_directory() {
    let snapshot = DirectorySnapshot::construct("/a".to_string(), read(&["x", "y"])).unwrap();
    assert_eq!(snapshot.path(), "/a");
    assert_eq!(snapshot.entries(), &names(&["..", "x", "y"]));
}

#[test]
fn snapshot_of_the_root_has_no_sentinel() {
    let snapshot = DirectorySnapshot::construct("/".to_string(), read(&["usr", "bin", "etc"])).unwrap();
    assert_eq!(snapshot.path(), "/");
    assert_eq!(snapshot.entries(), &names(&["bin", "etc", "usr"]));
}

#[test]
fn snapshot_of_a_relative_directory_has_a_parent() {
    let snapshot = DirectorySnapshot::construct("a".to_string(), read(&["x"])).unwrap();
    assert_eq!(snapshot.entries(), &names(&["..", "x"]));
}

#[test]
fn snapshot_of_the_empty_path_has_no_parent() {
    let snapshot = DirectorySnapshot::construct("".to_string(), read(&["x"])).unwrap();
    assert_eq!(snapshot.entries(), &names(&["x"]));
}

#[test]
fn snapshot_with_parent_known_goes_by_what_it_is_told() {
    let snapshot = DirectorySnapshot::with_parent_known("/".to_string(), true, read(&["x"])).unwrap();
    assert_eq!(snapshot.entries(), &names(&["..", "x"]));
    let snapshot = DirectorySnapshot::with_parent_known("/a".to_string(), false, read(&["x"])).unwrap();
    assert_eq!(snapshot.entries(), &names(&["x"]));
}

#[test]
fn snapshot_fails_when_the_directory_could_not_be_opened() {
    let listing: Reading = Err(DirectoryError::new("permission denied".to_string()));
    let e = DirectorySnapshot::construct("/a".to_string(), listing).unwrap_err();
    assert_eq!(e, DirectoryError::new("permission denied".to_string()));
    assert_eq!(e.reason(), "permission denied");
}

#[test]
fn snapshot_fails_with_the_first_unread_child() {
    let listing: Reading = Ok(vec![
        Ok("x".to_string()),
        Err(DirectoryError::new("gone".to_string())),
        Err(DirectoryError::new("later".to_string())),
    ]);
    let e = DirectorySnapshot::construct("/a".to_string(), listing).unwrap_err();
    assert_eq!(e.reason(), "gone");
}

#[test]
fn sort_names_agrees_with_the_order_of_str_on_many_names() {
    let mut seed: u64 = 0x2545_f491_4f6c_dd1d;
    let mut list: Vec<String> = Vec::new();
    for _ in 0..1500 {
        let mut name = String::new();
        seed = seed.wrapping_mul(6364136223846793005).wrapping_add(1442695040888963407);
        let len = (seed >> 60) as usize % 5;
        for _ in 0..len {
            seed = seed.wrapping_mul(6364136223846793005).wrapping_add(1442695040888963407);
            let pick = ['a', 'b', '.', '-', 'Z', '\u{e9}', '\u{4e2d}', '\u{1f600}'];
            name.push(pick[(seed >> 61) as usize]);
        }
        list.push(name);
    }
    let mut expected = list.clone();
    expected.sort();
    assert_eq!(sort_names(list), expected);
}

#[test]
fn sort_names_of_two_and_three() {
    assert_eq!(sort_names(names(&["b", "a"])), names(&["a", "b"]));
    assert_eq!(sort_names(names(&["a", "b"])), names(&["a", "b"]));
    assert_eq!(sort_names(names(&["c", "a", "b"])), names(&["a", "b", "c"]));
    assert_eq!(sort_names(names(&["b", "c", "a"])), names(&["a", "b", "c"]));
    assert_eq!(sort_names(names(&["x"])), names(&["x"]));
}
