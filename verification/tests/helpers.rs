use strauss::helpers::filesystem::{
    file_name, is_php_file, join_path, normalize_path, path_extension, relative_path, strip_path_prefix,
};
use strauss::helpers::namespace_sort::{sort_namespaces_longest_first, sort_namespaces_shortest_first, sort_pairs_by_len};

#[test]
fn filesystem_test_is_php_file() {
    assert!(is_php_file("test.php"));
    assert!(is_php_file("Test.PHP"));
    assert!(is_php_file("/path/to/file.php"));
    assert!(!is_php_file("test.js"));
    assert!(!is_php_file("test.txt"));
    assert!(!is_php_file("test"));
}

#[test]
fn test_normalize_path() {
    assert_eq!(normalize_path("foo\\bar\\baz"), "foo/bar/baz");
    assert_eq!(normalize_path("foo/bar/baz"), "foo/bar/baz");
    assert_eq!(normalize_path("foo\\bar/baz"), "foo/bar/baz");
}

#[test]
fn test_relative_path_simple() {
    assert_eq!(relative_path("/home/user/project", "/home/user/project/src/file.php"), "src/file.php");
}

#[test]
fn test_relative_path_same() {
    assert_eq!(relative_path("/home/user/project", "/home/user/project"), ".");
}

#[test]
fn relative_path_goes_up_past_shared_parts() {
    assert_eq!(relative_path("/home/user/project/lib", "/home/user/project/src/a.php"), "../src/a.php");
    assert_eq!(relative_path("/a/b", "/c"), "../../c");
}

#[test]
fn dot_files_and_directories_have_no_extension() {
    assert_eq!(path_extension("/a/.php"), None);
    assert_eq!(path_extension("/a/b.tar.gz"), Some("gz".to_string()));
    assert!(!is_php_file("/a/.php"));
    assert_eq!(file_name("/a/b/"), Some("b".to_string()));
    assert_eq!(file_name("/a/.."), None);
}

#[test]
fn join_and_strip_paths() {
    assert_eq!(join_path("/a/b", "c.php"), "/a/b/c.php");
    assert_eq!(join_path("/a/b/", "c.php"), "/a/b/c.php");
    assert_eq!(join_path("/a/b", "/abs"), "/abs");
    assert_eq!(strip_path_prefix("/a/b/c/d.php", "/a/b/"), Some("c/d.php".to_string()));
    assert_eq!(strip_path_prefix("/a/bc/d.php", "/a/b"), None);
}

#[test]
fn test_sort_longest_first() {
    let mut namespaces = vec![
        "Monolog".to_string(),
        "Monolog\\Handler\\StreamHandler".to_string(),
        "Monolog\\Handler".to_string(),
    ];
    sort_namespaces_longest_first(&mut namespaces);
    assert_eq!(namespaces[0], "Monolog\\Handler\\StreamHandler");
    assert_eq!(namespaces[1], "Monolog\\Handler");
    assert_eq!(namespaces[2], "Monolog");
}

#[test]
fn sort_shortest_first_keeps_equal_lengths_in_order() {
    let mut namespaces = vec!["BB".to_string(), "A".to_string(), "CC".to_string()];
    sort_namespaces_shortest_first(&mut namespaces);
    assert_eq!(namespaces, vec!["A".to_string(), "BB".to_string(), "CC".to_string()]);
}

#[test]
fn pairs_sorted_by_byte_length() {
    let pairs = vec![("ab".to_string(), "1".to_string()), ("é".to_string(), "2".to_string()), ("abc".to_string(), "3".to_string())];
    let sorted = sort_pairs_by_len(&pairs, true);
    assert_eq!(sorted[0].1, "3");
    assert_eq!(sorted[1].1, "1");
    assert_eq!(sorted[2].1, "2");
}
