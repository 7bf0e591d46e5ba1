use git_util::util::{
    build_commit_range, get_basename, get_current_time, get_directory_path, millis_or_zero,
};

#[test]
fn commit_range_covers_the_four_cases() {
    assert_eq!(build_commit_range("", ""), "HEAD");
    assert_eq!(build_commit_range("", "abc"), "abc");
    assert_eq!(build_commit_range("abc", ""), "abc^..HEAD");
    assert_eq!(build_commit_range("abc", "def"), "abc^..def");
}

#[test]
fn basename_is_the_last_component() {
    assert_eq!(get_basename("/home/me/project"), Some("project".to_string()));
    assert_eq!(get_basename("/home/me/project/"), Some("project".to_string()));
    assert_eq!(get_basename("file.txt"), Some("file.txt".to_string()));
    assert_eq!(get_basename("a/b/.."), None);
    assert_eq!(get_basename("/"), None);
    assert_eq!(get_basename(""), None);
}

#[test]
fn directory_path_drops_the_last_component() {
    assert_eq!(get_directory_path("/home/me/project"), Some("/home/me".to_string()));
    assert_eq!(get_directory_path("a/b.txt"), Some("a".to_string()));
    assert_eq!(get_directory_path("b.txt"), Some(String::new()));
    assert_eq!(get_directory_path("/"), None);
    assert_eq!(get_directory_path(""), None);
}

#[test]
fn clock_does_not_run_backwards_much() {
    let t1 = get_current_time();
    let t2 = get_current_time();
    assert!(t1 > 1_500_000_000_000);
    assert!(t2 + 1000 >= t1);
}

#[test]
fn name_and_directory_are_pieces_of_the_path() {
    let paths = [
        "", "/", "//", ".", "..", "a", "a/", "a//", "/a", "a/b", "a//b", "a/b/", "a/./b", "a/b/.",
        "a/b/..", "./a", "../a", "a/../b", "/usr/bin/", "tmp/foo.txt", "foo.txt/.//", "é/ü.txt",
        "a b/c d", "C:\\x\\y", "a\\b", "日本/語", " ", "a/ ", "/.", "/..", "...", "a/...",
    ];
    for path in paths {
        match get_basename(path) {
            Some(name) => {
                assert!(!name.is_empty(), "{:?}", path);
                assert!(path.contains(&name), "{:?}", path);
            }
            None => {}
        }
        match get_directory_path(path) {
            Some(dir) => {
                assert!(path.starts_with(&dir), "{:?}", path);
                assert!(dir.chars().count() < path.chars().count(), "{:?}", path);
            }
            None => {}
        }
    }
    assert_eq!(get_basename("a/./b/."), Some("b".to_string()));
    assert_eq!(get_directory_path("a/./b"), Some("a".to_string()));
}

#[test]
fn clock_before_1970_reads_as_zero() {
    assert_eq!(millis_or_zero(None), 0);
    assert_eq!(millis_or_zero(Some(0)), 0);
    assert_eq!(millis_or_zero(Some(1_700_000_000_123)), 1_700_000_000_123);
    assert_eq!(millis_or_zero(Some(u128::MAX)), u128::MAX);
}
