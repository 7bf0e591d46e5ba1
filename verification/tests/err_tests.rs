use git_util::err::{build_git_error, CustomerGitError, GitErrorKind};
use git_util::structs::{Author, FileLineChangeStat};

#[test]
fn built_error_holds_path_and_message() {
    let e = build_git_error("/repo", "failed to execute process");
    assert_eq!(e.kind, GitErrorKind::Invocation);
    assert_eq!(e.path, "/repo");
    assert_eq!(e.message, "failed to execute process");
    assert_eq!(e.inner_error, None);
    assert_eq!(e.describe(), "The path:/repo => failed to execute process");
    assert_eq!(e.description(), "/repo");
    assert_eq!(e.cause(), None);
    assert_eq!(e.source(), None);
}

#[test]
fn inner_error_speaks_for_the_error() {
    let mut e = build_git_error("/repo", "outer");
    e.inner_error = Some("No such file or directory".to_string());
    assert_eq!(e.describe(), "No such file or directory");
    assert_eq!(e.cause(), Some("No such file or directory"));
}

#[test]
fn errors_of_each_kind() {
    let e = CustomerGitError::parse("bad shape");
    assert_eq!(e.kind, GitErrorKind::Parse);
    assert_eq!(e.path, "");
    assert_eq!(e.message, "bad shape");
    let e = e.at_path("/repo");
    assert_eq!(e.kind, GitErrorKind::Parse);
    assert_eq!(e.path, "/repo");
    assert_eq!(e.message, "bad shape");
    assert_eq!(e.describe(), "The path:/repo => bad shape");
    let e = CustomerGitError::not_found("%zz", "unknown");
    assert_eq!(e.kind, GitErrorKind::NotFound);
    assert_eq!(e.path, "%zz");
}

#[test]
fn change_stat_reads_as_written() {
    let stat = FileLineChangeStat { addition: 12, deletion: 0 };
    assert_eq!(stat.describe(), "Addition: 12, Deletion: 0");
    let stat = FileLineChangeStat { addition: -3, deletion: i32::MAX };
    assert_eq!(stat.describe(), "Addition: -3, Deletion: 2147483647");
}

#[test]
fn authors_are_the_same_by_name_and_email() {
    let ann = Author { name: "ann".to_string(), email: "a@x".to_string() };
    assert!(ann.same_as(&ann.duplicate()));
    assert_eq!(ann, ann.duplicate());
    assert!(!ann.same_as(&Author { name: "ann".to_string(), email: "b@x".to_string() }));
    assert!(!ann.same_as(&Author { name: "bob".to_string(), email: "a@x".to_string() }));
}
