use git_util::diff::{
    count_lines, file_diff_entry, files_diff_entry, files_diff_plan, is_binary, plan_file_diff,
    plan_files_diff, rename_paths, rename_paths_from, DiffPlan, BINARY_FILE, FILE_DELETED,
};
use git_util::err::GitErrorKind;
use git_util::structs::{FileLineChangeStat, FileStatus, FileStatusType};

fn status(path: &str, status: FileStatusType, message: &str) -> FileStatus {
    FileStatus { path: path.to_string(), status, message: message.to_string() }
}

fn no_stat() -> FileLineChangeStat {
    FileLineChangeStat { addition: 0, deletion: 0 }
}

#[test]
fn zero_byte_at_offset_500_is_binary() {
    let mut content = "a".repeat(9000).into_bytes();
    content[500] = 0;
    let content = String::from_utf8(content).unwrap();
    assert!(is_binary(&content));
}

#[test]
fn ascii_text_of_any_length_is_not_binary() {
    assert!(!is_binary(""));
    assert!(!is_binary("hello\nworld\n"));
    assert!(!is_binary(&"line of text\n".repeat(5000)));
}

#[test]
fn zero_byte_behind_the_first_8000_bytes_does_not_count() {
    let mut content = "a".repeat(9000).into_bytes();
    content[8000] = 0;
    assert!(!is_binary(&String::from_utf8(content.clone()).unwrap()));
    content[7999] = 0;
    assert!(is_binary(&String::from_utf8(content).unwrap()));
    assert!(is_binary("\0"));
}

#[test]
fn binary_probe_counts_bytes_not_characters() {
    let mut content = "é".repeat(3999);
    content.push('a');
    content.push('\0');
    assert_eq!(content.as_bytes()[7999], 0);
    assert!(is_binary(&content));
    let mut content = "é".repeat(4000);
    content.push('\0');
    assert!(!is_binary(&content));
}

#[test]
fn lines_are_counted_as_std_counts_them() {
    for text in ["", "a", "a\n", "a\nb", "a\n\nb\n", "\n", "\n\n", "a\r\nb\r\n", "x\n\n\n"] {
        assert_eq!(count_lines(text) as usize, text.lines().count(), "{:?}", text);
    }
}

#[test]
fn rename_message_gives_both_paths() {
    assert_eq!(
        rename_paths("old.txt => new.txt"),
        Ok(("old.txt".to_string(), "new.txt".to_string()))
    );
    assert_eq!(rename_paths("a=>b"), Ok(("a".to_string(), "b".to_string())));
    assert_eq!(
        rename_paths("dir/a b.rs \t=>\n dir/c.rs"),
        Ok(("dir/a b.rs".to_string(), "dir/c.rs".to_string()))
    );
    assert_eq!(rename_paths("no arrow").unwrap_err().kind, GitErrorKind::Parse);
    assert_eq!(rename_paths("").unwrap_err().kind, GitErrorKind::Parse);
}

#[test]
fn rename_paths_are_the_first_two_pieces() {
    let pieces = vec!["a".to_string(), "b".to_string(), "c".to_string()];
    assert_eq!(rename_paths_from(&pieces), Ok(("a".to_string(), "b".to_string())));
    assert_eq!(rename_paths_from(&vec!["a".to_string()]).unwrap_err().kind, GitErrorKind::Parse);
    assert_eq!(rename_paths_from(&vec![]).unwrap_err().kind, GitErrorKind::Parse);
}

fn args(items: &[&str]) -> Option<Vec<String>> {
    Some(items.iter().map(|s| s.to_string()).collect())
}

#[test]
fn plan_for_each_status_of_a_diff() {
    assert_eq!(
        plan_files_diff("h1", "h2", &status("a", FileStatusType::Added, "")),
        Ok(DiffPlan {
            old_content: None,
            new_content: args(&["cat-file", "-p", "h2:a"]),
            stat: None,
        })
    );
    assert_eq!(
        plan_files_diff("h1", "h2", &status("a", FileStatusType::Deleted, "")),
        Ok(DiffPlan {
            old_content: args(&["cat-file", "-p", "h1:a"]),
            new_content: None,
            stat: None,
        })
    );
    assert_eq!(
        plan_files_diff("h1", "h2", &status("a", FileStatusType::Modified, "")),
        Ok(DiffPlan {
            old_content: args(&["cat-file", "-p", "h1:a"]),
            new_content: args(&["cat-file", "-p", "h2:a"]),
            stat: args(&["diff", "--shortstat", "h1...h2", "--", "a"]),
        })
    );
    assert_eq!(
        plan_files_diff("h1", "h2", &status("a", FileStatusType::Renamed, "a => b")),
        Ok(DiffPlan {
            old_content: args(&["cat-file", "-p", "h1:a"]),
            new_content: args(&["cat-file", "-p", "h2:b"]),
            stat: args(&["diff", "--shortstat", "h1...h2", "--", "a", "b"]),
        })
    );
    assert_eq!(
        plan_files_diff("h1", "h2", &status("a", FileStatusType::Renamed, "")).unwrap_err().kind,
        GitErrorKind::Parse
    );
    assert_eq!(
        plan_files_diff("h1", "h2", &status("a", FileStatusType::Copied, "")),
        Ok(DiffPlan { old_content: None, new_content: None, stat: None })
    );
}

#[test]
fn plan_with_given_paths_of_a_renamed_file() {
    let renamed = status("x", FileStatusType::Renamed, "ignored");
    assert_eq!(
        files_diff_plan("h1", "h2", &renamed, Some(("old".to_string(), "new".to_string()))),
        Some(DiffPlan {
            old_content: args(&["cat-file", "-p", "h1:old"]),
            new_content: args(&["cat-file", "-p", "h2:new"]),
            stat: args(&["diff", "--shortstat", "h1...h2", "--", "old", "new"]),
        })
    );
    assert_eq!(files_diff_plan("h1", "h2", &renamed, None), None);
    let added = status("x", FileStatusType::Added, "");
    assert_eq!(
        files_diff_plan("h1", "h2", &added, Some(("old".to_string(), "new".to_string()))),
        Some(DiffPlan {
            old_content: None,
            new_content: args(&["cat-file", "-p", "h2:x"]),
            stat: None,
        })
    );
}

#[test]
fn added_file_counts_its_lines() {
    let entry = files_diff_entry(
        "h1",
        "h2",
        &status("a.txt", FileStatusType::Added, ""),
        "",
        "one\ntwo\nthree\n",
        no_stat(),
    );
    assert_eq!(entry.commit_hash1, "h1");
    assert_eq!(entry.commit_hash2, "h2");
    assert_eq!(entry.file_path, "a.txt");
    assert_eq!(entry.context1, "");
    assert_eq!(entry.context2, "one\ntwo\nthree\n");
    assert_eq!(entry.change_stat, FileLineChangeStat { addition: 3, deletion: 0 });
    assert_eq!(entry.file_status, FileStatusType::Added);
}

#[test]
fn added_binary_file_shows_the_fixed_text_on_both_sides() {
    let entry = files_diff_entry(
        "h1",
        "h2",
        &status("a.bin", FileStatusType::Added, ""),
        "",
        "ab\0cd\n",
        no_stat(),
    );
    assert_eq!(entry.context1, BINARY_FILE);
    assert_eq!(entry.context2, BINARY_FILE);
    assert_eq!(entry.change_stat, no_stat());
}

#[test]
fn deleted_file_counts_its_lines_and_says_so() {
    let entry = files_diff_entry(
        "h1",
        "h2",
        &status("a.txt", FileStatusType::Deleted, ""),
        "one\ntwo",
        "",
        no_stat(),
    );
    assert_eq!(entry.context1, "one\ntwo");
    assert_eq!(entry.context2, FILE_DELETED);
    assert_eq!(entry.change_stat, FileLineChangeStat { addition: 0, deletion: 2 });
    let entry = files_diff_entry(
        "h1",
        "h2",
        &status("a.bin", FileStatusType::Deleted, ""),
        "\0",
        "",
        no_stat(),
    );
    assert_eq!(entry.context1, "Binary file");
    assert_eq!(entry.context2, "File deleted");
    assert_eq!(entry.change_stat, no_stat());
}

#[test]
fn modified_file_shows_each_side_by_itself() {
    let stat = FileLineChangeStat { addition: 4, deletion: 2 };
    let modified = status("a", FileStatusType::Modified, "");
    let entry = files_diff_entry("h1", "h2", &modified, "old", "new", stat);
    assert_eq!((entry.context1.as_str(), entry.context2.as_str()), ("old", "new"));
    assert_eq!(entry.change_stat, stat);
    let entry = files_diff_entry("h1", "h2", &modified, "o\0", "new", stat);
    assert_eq!((entry.context1.as_str(), entry.context2.as_str()), ("Binary file", "new"));
    let entry = files_diff_entry("h1", "h2", &modified, "old", "\0", stat);
    assert_eq!((entry.context1.as_str(), entry.context2.as_str()), ("old", "Binary file"));
    let entry = files_diff_entry("h1", "h2", &modified, "\0", "\0", stat);
    assert_eq!((entry.context1.as_str(), entry.context2.as_str()), ("Binary file", "Binary file"));
    let renamed = status("a", FileStatusType::Renamed, "a => b");
    let entry = files_diff_entry("h1", "h2", &renamed, "old", "new", stat);
    assert_eq!(entry.file_path, "a");
    assert_eq!((entry.context1.as_str(), entry.context2.as_str()), ("old", "new"));
    assert_eq!(entry.change_stat, stat);
    assert_eq!(entry.file_status, FileStatusType::Renamed);
}

#[test]
fn other_status_shows_nothing() {
    let stat = FileLineChangeStat { addition: 4, deletion: 2 };
    let entry = files_diff_entry("h1", "h2", &status("a", FileStatusType::Copied, ""), "x", "y", stat);
    assert_eq!(entry.context1, "");
    assert_eq!(entry.context2, "");
    assert_eq!(entry.change_stat, no_stat());
    assert_eq!(entry.file_status, FileStatusType::Copied);
}

#[test]
fn plan_of_the_diff_of_one_file() {
    assert_eq!(
        plan_file_diff("h1", "h2", "a", FileStatusType::Added),
        DiffPlan { old_content: None, new_content: args(&["cat-file", "-p", "h2:a"]), stat: None }
    );
    assert_eq!(
        plan_file_diff("h1", "h2", "a", FileStatusType::Deleted),
        DiffPlan { old_content: args(&["cat-file", "-p", "h1:a"]), new_content: None, stat: None }
    );
    assert_eq!(
        plan_file_diff("h1", "h2", "a", FileStatusType::Modified),
        DiffPlan {
            old_content: args(&["cat-file", "-p", "h1:a"]),
            new_content: args(&["cat-file", "-p", "h2:a"]),
            stat: args(&["diff", "--shortstat", "h1", "h2", "--", "a"]),
        }
    );
    for status in [
        FileStatusType::Renamed,
        FileStatusType::Copied,
        FileStatusType::Updated,
        FileStatusType::Unknown,
    ] {
        assert_eq!(
            plan_file_diff("h1", "h2", "a", status),
            DiffPlan { old_content: None, new_content: None, stat: None }
        );
    }
}

#[test]
fn diff_of_one_file_for_each_status() {
    let stat = FileLineChangeStat { addition: 7, deletion: 1 };
    let entry = file_diff_entry("h1", "h2", "p", FileStatusType::Added, "old", "\n a\nb\n\n", stat);
    assert_eq!(entry.commit_hash1, "h1");
    assert_eq!(entry.commit_hash2, "h2");
    assert_eq!(entry.file_path, "p");
    assert_eq!(entry.context1, "");
    assert_eq!(entry.context2, "\n a\nb\n\n");
    assert_eq!(entry.change_stat, FileLineChangeStat { addition: 2, deletion: 0 });
    assert_eq!(entry.file_status, FileStatusType::Added);
    let entry = file_diff_entry("h1", "h2", "p", FileStatusType::Deleted, "a\nb\nc", "new", stat);
    assert_eq!(entry.context1, "a\nb\nc");
    assert_eq!(entry.context2, "");
    assert_eq!(entry.change_stat, FileLineChangeStat { addition: 0, deletion: 3 });
    let entry = file_diff_entry("h1", "h2", "p", FileStatusType::Modified, "old", "new", stat);
    assert_eq!(entry.context1, "old");
    assert_eq!(entry.context2, "new");
    assert_eq!(entry.change_stat, stat);
}

#[test]
fn diff_of_one_file_puts_a_fixed_text_in_place_of_a_binary_content() {
    let stat = FileLineChangeStat { addition: 7, deletion: 1 };
    let entry = file_diff_entry("h1", "h2", "p", FileStatusType::Added, "", "a\0b", stat);
    assert_eq!(entry.context1, "");
    assert_eq!(entry.context2, BINARY_FILE);
    let entry = file_diff_entry("h1", "h2", "p", FileStatusType::Deleted, "a\0b", "", stat);
    assert_eq!(entry.context1, BINARY_FILE);
    assert_eq!(entry.context2, "");
    let entry = file_diff_entry("h1", "h2", "p", FileStatusType::Modified, "o\0ld", "new", stat);
    assert_eq!(entry.context1, "Binary file");
    assert_eq!(entry.context2, "new");
    let entry = file_diff_entry("h1", "h2", "p", FileStatusType::Modified, "old", "\0", stat);
    assert_eq!(entry.context1, "old");
    assert_eq!(entry.context2, "Binary file");
    assert_eq!(entry.change_stat, stat);
}

#[test]
fn diff_of_one_file_shows_nothing_for_another_status() {
    let stat = FileLineChangeStat { addition: 7, deletion: 1 };
    for status in [
        FileStatusType::Renamed,
        FileStatusType::Copied,
        FileStatusType::Updated,
        FileStatusType::Unknown,
    ] {
        let entry = file_diff_entry("h1", "h2", "p", status, "old", "new", stat);
        assert_eq!(entry.commit_hash1, "h1");
        assert_eq!(entry.commit_hash2, "h2");
        assert_eq!(entry.file_path, "p");
        assert_eq!(entry.context1, "");
        assert_eq!(entry.context2, "");
        assert_eq!(entry.change_stat, no_stat());
        assert_eq!(entry.file_status, status);
    }
}
