use git_util::delimiter::PARAM_INTERVAL;
use git_util::err::GitErrorKind;
use git_util::structs::RepoFileInfo;
use git_util::tree::{file_info_list_to_tree, insert_file_to_tree, mode_is_directory};

fn leaf(name: &str, dir: &str, hash: &str, size: &str) -> RepoFileInfo {
    RepoFileInfo {
        name: name.to_string(),
        dir: dir.to_string(),
        object_mode: "100644".to_string(),
        object_type: "blob".to_string(),
        object_name: hash.to_string(),
        object_size: size.to_string(),
        is_dir: false,
        children: Vec::new(),
    }
}

fn directory(name: &str, dir: &str, children: Vec<RepoFileInfo>) -> RepoFileInfo {
    RepoFileInfo {
        name: name.to_string(),
        dir: dir.to_string(),
        object_mode: String::new(),
        object_type: String::new(),
        object_name: String::new(),
        object_size: String::new(),
        is_dir: true,
        children,
    }
}

fn listing_line(mode: &str, kind: &str, size: &str, hash: &str, path: &str) -> String {
    [mode, kind, size, hash, path].join(PARAM_INTERVAL)
}

#[test]
fn two_files_share_their_directories() {
    let mut tree: Vec<RepoFileInfo> = Vec::new();
    insert_file_to_tree(&mut tree, "100644", "blob", "h1", "10", "a/b/c.txt");
    insert_file_to_tree(&mut tree, "100644", "blob", "h2", "5", "a/b/d.txt");
    let expected = vec![directory(
        "a",
        "./",
        vec![directory(
            "b",
            "a",
            vec![leaf("c.txt", "a/b", "h1", "10"), leaf("d.txt", "a/b", "h2", "5")],
        )],
    )];
    assert_eq!(tree, expected);
}

#[test]
fn single_segment_is_a_root_level_leaf() {
    let line = listing_line("100644", "blob", "      7", "h9", "x.txt");
    let tree = file_info_list_to_tree(vec![line.as_str()]).unwrap();
    assert_eq!(tree, vec![leaf("x.txt", "./", "h9", "7")]);
}

#[test]
fn single_segment_insert_adds_one_leaf() {
    let mut tree: Vec<RepoFileInfo> = Vec::new();
    insert_file_to_tree(&mut tree, "100644", "blob", "h9", "7", "x.txt");
    assert_eq!(tree, vec![leaf("x.txt", "./", "h9", "7")]);
}

#[test]
fn listing_builds_nested_tree_in_first_seen_order() {
    let lines = vec![
        listing_line("100644", "blob", "     12", "h1", "src/lib.rs"),
        listing_line("100644", "blob", "      3", "h2", "README.md"),
        listing_line("100755", "blob", "     40", "h3", "src/bin/run.sh"),
        listing_line("100644", "blob", "      8", "h4", "src/util.rs"),
    ];
    let refs: Vec<&str> = lines.iter().map(|l| l.as_str()).collect();
    let tree = file_info_list_to_tree(refs).unwrap();
    let mut run = leaf("run.sh", "src/bin", "h3", "40");
    run.object_mode = "100755".to_string();
    let expected = vec![
        directory(
            "src",
            "./",
            vec![
                leaf("lib.rs", "src", "h1", "12"),
                directory("bin", "src", vec![run]),
                leaf("util.rs", "src", "h4", "8"),
            ],
        ),
        leaf("README.md", "./", "h2", "3"),
    ];
    assert_eq!(tree, expected);
}

#[test]
fn listing_passes_over_empty_lines() {
    let good = listing_line("100644", "blob", "1", "h1", "a.txt");
    let tree = file_info_list_to_tree(vec!["", good.as_str(), ""]).unwrap();
    assert_eq!(tree, vec![leaf("a.txt", "./", "h1", "1")]);
    assert_eq!(file_info_list_to_tree(vec![]), Ok(vec![]));
    assert_eq!(file_info_list_to_tree(vec!["", ""]), Ok(vec![]));
}

#[test]
fn listing_with_a_line_of_another_shape_is_an_error() {
    let good = listing_line("100644", "blob", "1", "h1", "a.txt");
    let short = ["100644", "blob"].join(PARAM_INTERVAL);
    let long = ["100644", "blob", "1", "h1", "a.txt", "more"].join(PARAM_INTERVAL);
    for bad in [short.as_str(), long.as_str(), "garbage", " "] {
        let e = file_info_list_to_tree(vec![bad]).unwrap_err();
        assert_eq!(e.kind, GitErrorKind::Parse);
        let e = file_info_list_to_tree(vec![good.as_str(), bad]).unwrap_err();
        assert_eq!(e.kind, GitErrorKind::Parse);
        let e = file_info_list_to_tree(vec![bad, good.as_str()]).unwrap_err();
        assert_eq!(e.kind, GitErrorKind::Parse);
    }
    let out = format!("{}\n{}\n", good, short);
    let e = git_util::tree::parse_repo_file_list(&out).unwrap_err();
    assert_eq!(e.kind, GitErrorKind::Parse);
}

#[test]
fn directory_mode_marks_the_last_segment_as_directory() {
    let mut tree: Vec<RepoFileInfo> = Vec::new();
    insert_file_to_tree(&mut tree, "040000", "tree", "t1", "-", "lib/core");
    assert_eq!(tree.len(), 1);
    assert!(tree[0].is_dir);
    assert_eq!(tree[0].object_mode, "");
    let core = &tree[0].children[0];
    assert!(core.is_dir);
    assert_eq!(core.name, "core");
    assert_eq!(core.dir, "lib");
    assert_eq!(core.object_mode, "040000");
    assert_eq!(core.object_name, "t1");
    assert!(core.children.is_empty());
    insert_file_to_tree(&mut tree, "100644", "blob", "h1", "2", "lib/core/a.rs");
    assert_eq!(tree[0].children.len(), 1);
    assert_eq!(tree[0].children[0].children.len(), 1);
    assert_eq!(tree[0].children[0].children[0].dir, "lib/core");
}

#[test]
fn a_file_is_never_entered_as_a_directory() {
    let mut tree: Vec<RepoFileInfo> = Vec::new();
    insert_file_to_tree(&mut tree, "100644", "blob", "h1", "2", "a");
    insert_file_to_tree(&mut tree, "100644", "blob", "h2", "3", "a/b");
    assert_eq!(tree.len(), 2);
    assert!(!tree[0].is_dir);
    assert!(tree[0].children.is_empty());
    assert!(tree[1].is_dir);
    assert_eq!(tree[1].children[0].name, "b");
}

#[test]
fn path_that_ends_at_a_known_directory_changes_nothing() {
    let mut tree: Vec<RepoFileInfo> = Vec::new();
    insert_file_to_tree(&mut tree, "100644", "blob", "h1", "2", "a/b/c");
    insert_file_to_tree(&mut tree, "040000", "tree", "t1", "-", "a/b");
    assert_eq!(
        tree,
        vec![directory(
            "a",
            "./",
            vec![directory("b", "a", vec![leaf("c", "a/b", "h1", "2")])]
        )]
    );
}

#[test]
fn mode_prefix_decides_directory() {
    assert!(mode_is_directory("040000"));
    assert!(mode_is_directory("0400001"));
    assert!(!mode_is_directory("100644"));
    assert!(!mode_is_directory("04000"));
    assert!(!mode_is_directory(""));
}

#[test]
fn listing_output_becomes_a_tree() {
    let out = format!(
        "{}\n{}\n",
        listing_line("100644", "blob", "     12", "h1", "src/lib.rs"),
        listing_line("100644", "blob", "      3", "h2", "README.md")
    );
    let tree = git_util::tree::parse_repo_file_list(&out).unwrap();
    assert_eq!(
        tree,
        vec![
            directory("src", "./", vec![leaf("lib.rs", "src", "h1", "12")]),
            leaf("README.md", "./", "h2", "3"),
        ]
    );
    assert_eq!(git_util::tree::parse_repo_file_list(""), Ok(vec![]));
}
