use git_util::command::{
    commit_file_status_args, diff_shortstat_args, file_between_commit_status_args,
    file_content_args, files_status_args,
};
use git_util::delimiter::PARAM_INTERVAL;
use git_util::diff::{file_diff_entry, files_diff_entry, plan_file_diff, plan_files_diff};
use git_util::shortstat::parse_line_change_stat;
use git_util::status::{
    parse_commit_file_status, parse_file_between_commit_status, parse_files_status,
};
use git_util::structs::{FileLineChangeStat, FileStatusType};
use git_util::util::get_current_time;

#[test]
fn test_get_commit_file_status() {
    let hash = String::from("6a8a10948c80df189f79ff680df66d688b93bdd2");
    let args = commit_file_status_args(&hash);
    assert_eq!(args[0], "show");
    assert_eq!(args[1], hash);
    assert_eq!(args[2], "--name-status");
    let first = [hash.as_str(), "Add the parser", "ann", "ann@x.org", "1700000000"]
        .join(PARAM_INTERVAL);
    let stdout = format!("{}\n\nA\tsrc/parser.rs\nM\tsrc/lib.rs\n", first);
    let res = parse_commit_file_status(&stdout);
    match res {
        Ok(res) => {
            println!("{:#?}", res);
            assert_eq!(res.hash, hash);
            assert_eq!(res.status.len(), 2);
            assert_eq!(res.status[0].status, FileStatusType::Added);
            assert_eq!(res.status[1].path, "src/lib.rs");
        }
        Err(e) => panic!("{}", e.describe()),
    }
}

#[test]
fn test_get_file_commit_status() {
    let commit_hash1 = String::from("2ffc252bee9edcdfa27d0689e4c9f4f80f72b608^");
    let file_path = String::from("src/structs.rs");
    assert_eq!(
        file_between_commit_status_args(&commit_hash1, &file_path),
        vec![
            "show",
            "2ffc252bee9edcdfa27d0689e4c9f4f80f72b608^",
            "--name-status",
            "--format=",
            "--",
            "src/structs.rs",
        ]
    );
    let res = parse_file_between_commit_status("M\tsrc/structs.rs\n");
    match res {
        Ok(res) => {
            println!("{:#?}", res);
            assert_eq!(res, (FileStatusType::Modified, String::new()));
        }
        Err(e) => panic!("{}", e.describe()),
    }
}

#[test]
fn test_diff_file_context() {
    let commit_hash1 = String::from("fe2eff4^");
    let commit_hash2 = String::from("fe2eff4");
    let file_path = String::from("src/electron/workThreads/WorkPool.ts");
    let (status, _message) =
        parse_file_between_commit_status("M\tsrc/electron/workThreads/WorkPool.ts\n").unwrap();
    let plan = plan_file_diff(&commit_hash1, &commit_hash2, &file_path, status);
    assert_eq!(plan.old_content, Some(file_content_args(&commit_hash1, &file_path)));
    assert_eq!(plan.new_content, Some(file_content_args(&commit_hash2, &file_path)));
    assert_eq!(plan.stat, Some(diff_shortstat_args(&commit_hash1, &commit_hash2, &file_path)));
    let stat = parse_line_change_stat(" 1 file changed, 5 insertions(+), 2 deletions(-)\n").unwrap();
    let res = file_diff_entry(
        &commit_hash1,
        &commit_hash2,
        &file_path,
        status,
        "export class WorkPool {}\n",
        "export class WorkPool { run() {} }\n",
        stat,
    );
    println!("===============\n{:#?}\n=======================", res);
    assert_eq!(res.commit_hash1, "fe2eff4^");
    assert_eq!(res.commit_hash2, "fe2eff4");
    assert_eq!(res.file_path, file_path);
    assert_eq!(res.change_stat, FileLineChangeStat { addition: 5, deletion: 2 });
    assert_eq!(res.context1, "export class WorkPool {}\n");
    assert_eq!(res.context2, "export class WorkPool { run() {} }\n");
    assert_eq!(res.file_status, FileStatusType::Modified);
}

#[test]
fn test_get_file_content() {
    let commit_hash = String::from("fe2eff4");
    let file_path = String::from("src/renderer/views/setting/index.vue");
    let res = file_content_args(&commit_hash, &file_path);
    println!("===============\n{:#?}\n=======================", res);
    assert_eq!(res, vec!["cat-file", "-p", "fe2eff4:src/renderer/views/setting/index.vue"]);
}

#[test]
fn test_get_files_diff_context() {
    let commit1_hash = String::from("fe2eff4^");
    let commit2_hash = String::from("fe2eff4");
    let t1 = get_current_time();
    assert_eq!(
        files_status_args(&commit1_hash, &commit2_hash),
        vec!["diff", "--name-status", "fe2eff4^", "fe2eff4"]
    );
    let files_status =
        parse_files_status("A\tsrc/new.ts\nD\tsrc/old.ts\nR090\tsrc/a.ts\tsrc/b.ts\n").unwrap();
    let mut res = Vec::new();
    for file_status in files_status.iter() {
        let plan = plan_files_diff(&commit1_hash, &commit2_hash, file_status).unwrap();
        let old_content = if plan.old_content.is_some() { "old line\n" } else { "" };
        let new_content = if plan.new_content.is_some() { "new line\nsecond\n" } else { "" };
        let stat = match plan.stat {
            Some(_) => parse_line_change_stat(" 1 file changed, 2 insertions(+), 1 deletion(-)")
                .unwrap(),
            None => FileLineChangeStat { addition: 0, deletion: 0 },
        };
        res.push(files_diff_entry(
            &commit1_hash,
            &commit2_hash,
            file_status,
            old_content,
            new_content,
            stat,
        ));
    }
    let t2 = get_current_time();
    println!("time: {}", t2 - t1);
    for file_diff in res.iter() {
        println!("====================================");
        println!("{}", file_diff.file_path);
        println!("{}", file_diff.file_status.describe());
        println!("{}", file_diff.change_stat.describe());
    }
    assert_eq!(res.len(), 3);
    assert_eq!(res[0].change_stat, FileLineChangeStat { addition: 2, deletion: 0 });
    assert_eq!(res[0].context2, "new line\nsecond\n");
    assert_eq!(res[1].change_stat, FileLineChangeStat { addition: 0, deletion: 1 });
    assert_eq!(res[1].context2, "File deleted");
    assert_eq!(res[2].file_path, "src/a.ts");
    assert_eq!(res[2].change_stat, FileLineChangeStat { addition: 2, deletion: 1 });
    assert_eq!(res[2].context1, "old line\n");
}
