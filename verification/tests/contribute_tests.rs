use git_util::contribute::parse_contribute_stat;
use git_util::delimiter::{COMMIT_INETRVAL, PARAM_INTERVAL};
use git_util::err::GitErrorKind;
use git_util::structs::{BranchStatDailyContribute, StatDailyContribute};

fn block(name: &str, email: &str, date: &str, summary: &str) -> String {
    format!(
        "{}{}{}{}{}{}\n {}\n\n",
        COMMIT_INETRVAL, name, PARAM_INTERVAL, email, PARAM_INTERVAL, date, summary
    )
}

#[test]
fn same_day_commits_leave_one_day_and_count_twice() {
    let mut stat = BranchStatDailyContribute::new("main");
    stat.add_commit("ann", "ann@x.org", "2024-01-01", 1, 10, 2);
    stat.add_commit("ann", "ann@x.org", "2024-01-01", 3, 4, 5);
    assert_eq!(stat.authors_stat.len(), 1);
    let ann = &stat.authors_stat[0];
    assert_eq!(ann.author.name, "ann");
    assert_eq!(ann.stat.commit_count, 2);
    assert_eq!(ann.stat.data_list, vec!["2024-01-01".to_string()]);
    assert_eq!(ann.stat.change_files, vec![3]);
    assert_eq!(ann.stat.insertion, vec![4]);
    assert_eq!(ann.stat.deletions, vec![5]);
    assert_eq!(stat.total_stat.commit_count, 2);
    assert_eq!(stat.total_stat.data_list, vec!["2024-01-01".to_string()]);
    assert_eq!(stat.total_stat.insertion, vec![4]);
}

#[test]
fn series_keep_four_lists_of_one_length() {
    let mut stat = BranchStatDailyContribute::new("main");
    stat.add_commit("ann", "ann@x.org", "d1", 1, 1, 1);
    stat.add_commit("bob", "bob@x.org", "d1", 2, 2, 2);
    stat.add_commit("ann", "ann@x.org", "d2", 3, 3, 3);
    stat.add_commit("bob", "bob@x.org", "d3", 4, 4, 4);
    let total = &stat.total_stat;
    assert_eq!(total.data_list, vec!["d1", "d2", "d3"]);
    assert_eq!(total.change_files, vec![2, 3, 4]);
    assert_eq!(total.insertion.len(), 3);
    assert_eq!(total.deletions.len(), 3);
    assert_eq!(total.commit_count, 4);
    assert_eq!(stat.authors_stat[0].stat.data_list, vec!["d1", "d2"]);
    assert_eq!(stat.authors_stat[1].stat.data_list, vec!["d1", "d3"]);
    assert_eq!(stat.authors_stat[1].stat.change_files, vec![2, 4]);
}

#[test]
fn total_goes_by_its_own_last_day() {
    let mut stat = BranchStatDailyContribute::new("main");
    stat.add_commit("ann", "a", "d1", 1, 1, 1);
    stat.add_commit("bob", "b", "d2", 2, 2, 2);
    stat.add_commit("ann", "a", "d1", 3, 3, 3);
    assert_eq!(stat.authors_stat[0].stat.data_list, vec!["d1"]);
    assert_eq!(stat.authors_stat[0].stat.change_files, vec![3]);
    assert_eq!(stat.total_stat.data_list, vec!["d1", "d2", "d1"]);
}

#[test]
fn authors_are_told_apart_by_name_alone() {
    let mut stat = BranchStatDailyContribute::new("main");
    stat.add_commit("ann", "ann@old.org", "d1", 1, 1, 1);
    stat.add_commit("ann", "ann@new.org", "d2", 2, 2, 2);
    assert_eq!(stat.authors_stat.len(), 1);
    assert_eq!(stat.authors_stat[0].author.email, "ann@old.org");
    assert_eq!(stat.authors_stat[0].stat.commit_count, 2);
}

#[test]
fn single_series_records_and_overwrites() {
    let mut series = StatDailyContribute::new();
    series.record("d1", 1, 2, 3);
    series.record("d1", 4, 5, 6);
    series.record("d2", 7, 8, 9);
    assert_eq!(
        series,
        StatDailyContribute {
            commit_count: 3,
            data_list: vec!["d1".to_string(), "d2".to_string()],
            insertion: vec![5, 8],
            deletions: vec![6, 9],
            change_files: vec![4, 7],
        }
    );
}

#[test]
fn log_is_folded_block_by_block() {
    let mut log = String::new();
    log.push_str(&block("ann", "ann@x.org", "100", "1 file changed, 2 insertions(+)"));
    log.push_str(&block("bob", "bob@x.org", "100", "2 files changed, 1 deletion(-)"));
    log.push_str(&block("ann", "ann@x.org", "200", "3 files changed, 4 insertions(+), 5 deletions(-)"));
    let stat = parse_contribute_stat("main", &log).unwrap();
    assert_eq!(stat.branch, "main");
    assert_eq!(stat.total_stat.commit_count, 3);
    assert_eq!(stat.total_stat.data_list, vec!["100", "200"]);
    assert_eq!(stat.total_stat.change_files, vec![2, 3]);
    assert_eq!(stat.total_stat.insertion, vec![0, 4]);
    assert_eq!(stat.total_stat.deletions, vec![1, 5]);
    assert_eq!(stat.authors_stat.len(), 2);
    assert_eq!(stat.authors_stat[0].author.name, "ann");
    assert_eq!(stat.authors_stat[0].author.email, "ann@x.org");
    assert_eq!(stat.authors_stat[0].stat.data_list, vec!["100", "200"]);
    assert_eq!(stat.authors_stat[1].author.name, "bob");
    assert_eq!(stat.authors_stat[1].stat.commit_count, 1);
}

#[test]
fn blocks_without_a_summary_are_passed_over() {
    let mut log = String::new();
    log.push_str(&format!("{}ann{}a@x{}100\n\n", COMMIT_INETRVAL, PARAM_INTERVAL, PARAM_INTERVAL));
    log.push_str(&block("bob", "b@x", "200", "1 file changed"));
    let stat = parse_contribute_stat("dev", &log).unwrap();
    assert_eq!(stat.total_stat.commit_count, 1);
    assert_eq!(stat.authors_stat.len(), 1);
    assert_eq!(stat.authors_stat[0].author.name, "bob");
}

#[test]
fn empty_log_gives_empty_contributions() {
    let stat = parse_contribute_stat("main", "").unwrap();
    assert_eq!(stat, BranchStatDailyContribute::new("main"));
    assert_eq!(stat.total_stat.commit_count, 0);
    assert!(stat.authors_stat.is_empty());
}

#[test]
fn unreadable_summary_fails_the_whole_log() {
    let mut log = String::new();
    log.push_str(&block("ann", "a@x", "100", "1 file changed"));
    log.push_str(&block("bob", "b@x", "200", "nothing to see"));
    let e = parse_contribute_stat("main", &log).unwrap_err();
    assert_eq!(e.kind, GitErrorKind::Parse);
}

#[test]
fn block_with_too_few_fields_fails() {
    let log = format!("{}ann{}a@x\n 1 file changed\n", COMMIT_INETRVAL, PARAM_INTERVAL);
    let e = parse_contribute_stat("main", &log).unwrap_err();
    assert_eq!(e.kind, GitErrorKind::Parse);
}
