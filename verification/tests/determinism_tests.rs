use git_util::contribute::parse_contribute_stat;
use git_util::delimiter::parse_commit_log;
use git_util::diff::{is_binary, rename_paths};
use git_util::repository::{parse_authors, parse_branches, parse_remotes, parse_tags};
use git_util::shortstat::log_shortstat_parse;
use git_util::status::{parse_commit_file_status, parse_files_status};
use git_util::tree::parse_repo_file_list;

#[test]
fn reading_the_same_text_again_gives_the_same_result() {
    let texts = [
        "",
        " 3 files changed, 10 insertions(+), 4 deletions(-)\n",
        "M\tsrc/lib.rs\nR100\told.txt\tnew.txt\n",
        "origin\thttps://x.org/a.git (fetch)\norigin\thttps://x.org/a.git (push)\n",
        "* main\n  dev\n",
        "    12\tann <ann@x.org>\n     3\tbob <bob@x.org>\n",
        "h1<<PARAM_INTERVAL>>ann<<COMMIT_INETRVAL>>\nh2<<PARAM_INTERVAL>>bob<<COMMIT_INETRVAL>>\n",
        "<<COMMIT_INETRVAL>>ann<<PARAM_INTERVAL>>a@x<<PARAM_INTERVAL>>100\n 1 file changed, 2 insertions(+)\n\n",
        "100644<<PARAM_INTERVAL>>blob<<PARAM_INTERVAL>>  12<<PARAM_INTERVAL>>h1<<PARAM_INTERVAL>>src/lib.rs\n",
        "old.txt => new.txt",
        "garbage \0 \t => <<",
    ];
    let placeholders = vec!["%h".to_string(), "%an".to_string()];
    for text in texts {
        for _ in 0..3 {
            assert_eq!(log_shortstat_parse(text), log_shortstat_parse(text));
            assert_eq!(parse_files_status(text), parse_files_status(text));
            assert_eq!(parse_commit_file_status(text), parse_commit_file_status(text));
            assert_eq!(parse_remotes(text), parse_remotes(text));
            assert_eq!(parse_branches(text), parse_branches(text));
            assert_eq!(parse_tags(text), parse_tags(text));
            assert_eq!(parse_authors(text), parse_authors(text));
            assert_eq!(
                parse_commit_log(text, &placeholders),
                parse_commit_log(text, &placeholders)
            );
            assert_eq!(parse_contribute_stat("main", text), parse_contribute_stat("main", text));
            assert_eq!(parse_repo_file_list(text), parse_repo_file_list(text));
            assert_eq!(rename_paths(text), rename_paths(text));
            assert_eq!(is_binary(text), is_binary(text));
        }
    }
}
