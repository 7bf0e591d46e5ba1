//! The arguments with which `git` is run for each operation.
//!
//! Each function gives the arguments behind the program name, in order. The
//! output of the command is what the parser of the operation reads.

use vstd::prelude::*;
use vstd::string::StringExecFns;

use crate::delimiter::{
    commit_log_format, field_names_of, log_format_of, COMMIT_INETRVAL, PARAM_INTERVAL,
};
use crate::err::{CustomerGitError, CustomerGitErrorView, GitErrorKind};
use crate::repository::{branch_remote_key, branch_remote_key_of};
use crate::text::{join_first, joined, lemma_views_push, views};

verus! {

fn push_arg(args: &mut Vec<String>, arg: &str)
    ensures
        views(final(args)@) == views(old(args)@).push(arg@),
{
    let text = String::from_str(arg);
    proof {
        lemma_views_push(args@, text);
    }
    args.push(text);
}

fn no_args() -> (args: Vec<String>)
    ensures
        views(args@) == Seq::<Seq<char>>::empty(),
{
    let args: Vec<String> = Vec::new();
    args
}

/// Asks for the version of `git`: it answers where it is installed.
pub fn version_args() -> (args: Vec<String>)
    ensures
        views(args@) == seq!["--version"@],
{
    let mut args = no_args();
    push_arg(&mut args, "--version");
    args
}

/// Asks whether the directory lies in a work tree.
pub fn work_tree_args() -> (args: Vec<String>)
    ensures
        views(args@) == seq!["rev-parse"@, "--is-inside-work-tree"@],
{
    let mut args = no_args();
    push_arg(&mut args, "rev-parse");
    push_arg(&mut args, "--is-inside-work-tree");
    args
}

/// Lists all branches.
pub fn branches_args() -> (args: Vec<String>)
    ensures
        views(args@) == seq!["branch"@, "--all"@],
{
    let mut args = no_args();
    push_arg(&mut args, "branch");
    push_arg(&mut args, "--all");
    args
}

/// Lists what is not committed, in short.
pub fn status_args() -> (args: Vec<String>)
    ensures
        views(args@) == seq!["status"@, "--porcelain"@],
{
    let mut args = no_args();
    push_arg(&mut args, "status");
    push_arg(&mut args, "--porcelain");
    args
}

/// Asks for the name of the current branch.
pub fn current_branch_args() -> (args: Vec<String>)
    ensures
        views(args@) == seq!["rev-parse"@, "--abbrev-ref"@, "HEAD"@],
{
    let mut args = no_args();
    push_arg(&mut args, "rev-parse");
    push_arg(&mut args, "--abbrev-ref");
    push_arg(&mut args, "HEAD");
    args
}

/// Asks for the remote of `branch`.
pub fn branch_remote_args(branch: &str) -> (args: Vec<String>)
    ensures
        views(args@) == seq!["config"@, "--get"@, branch_remote_key_of(branch@)],
{
    let mut args = no_args();
    push_arg(&mut args, "config");
    push_arg(&mut args, "--get");
    let key = branch_remote_key(branch);
    push_arg(&mut args, key.as_str());
    args
}

/// Lists the names of the remotes.
pub fn remote_names_args() -> (args: Vec<String>)
    ensures
        views(args@) == seq!["remote"@, "show"@],
{
    let mut args = no_args();
    push_arg(&mut args, "remote");
    push_arg(&mut args, "show");
    args
}

/// Lists the remotes with address and direction.
pub fn remotes_args() -> (args: Vec<String>)
    ensures
        views(args@) == seq!["remote"@, "-v"@],
{
    let mut args = no_args();
    push_arg(&mut args, "remote");
    push_arg(&mut args, "-v");
    args
}

/// Lists the tags.
pub fn tags_args() -> (args: Vec<String>)
    ensures
        views(args@) == seq!["tag"@],
{
    let mut args = no_args();
    push_arg(&mut args, "tag");
    args
}

/// Asks for the log of `branch` with the values of `placeholders`. Fails
/// for a placeholder that is not known.
pub fn commit_log_args(branch: &str, placeholders: &Vec<String>) -> (r: Result<
    Vec<String>,
    CustomerGitError,
>)
    ensures
        match r {
            Ok(args) => field_names_of(views(placeholders@)) is Some && views(args@) == seq![
                "log"@,
                branch@,
                log_format_of(views(placeholders@)),
            ],
            Err(e) => field_names_of(views(placeholders@)) is None && e@.kind
                == GitErrorKind::NotFound,
        },
{
    match commit_log_format(placeholders) {
        Ok(format) => {
            let mut args = no_args();
            push_arg(&mut args, "log");
            push_arg(&mut args, branch);
            push_arg(&mut args, format.as_str());
            Ok(args)
        },
        Err(e) => Err(e),
    }
}

/// Asks for the short log of `branch`, with numbers and emails.
pub fn branch_authors_args(branch: &str) -> (args: Vec<String>)
    ensures
        views(args@) == seq!["shortlog"@, branch@, "-sne"@],
{
    let mut args = no_args();
    push_arg(&mut args, "shortlog");
    push_arg(&mut args, branch);
    push_arg(&mut args, "-sne");
    args
}

/// Asks for the short log of the repository, with numbers and emails.
pub fn all_authors_args() -> (args: Vec<String>)
    ensures
        views(args@) == seq!["shortlog"@, "-sne"@],
{
    let mut args = no_args();
    push_arg(&mut args, "shortlog");
    push_arg(&mut args, "-sne");
    args
}

/// The format of the first commit of a branch: author name, author email,
/// time and hash.
pub open spec fn create_info_format_of() -> Seq<char> {
    "--pretty=format:%an"@ + PARAM_INTERVAL@ + "%ae"@ + PARAM_INTERVAL@ + "%at"@ + PARAM_INTERVAL@
        + "%H"@
}

/// Asks for the commits of `branch` without a parent, oldest first.
pub fn branch_create_info_args(branch: &str) -> (args: Vec<String>)
    ensures
        views(args@) == seq![
            "log"@,
            branch@,
            "--reverse"@,
            "--max-parents=0"@,
            create_info_format_of(),
        ],
{
    let mut format = String::from_str("--pretty=format:%an");
    format.append(PARAM_INTERVAL);
    format.append("%ae");
    format.append(PARAM_INTERVAL);
    format.append("%at");
    format.append(PARAM_INTERVAL);
    format.append("%H");
    let mut args = no_args();
    push_arg(&mut args, "log");
    push_arg(&mut args, branch);
    push_arg(&mut args, "--reverse");
    push_arg(&mut args, "--max-parents=0");
    push_arg(&mut args, format.as_str());
    args
}

/// The format of the log that counts contributions: the record separator,
/// then author name, author email and time.
pub open spec fn contribute_format_of() -> Seq<char> {
    "--pretty=format:"@ + COMMIT_INETRVAL@ + "%an"@ + PARAM_INTERVAL@ + "%ae"@ + PARAM_INTERVAL@
        + "%at"@
}

/// Asks for the commits of `branch` behind the commit `root_hash`, oldest
/// first, each with the summary of its changes.
pub fn contribute_stat_args(branch: &str, root_hash: &str) -> (args: Vec<String>)
    ensures
        views(args@) == seq![
            "log"@,
            branch@,
            root_hash@ + "..HEAD"@,
            "--shortstat"@,
            contribute_format_of(),
            "--reverse"@,
        ],
{
    let mut format = String::from_str("--pretty=format:");
    format.append(COMMIT_INETRVAL);
    format.append("%an");
    format.append(PARAM_INTERVAL);
    format.append("%ae");
    format.append(PARAM_INTERVAL);
    format.append("%at");
    let mut range = String::from_str(root_hash);
    range.append("..HEAD");
    let mut args = no_args();
    push_arg(&mut args, "log");
    push_arg(&mut args, branch);
    push_arg(&mut args, range.as_str());
    push_arg(&mut args, "--shortstat");
    push_arg(&mut args, format.as_str());
    push_arg(&mut args, "--reverse");
    args
}

/// The format of a listing of files: mode, type, size, hash and path.
pub open spec fn file_list_format_of() -> Seq<char> {
    "--format=%(objectmode)"@ + PARAM_INTERVAL@ + "%(objecttype)"@ + PARAM_INTERVAL@
        + "%(objectsize:padded)"@ + PARAM_INTERVAL@ + "%(objectname)"@ + PARAM_INTERVAL@
        + "%(path)"@
}

/// Lists the files of a branch or a commit, with all that lies below its
/// directories.
pub fn repo_file_list_args(branch_or_hash: &str) -> (args: Vec<String>)
    ensures
        views(args@) == seq!["ls-tree"@, "-r"@, branch_or_hash@, file_list_format_of()],
{
    let mut format = String::from_str("--format=%(objectmode)");
    format.append(PARAM_INTERVAL);
    format.append("%(objecttype)");
    format.append(PARAM_INTERVAL);
    format.append("%(objectsize:padded)");
    format.append(PARAM_INTERVAL);
    format.append("%(objectname)");
    format.append(PARAM_INTERVAL);
    format.append("%(path)");
    let mut args = no_args();
    push_arg(&mut args, "ls-tree");
    push_arg(&mut args, "-r");
    push_arg(&mut args, branch_or_hash);
    push_arg(&mut args, format.as_str());
    args
}

/// The format of the line that heads the status of a commit: hash, title,
/// author name, author email and time.
pub open spec fn commit_line_format_of() -> Seq<char> {
    "--format=%H"@ + PARAM_INTERVAL@ + "%s"@ + PARAM_INTERVAL@ + "%an"@ + PARAM_INTERVAL@ + "%ae"@
        + PARAM_INTERVAL@ + "%at"@
}

/// Asks for the commit `hash` and the status of each file it touched.
pub fn commit_file_status_args(hash: &str) -> (args: Vec<String>)
    ensures
        views(args@) == seq![
            "show"@,
            hash@,
            "--name-status"@,
            "--oneline"@,
            commit_line_format_of(),
        ],
{
    let mut format = String::from_str("--format=%H");
    format.append(PARAM_INTERVAL);
    format.append("%s");
    format.append(PARAM_INTERVAL);
    format.append("%an");
    format.append(PARAM_INTERVAL);
    format.append("%ae");
    format.append(PARAM_INTERVAL);
    format.append("%at");
    let mut args = no_args();
    push_arg(&mut args, "show");
    push_arg(&mut args, hash);
    push_arg(&mut args, "--name-status");
    push_arg(&mut args, "--oneline");
    push_arg(&mut args, format.as_str());
    args
}

/// Asks for the status of the file at `file_path` in the commit
/// `commit_hash`.
pub fn file_between_commit_status_args(commit_hash: &str, file_path: &str) -> (args: Vec<String>)
    ensures
        views(args@) == seq![
            "show"@,
            commit_hash@,
            "--name-status"@,
            "--format="@,
            "--"@,
            file_path@,
        ],
{
    let mut args = no_args();
    push_arg(&mut args, "show");
    push_arg(&mut args, commit_hash);
    push_arg(&mut args, "--name-status");
    push_arg(&mut args, "--format=");
    push_arg(&mut args, "--");
    push_arg(&mut args, file_path);
    args
}

/// The range of what changed on the way to `commit_hash2` since it parted
/// from `commit_hash1`.
pub open spec fn symmetric_range_of(commit_hash1: Seq<char>, commit_hash2: Seq<char>) -> Seq<char> {
    commit_hash1 + "..."@ + commit_hash2
}

fn symmetric_range(commit_hash1: &str, commit_hash2: &str) -> (range: String)
    ensures
        range@ == symmetric_range_of(commit_hash1@, commit_hash2@),
{
    let mut range = String::from_str(commit_hash1);
    range.append("...");
    range.append(commit_hash2);
    range
}

/// The arguments that ask for the summary of the changes to the file at
/// `file_path` between two commits.
pub open spec fn file_modify_stat_args_of(
    commit_hash1: Seq<char>,
    commit_hash2: Seq<char>,
    file_path: Seq<char>,
) -> Seq<Seq<char>> {
    seq![
        "diff"@,
        "--shortstat"@,
        symmetric_range_of(commit_hash1, commit_hash2),
        "--"@,
        file_path,
    ]
}

/// Asks for the summary of the changes to the file at `file_path` between
/// two commits.
pub fn file_modify_stat_args(commit_hash1: &str, commit_hash2: &str, file_path: &str) -> (args:
    Vec<String>)
    ensures
        views(args@) == file_modify_stat_args_of(commit_hash1@, commit_hash2@, file_path@),
{
    let range = symmetric_range(commit_hash1, commit_hash2);
    let mut args = no_args();
    push_arg(&mut args, "diff");
    push_arg(&mut args, "--shortstat");
    push_arg(&mut args, range.as_str());
    push_arg(&mut args, "--");
    push_arg(&mut args, file_path);
    args
}

/// The arguments that ask for the summary of the changes between the file
/// at `file_path1` in the first commit and the file at `file_path2` in the
/// second.
pub open spec fn diff_file_stat_args_of(
    commit_hash1: Seq<char>,
    commit_hash2: Seq<char>,
    file_path1: Seq<char>,
    file_path2: Seq<char>,
) -> Seq<Seq<char>> {
    seq![
        "diff"@,
        "--shortstat"@,
        symmetric_range_of(commit_hash1, commit_hash2),
        "--"@,
        file_path1,
        file_path2,
    ]
}

/// Asks for the summary of the changes between the file at `file_path1` in
/// the first commit and the file at `file_path2` in the second.
pub fn diff_file_stat_args(
    commit_hash1: &str,
    commit_hash2: &str,
    file_path1: &str,
    file_path2: &str,
) -> (args: Vec<String>)
    ensures
        views(args@) == diff_file_stat_args_of(
            commit_hash1@,
            commit_hash2@,
            file_path1@,
            file_path2@,
        ),
{
    let range = symmetric_range(commit_hash1, commit_hash2);
    let mut args = no_args();
    push_arg(&mut args, "diff");
    push_arg(&mut args, "--shortstat");
    push_arg(&mut args, range.as_str());
    push_arg(&mut args, "--");
    push_arg(&mut args, file_path1);
    push_arg(&mut args, file_path2);
    args
}

/// The arguments that ask for the summary of the changes to the file at
/// `file_path` from the first commit to the second, the two commits given
/// one by one.
pub open spec fn diff_shortstat_args_of(
    commit_hash1: Seq<char>,
    commit_hash2: Seq<char>,
    file_path: Seq<char>,
) -> Seq<Seq<char>> {
    seq!["diff"@, "--shortstat"@, commit_hash1, commit_hash2, "--"@, file_path]
}

/// Asks for the summary of the changes to the file at `file_path` from the
/// first commit to the second.
pub fn diff_shortstat_args(commit_hash1: &str, commit_hash2: &str, file_path: &str) -> (args:
    Vec<String>)
    ensures
        views(args@) == diff_shortstat_args_of(commit_hash1@, commit_hash2@, file_path@),
{
    let mut args = no_args();
    push_arg(&mut args, "diff");
    push_arg(&mut args, "--shortstat");
    push_arg(&mut args, commit_hash1);
    push_arg(&mut args, commit_hash2);
    push_arg(&mut args, "--");
    push_arg(&mut args, file_path);
    args
}

/// Asks for the status of each file that differs between two commits.
pub fn files_status_args(commit_hash1: &str, commit_hash2: &str) -> (args: Vec<String>)
    ensures
        views(args@) == seq!["diff"@, "--name-status"@, commit_hash1@, commit_hash2@],
{
    let mut args = no_args();
    push_arg(&mut args, "diff");
    push_arg(&mut args, "--name-status");
    push_arg(&mut args, commit_hash1);
    push_arg(&mut args, commit_hash2);
    args
}

/// The name of the file at `file_path` in the commit `commit_hash`.
pub open spec fn object_name_of(commit_hash: Seq<char>, file_path: Seq<char>) -> Seq<char> {
    commit_hash + ":"@ + file_path
}

/// The arguments that ask for the content of the file at `file_path` in
/// the commit `commit_hash`.
pub open spec fn file_content_args_of(commit_hash: Seq<char>, file_path: Seq<char>) -> Seq<
    Seq<char>,
> {
    seq!["cat-file"@, "-p"@, object_name_of(commit_hash, file_path)]
}

/// Asks for the content of the file at `file_path` in the commit
/// `commit_hash`.
pub fn file_content_args(commit_hash: &str, file_path: &str) -> (args: Vec<String>)
    ensures
        views(args@) == file_content_args_of(commit_hash@, file_path@),
{
    let mut object = String::from_str(commit_hash);
    object.append(":");
    object.append(file_path);
    let mut args = no_args();
    push_arg(&mut args, "cat-file");
    push_arg(&mut args, "-p");
    push_arg(&mut args, object.as_str());
    args
}

/// The error of a command that did not end well: the repository, and the
/// command with its arguments.
pub open spec fn invocation_error_of(
    path: Seq<char>,
    args: Seq<Seq<char>>,
) -> CustomerGitErrorView {
    CustomerGitErrorView {
        kind: GitErrorKind::Invocation,
        path,
        message: "Command failed: git "@ + joined(args, " "@),
        inner_error: None,
    }
}

/// Takes what a command printed where the command ended well, and fails
/// where it did not: the exit status decides, whatever was printed.
pub fn command_output(path: &str, args: &Vec<String>, success: bool, stdout: String) -> (r: Result<
    String,
    CustomerGitError,
>)
    ensures
        match r {
            Ok(text) => success && text@ == stdout@,
            Err(e) => !success && e@ == invocation_error_of(path@, views(args@)),
        },
{
    if success {
        Ok(stdout)
    } else {
        let mut message = String::from_str("Command failed: git ");
        let command = join_first(args, args.len(), " ");
        assert(views(args@).take(args.len() as int) =~= views(args@));
        message.append(command.as_str());
        Err(
            CustomerGitError {
                kind: GitErrorKind::Invocation,
                path: String::from_str(path),
                message,
                inner_error: None,
            },
        )
    }
}

} // verus!
