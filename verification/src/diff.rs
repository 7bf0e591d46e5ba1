//! The contents of one file in two commits.
//!
//! The library decides what has to be read and what is shown; the caller
//! reads. For each file the caller asks for a plan, runs the commands that
//! the plan names, and hands over what they printed for the entry.
//!
//! There are two operations, each with its own plan and entry. The diff of
//! all files between two commits shows the old content on the first side
//! and the new content on the second, puts a fixed text in place of a
//! binary content, and follows a renamed file under its two paths. The diff
//! of one file, asked for by its path, does so for an added, a deleted and
//! a modified file, leaves empty the side that the file has not, and shows
//! nothing for another status.

use regex::Regex;
use vstd::prelude::*;
use vstd::string::StringExecFns;
use vstd::string::StringSliceAdditionalSpecFns;
use vstd::utf8::{encode_utf8, is_ascii_chars, is_ascii_chars_encode_utf8};

use crate::command::{
    diff_file_stat_args, diff_file_stat_args_of, diff_shortstat_args, diff_shortstat_args_of,
    file_content_args, file_content_args_of, file_modify_stat_args, file_modify_stat_args_of,
};
use crate::err::{CustomerGitError, GitErrorKind};
use crate::structs::{
    FileDiffContext, FileDiffContextView, FileLineChangeStat, FileStatus, FileStatusType,
    FileStatusView,
};
use crate::text::{lines, lines_of, to_chars, trim, trimmed, views};

verus! {

/// Stands in place of a content that is binary.
pub const BINARY_FILE: &'static str = "Binary file";

/// Stands in place of the new content of a deleted file.
pub const FILE_DELETED: &'static str = "File deleted";

/// The number of bytes at the start of a content that decide whether it is
/// binary.
pub const BINARY_PROBE: usize = 8000;

/// Whether a content is binary: one of its first 8000 bytes is zero.
pub open spec fn is_binary_content(bytes: Seq<u8>) -> bool {
    exists|i: int| 0 <= i < bytes.len() && i < BINARY_PROBE && bytes[i] == 0
}

/// A zero byte among the first 8000 makes a content binary, whatever its
/// length.
pub proof fn lemma_zero_byte_is_binary(bytes: Seq<u8>, k: int)
    requires
        0 <= k < bytes.len(),
        k < BINARY_PROBE,
        bytes[k] == 0,
    ensures
        is_binary_content(bytes),
{
}

/// A text of ASCII characters without the character NUL is not binary,
/// whatever its length.
pub proof fn lemma_ascii_text_is_not_binary(content: Seq<char>)
    requires
        is_ascii_chars(content),
        forall|i: int| 0 <= i < content.len() ==> content[i] != '\0',
    ensures
        !is_binary_content(encode_utf8(content)),
{
    is_ascii_chars_encode_utf8(content);
    assert forall|i: int| 0 <= i < encode_utf8(content).len() implies encode_utf8(content)[i]
        != 0 by {}
}

/// Tests whether a content is binary.
pub fn is_binary(content: &str) -> (b: bool)
    ensures
        b == is_binary_content(content.spec_bytes()),
{
    let bytes = content.as_bytes();
    let mut i: usize = 0;
    while i < bytes.len() && i < BINARY_PROBE
        invariant
            bytes@ == content.spec_bytes(),
            forall|j: int| 0 <= j < i ==> bytes@[j] != 0,
        decreases bytes.len() - i,
    {
        if bytes[i] == 0 {
            return true;
        }
        i += 1;
    }
    false
}

/// The number of lines of a content, and `i32::MAX` for more lines than
/// that.
pub open spec fn line_count(content: Seq<char>) -> int {
    if lines_of(content).len() > i32::MAX {
        i32::MAX as int
    } else {
        lines_of(content).len() as int
    }
}

fn count_char_lines(content: &[char]) -> (n: i32)
    ensures
        n == line_count(content@),
{
    let parts = lines(content);
    if parts.len() > 0x7fff_ffff {
        i32::MAX
    } else {
        parts.len() as i32
    }
}

/// Counts the lines of a content.
pub fn count_lines(content: &str) -> (n: i32)
    ensures
        n == line_count(content@),
{
    let chars = to_chars(content);
    count_char_lines(chars.as_slice())
}

/// What is shown of a content: the content, or a fixed text in place of a
/// binary one.
pub open spec fn shown(content: Seq<char>) -> Seq<char> {
    if is_binary_content(encode_utf8(content)) {
        BINARY_FILE@
    } else {
        content
    }
}

fn show(content: &str) -> (text: String)
    ensures
        text@ == shown(content@),
{
    if is_binary(content) {
        String::from_str(BINARY_FILE)
    } else {
        String::from_str(content)
    }
}

/// What has to be read for one file, as the arguments of up to three
/// commands: one that prints the old content, one that prints the new
/// content, and one that prints the summary of the changes between them.
#[derive(Clone, Debug, PartialEq, Eq)]
pub struct DiffPlan {
    pub old_content: Option<Vec<String>>,
    pub new_content: Option<Vec<String>>,
    pub stat: Option<Vec<String>>,
}

/// The mathematical value of a [`DiffPlan`].
pub struct DiffPlanView {
    pub old_content: Option<Seq<Seq<char>>>,
    pub new_content: Option<Seq<Seq<char>>>,
    pub stat: Option<Seq<Seq<char>>>,
}

/// The value of texts that may be missing.
pub open spec fn optional_views(args: Option<Vec<String>>) -> Option<Seq<Seq<char>>> {
    match args {
        Some(args) => Some(views(args@)),
        None => None,
    }
}

impl View for DiffPlan {
    type V = DiffPlanView;

    open spec fn view(&self) -> DiffPlanView {
        DiffPlanView {
            old_content: optional_views(self.old_content),
            new_content: optional_views(self.new_content),
            stat: optional_views(self.stat),
        }
    }
}

/// The pattern that divides a rename message: an arrow with the white
/// space around it.
pub const ARROW: &'static str = r"\s*=>\s*";

/// The pieces that `Regex::split` gives for `text` with the regular
/// expression that `Regex::new` compiles from `pattern`, or nothing where
/// `Regex::new` refuses the pattern.
pub uninterp spec fn regex_pieces(pattern: Seq<char>, text: Seq<char>) -> Option<Seq<Seq<char>>>;

/// `Regex::new` compiles a pattern, or refuses it; `Regex::split` gives the
/// pieces of a text that lie between the matches of the pattern, in order.
/// Both are functions of their arguments.
#[verifier::external_body]
fn regex_split(pattern: &str, text: &str) -> (pieces: Option<Vec<String>>)
    ensures
        optional_views(pieces) == regex_pieces(pattern@, text@),
{
    match Regex::new(pattern) {
        Ok(regex) => Some(regex.split(text).map(String::from).collect()),
        Err(_) => None,
    }
}

/// The pieces of a rename message: what lies before, between and behind
/// its arrows. Without pieces where the pattern of the arrow is refused.
pub open spec fn arrow_pieces(message: Seq<char>) -> Seq<Seq<char>> {
    match regex_pieces(ARROW@, message) {
        Some(pieces) => pieces,
        None => Seq::empty(),
    }
}

/// The old and the new path among the pieces of a rename message: the
/// first two pieces, or nothing where there are fewer.
pub open spec fn rename_paths_of(pieces: Seq<Seq<char>>) -> Option<(Seq<char>, Seq<char>)> {
    if pieces.len() >= 2 {
        Some((pieces[0], pieces[1]))
    } else {
        None
    }
}

/// Takes the old and the new path from the pieces of a rename message.
pub fn rename_paths_from(pieces: &Vec<String>) -> (r: Result<(String, String), CustomerGitError>)
    ensures
        match r {
            Ok((old_path, new_path)) => rename_paths_of(views(pieces@)) == Some(
                (old_path@, new_path@),
            ),
            Err(e) => rename_paths_of(views(pieces@)) is None && e@.kind == GitErrorKind::Parse,
        },
{
    if pieces.len() >= 2 {
        Ok((pieces[0].clone(), pieces[1].clone()))
    } else {
        Err(CustomerGitError::parse("The rename message names no two paths"))
    }
}

/// Takes the old and the new path from a rename message `<old> => <new>`.
pub fn rename_paths(message: &str) -> (r: Result<(String, String), CustomerGitError>)
    ensures
        match r {
            Ok((old_path, new_path)) => rename_paths_of(arrow_pieces(message@)) == Some(
                (old_path@, new_path@),
            ),
            Err(e) => rename_paths_of(arrow_pieces(message@)) is None && e@.kind
                == GitErrorKind::Parse,
        },
{
    match regex_split(ARROW, message) {
        Some(pieces) => rename_paths_from(&pieces),
        None => {
            let pieces: Vec<String> = Vec::new();
            rename_paths_from(&pieces)
        },
    }
}

/// What has to be read for a file of a diff between two commits, given the
/// old and the new path of a renamed file. An added file is read in the
/// second commit, a deleted one in the first; a modified file is read in
/// both under its path, a renamed one under its two paths, and both with
/// the summary of their changes. Nothing is read for another status.
pub open spec fn files_diff_plan_of(
    commit_hash1: Seq<char>,
    commit_hash2: Seq<char>,
    status: FileStatusView,
    renamed: Option<(Seq<char>, Seq<char>)>,
) -> Option<DiffPlanView> {
    match status.status {
        FileStatusType::Added => Some(
            DiffPlanView {
                old_content: None,
                new_content: Some(file_content_args_of(commit_hash2, status.path)),
                stat: None,
            },
        ),
        FileStatusType::Deleted => Some(
            DiffPlanView {
                old_content: Some(file_content_args_of(commit_hash1, status.path)),
                new_content: None,
                stat: None,
            },
        ),
        FileStatusType::Modified => Some(
            DiffPlanView {
                old_content: Some(file_content_args_of(commit_hash1, status.path)),
                new_content: Some(file_content_args_of(commit_hash2, status.path)),
                stat: Some(file_modify_stat_args_of(commit_hash1, commit_hash2, status.path)),
            },
        ),
        FileStatusType::Renamed => match renamed {
            Some((old_path, new_path)) => Some(
                DiffPlanView {
                    old_content: Some(file_content_args_of(commit_hash1, old_path)),
                    new_content: Some(file_content_args_of(commit_hash2, new_path)),
                    stat: Some(
                        diff_file_stat_args_of(commit_hash1, commit_hash2, old_path, new_path),
                    ),
                },
            ),
            None => None,
        },
        _ => Some(DiffPlanView { old_content: None, new_content: None, stat: None }),
    }
}

/// The value of two paths that may be missing.
pub open spec fn paths_view(paths: Option<(String, String)>) -> Option<(Seq<char>, Seq<char>)> {
    match paths {
        Some((old_path, new_path)) => Some((old_path@, new_path@)),
        None => None,
    }
}

/// Says what has to be read for a file of a diff between two commits, given
/// the old and the new path of a renamed file. Gives nothing for a renamed
/// file without the two paths.
pub fn files_diff_plan(
    commit_hash1: &str,
    commit_hash2: &str,
    status: &FileStatus,
    renamed: Option<(String, String)>,
) -> (plan: Option<DiffPlan>)
    ensures
        match plan {
            Some(plan) => files_diff_plan_of(
                commit_hash1@,
                commit_hash2@,
                status@,
                paths_view(renamed),
            ) == Some(plan@),
            None => files_diff_plan_of(commit_hash1@, commit_hash2@, status@, paths_view(renamed))
                is None,
        },
{
    let path = status.path.as_str();
    match status.status {
        FileStatusType::Added => Some(
            DiffPlan {
                old_content: None,
                new_content: Some(file_content_args(commit_hash2, path)),
                stat: None,
            },
        ),
        FileStatusType::Deleted => Some(
            DiffPlan {
                old_content: Some(file_content_args(commit_hash1, path)),
                new_content: None,
                stat: None,
            },
        ),
        FileStatusType::Modified => Some(
            DiffPlan {
                old_content: Some(file_content_args(commit_hash1, path)),
                new_content: Some(file_content_args(commit_hash2, path)),
                stat: Some(file_modify_stat_args(commit_hash1, commit_hash2, path)),
            },
        ),
        FileStatusType::Renamed => match renamed {
            Some((old_path, new_path)) => Some(
                DiffPlan {
                    old_content: Some(file_content_args(commit_hash1, old_path.as_str())),
                    new_content: Some(file_content_args(commit_hash2, new_path.as_str())),
                    stat: Some(
                        diff_file_stat_args(
                            commit_hash1,
                            commit_hash2,
                            old_path.as_str(),
                            new_path.as_str(),
                        ),
                    ),
                },
            ),
            None => None,
        },
        _ => Some(DiffPlan { old_content: None, new_content: None, stat: None }),
    }
}

/// Says what has to be read for a file of a diff between two commits. The
/// paths of a renamed file are taken from its message. Fails for a renamed
/// file whose message does not name two paths.
pub fn plan_files_diff(commit_hash1: &str, commit_hash2: &str, status: &FileStatus) -> (r: Result<
    DiffPlan,
    CustomerGitError,
>)
    ensures
        match r {
            Ok(plan) => files_diff_plan_of(
                commit_hash1@,
                commit_hash2@,
                status@,
                rename_paths_of(arrow_pieces(status@.message)),
            ) == Some(plan@),
            Err(e) => files_diff_plan_of(
                commit_hash1@,
                commit_hash2@,
                status@,
                rename_paths_of(arrow_pieces(status@.message)),
            ) is None && e@.kind == GitErrorKind::Parse,
        },
{
    let renamed = match status.status {
        FileStatusType::Renamed => match rename_paths(status.message.as_str()) {
            Ok(paths) => Some(paths),
            Err(e) => {
                return Err(e);
            },
        },
        _ => None,
    };
    match files_diff_plan(commit_hash1, commit_hash2, status, renamed) {
        Some(plan) => Ok(plan),
        None => Err(CustomerGitError::parse("The rename message names no two paths")),
    }
}

/// The entry of a file of a diff between two commits, given what was read
/// for it. A binary content is replaced by a fixed text. An added file
/// counts its lines as additions, and a binary one shows the fixed text on
/// both sides. A deleted file counts its lines as deletions and shows a
/// fixed text as its new content. A modified or renamed file shows both
/// contents with the counts of the summary. Another status shows nothing.
pub open spec fn files_diff_entry_of(
    commit_hash1: Seq<char>,
    commit_hash2: Seq<char>,
    status: FileStatusView,
    old_content: Seq<char>,
    new_content: Seq<char>,
    stat: FileLineChangeStat,
) -> FileDiffContextView {
    let old_binary = is_binary_content(encode_utf8(old_content));
    let new_binary = is_binary_content(encode_utf8(new_content));
    let none = FileLineChangeStat { addition: 0, deletion: 0 };
    let entry = FileDiffContextView {
        commit_hash1,
        commit_hash2,
        file_path: status.path,
        change_stat: none,
        context1: Seq::empty(),
        context2: Seq::empty(),
        file_status: status.status,
    };
    match status.status {
        FileStatusType::Added => if new_binary {
            FileDiffContextView { context1: BINARY_FILE@, context2: BINARY_FILE@, ..entry }
        } else {
            FileDiffContextView {
                context2: new_content,
                change_stat: FileLineChangeStat {
                    addition: line_count(new_content) as i32,
                    deletion: 0,
                },
                ..entry
            }
        },
        FileStatusType::Deleted => if old_binary {
            FileDiffContextView { context1: BINARY_FILE@, context2: FILE_DELETED@, ..entry }
        } else {
            FileDiffContextView {
                context1: old_content,
                context2: FILE_DELETED@,
                change_stat: FileLineChangeStat {
                    addition: 0,
                    deletion: line_count(old_content) as i32,
                },
                ..entry
            }
        },
        FileStatusType::Modified | FileStatusType::Renamed => FileDiffContextView {
            context1: shown(old_content),
            context2: shown(new_content),
            change_stat: stat,
            ..entry
        },
        _ => entry,
    }
}

/// Builds the entry of a file of a diff between two commits from what was
/// read for it. A content or a summary that the plan did not ask for is
/// not looked at.
pub fn files_diff_entry(
    commit_hash1: &str,
    commit_hash2: &str,
    status: &FileStatus,
    old_content: &str,
    new_content: &str,
    stat: FileLineChangeStat,
) -> (entry: FileDiffContext)
    ensures
        entry@ == files_diff_entry_of(
            commit_hash1@,
            commit_hash2@,
            status@,
            old_content@,
            new_content@,
            stat,
        ),
{
    let mut context1 = String::new();
    let mut context2 = String::new();
    let mut addition: i32 = 0;
    let mut deletion: i32 = 0;
    match status.status {
        FileStatusType::Added => {
            if is_binary(new_content) {
                context1 = String::from_str(BINARY_FILE);
                context2 = String::from_str(BINARY_FILE);
            } else {
                context2 = String::from_str(new_content);
                addition = count_lines(new_content);
            }
        },
        FileStatusType::Deleted => {
            if is_binary(old_content) {
                context1 = String::from_str(BINARY_FILE);
            } else {
                context1 = String::from_str(old_content);
                deletion = count_lines(old_content);
            }
            context2 = String::from_str(FILE_DELETED);
        },
        FileStatusType::Modified | FileStatusType::Renamed => {
            context1 = show(old_content);
            context2 = show(new_content);
            addition = stat.addition;
            deletion = stat.deletion;
        },
        _ => {},
    }
    FileDiffContext {
        commit_hash1: String::from_str(commit_hash1),
        commit_hash2: String::from_str(commit_hash2),
        file_path: status.path.clone(),
        change_stat: FileLineChangeStat { addition, deletion },
        context1,
        context2,
        file_status: status.status,
    }
}

/// What has to be read for the diff of one file, asked for by its path. An
/// added file is read in the second commit and a deleted one in the first;
/// a modified file is read in both, with the summary of its changes from
/// the first commit to the second. Nothing is read for another status.
pub open spec fn file_diff_plan_of(
    commit_hash1: Seq<char>,
    commit_hash2: Seq<char>,
    file_path: Seq<char>,
    status: FileStatusType,
) -> DiffPlanView {
    match status {
        FileStatusType::Added => DiffPlanView {
            old_content: None,
            new_content: Some(file_content_args_of(commit_hash2, file_path)),
            stat: None,
        },
        FileStatusType::Deleted => DiffPlanView {
            old_content: Some(file_content_args_of(commit_hash1, file_path)),
            new_content: None,
            stat: None,
        },
        FileStatusType::Modified => DiffPlanView {
            old_content: Some(file_content_args_of(commit_hash1, file_path)),
            new_content: Some(file_content_args_of(commit_hash2, file_path)),
            stat: Some(diff_shortstat_args_of(commit_hash1, commit_hash2, file_path)),
        },
        _ => DiffPlanView { old_content: None, new_content: None, stat: None },
    }
}

/// Says what has to be read for the diff of one file.
pub fn plan_file_diff(
    commit_hash1: &str,
    commit_hash2: &str,
    file_path: &str,
    status: FileStatusType,
) -> (plan: DiffPlan)
    ensures
        plan@ == file_diff_plan_of(commit_hash1@, commit_hash2@, file_path@, status),
{
    match status {
        FileStatusType::Added => DiffPlan {
            old_content: None,
            new_content: Some(file_content_args(commit_hash2, file_path)),
            stat: None,
        },
        FileStatusType::Deleted => DiffPlan {
            old_content: Some(file_content_args(commit_hash1, file_path)),
            new_content: None,
            stat: None,
        },
        FileStatusType::Modified => DiffPlan {
            old_content: Some(file_content_args(commit_hash1, file_path)),
            new_content: Some(file_content_args(commit_hash2, file_path)),
            stat: Some(diff_shortstat_args(commit_hash1, commit_hash2, file_path)),
        },
        _ => DiffPlan { old_content: None, new_content: None, stat: None },
    }
}

/// The diff of one file, given what was read for it. A binary content is
/// replaced by a fixed text. An added file shows its content on the second
/// side and counts the lines of it, without the white space around it, as
/// additions; a deleted file shows its content on the first side and counts
/// its lines as deletions. The other side stays empty. A modified file
/// shows both contents, with the counts of the summary. For every other
/// status both contents are empty and both counts are 0.
pub open spec fn file_diff_entry_of(
    commit_hash1: Seq<char>,
    commit_hash2: Seq<char>,
    file_path: Seq<char>,
    status: FileStatusType,
    old_content: Seq<char>,
    new_content: Seq<char>,
    stat: FileLineChangeStat,
) -> FileDiffContextView {
    let entry = FileDiffContextView {
        commit_hash1,
        commit_hash2,
        file_path,
        change_stat: FileLineChangeStat { addition: 0, deletion: 0 },
        context1: Seq::empty(),
        context2: Seq::empty(),
        file_status: status,
    };
    match status {
        FileStatusType::Added => FileDiffContextView {
            context2: shown(new_content),
            change_stat: FileLineChangeStat {
                addition: line_count(trimmed(new_content)) as i32,
                deletion: 0,
            },
            ..entry
        },
        FileStatusType::Deleted => FileDiffContextView {
            context1: shown(old_content),
            change_stat: FileLineChangeStat {
                addition: 0,
                deletion: line_count(trimmed(old_content)) as i32,
            },
            ..entry
        },
        FileStatusType::Modified => FileDiffContextView {
            context1: shown(old_content),
            context2: shown(new_content),
            change_stat: stat,
            ..entry
        },
        _ => entry,
    }
}

/// Builds the diff of one file from what was read for it. A content or a
/// summary that the plan did not ask for is not looked at.
pub fn file_diff_entry(
    commit_hash1: &str,
    commit_hash2: &str,
    file_path: &str,
    status: FileStatusType,
    old_content: &str,
    new_content: &str,
    stat: FileLineChangeStat,
) -> (entry: FileDiffContext)
    ensures
        entry@ == file_diff_entry_of(
            commit_hash1@,
            commit_hash2@,
            file_path@,
            status,
            old_content@,
            new_content@,
            stat,
        ),
{
    let mut context1 = String::new();
    let mut context2 = String::new();
    let mut change_stat = FileLineChangeStat { addition: 0, deletion: 0 };
    match status {
        FileStatusType::Added => {
            let chars = to_chars(new_content);
            context2 = show(new_content);
            change_stat.addition = count_char_lines(trim(chars.as_slice()));
        },
        FileStatusType::Deleted => {
            let chars = to_chars(old_content);
            context1 = show(old_content);
            change_stat.deletion = count_char_lines(trim(chars.as_slice()));
        },
        FileStatusType::Modified => {
            context1 = show(old_content);
            context2 = show(new_content);
            change_stat = stat;
        },
        _ => {},
    }
    FileDiffContext {
        commit_hash1: String::from_str(commit_hash1),
        commit_hash2: String::from_str(commit_hash2),
        file_path: String::from_str(file_path),
        change_stat,
        context1,
        context2,
        file_status: status,
    }
}

} // verus!
