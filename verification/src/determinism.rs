//! What a parser gives is a function of the text that it reads: nothing
//! else, and nothing that an earlier reading left behind, has a part in it.

use vstd::prelude::*;
use vstd::utf8::encode_utf8;

use crate::contribute::contribute_stat_of;
use crate::delimiter::{commit_log_of, without_record_line_feeds};
use crate::diff::{arrow_pieces, is_binary_content, line_count, rename_paths_of};
use crate::repository::{
    authors_of, branch_create_info_of, branches_of, listed_authors_of, remotes_of, tags_of,
};
use crate::shortstat::shortstat_of;
use crate::status::{
    commit_file_status_of, file_between_commit_status_of, files_status_of, status_line_of,
};
use crate::tree::repo_file_list_of;

verus! {

/// Reading the same text again gives the same result, whichever parser
/// reads it: the summary of a diff, the contributions to a branch, the
/// status of files, the commit log under given field names, branches, tags,
/// remotes, authors, the first commit of a branch, the tree of files, and
/// what is decided of a content.
pub proof fn lemma_same_text_same_result(
    first: Seq<char>,
    second: Seq<char>,
    branch: Seq<char>,
    names: Seq<Seq<char>>,
)
    requires
        first == second,
    ensures
        shortstat_of(first) == shortstat_of(second),
        contribute_stat_of(branch, first) == contribute_stat_of(branch, second),
        status_line_of(first) == status_line_of(second),
        files_status_of(first) == files_status_of(second),
        commit_file_status_of(first) == commit_file_status_of(second),
        file_between_commit_status_of(first) == file_between_commit_status_of(second),
        commit_log_of(first, names) == commit_log_of(second, names),
        without_record_line_feeds(first) == without_record_line_feeds(second),
        branches_of(first) == branches_of(second),
        tags_of(first) == tags_of(second),
        remotes_of(first) == remotes_of(second),
        listed_authors_of(first) == listed_authors_of(second),
        authors_of(first) == authors_of(second),
        branch_create_info_of(branch, first) == branch_create_info_of(branch, second),
        repo_file_list_of(first) == repo_file_list_of(second),
        rename_paths_of(arrow_pieces(first)) == rename_paths_of(arrow_pieces(second)),
        is_binary_content(encode_utf8(first)) == is_binary_content(encode_utf8(second)),
        line_count(first) == line_count(second),
{
}

} // verus!
