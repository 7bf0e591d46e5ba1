//! The records that the parsers produce, each with its mathematical value.

use vstd::prelude::*;
use vstd::string::StringExecFns;

use crate::text::{number_text, number_to_text, views};

verus! {

/// A contributor. Two authors are the same when name and email agree.
#[derive(Clone, Debug, PartialEq, Eq, Hash)]
pub struct Author {
    pub name: String,
    pub email: String,
}

/// The mathematical value of an [`Author`].
pub struct AuthorView {
    pub name: Seq<char>,
    pub email: Seq<char>,
}

impl View for Author {
    type V = AuthorView;

    open spec fn view(&self) -> AuthorView {
        AuthorView { name: self.name@, email: self.email@ }
    }
}

impl Author {
    /// Tests whether two authors agree in name and email.
    pub fn same_as(&self, other: &Author) -> (b: bool)
        ensures
            b == (self@ == other@),
    {
        self.name == other.name && self.email == other.email
    }

    /// A copy of the author.
    pub fn duplicate(&self) -> (a: Author)
        ensures
            a@ == self@,
    {
        Author { name: self.name.clone(), email: self.email.clone() }
    }
}

/// The root commit of a branch's history.
#[derive(Clone, Debug, PartialEq, Eq)]
pub struct BranchCreatedInfo {
    pub name: String,
    pub time: String,
    pub author: Author,
    pub hash: String,
}

/// The mathematical value of a [`BranchCreatedInfo`].
pub struct BranchCreatedInfoView {
    pub name: Seq<char>,
    pub time: Seq<char>,
    pub author: AuthorView,
    pub hash: Seq<char>,
}

impl View for BranchCreatedInfo {
    type V = BranchCreatedInfoView;

    open spec fn view(&self) -> BranchCreatedInfoView {
        BranchCreatedInfoView {
            name: self.name@,
            time: self.time@,
            author: self.author@,
            hash: self.hash@,
        }
    }
}

/// A branch, the commit it started from, and who contributed to it.
#[derive(Clone, Debug, PartialEq, Eq)]
pub struct Branch {
    pub name: String,
    pub created: BranchCreatedInfo,
    pub authors: Vec<Author>,
}

/// The mathematical value of a [`Branch`].
pub struct BranchView {
    pub name: Seq<char>,
    pub created: BranchCreatedInfoView,
    pub authors: Seq<AuthorView>,
}

impl View for Branch {
    type V = BranchView;

    open spec fn view(&self) -> BranchView {
        BranchView { name: self.name@, created: self.created@, authors: views(self.authors@) }
    }
}

/// A remote: its name, its address, and the directions (`fetch`, `push`)
/// that the listing gave for it.
#[derive(Clone, Debug, PartialEq, Eq)]
pub struct Remote {
    pub name: String,
    pub url: String,
    pub operate: Vec<String>,
}

/// The mathematical value of a [`Remote`].
pub struct RemoteView {
    pub name: Seq<char>,
    pub url: Seq<char>,
    pub operate: Seq<Seq<char>>,
}

impl View for Remote {
    type V = RemoteView;

    open spec fn view(&self) -> RemoteView {
        RemoteView { name: self.name@, url: self.url@, operate: views(self.operate@) }
    }
}

/// All that is known of a repository.
#[derive(Clone, Debug, PartialEq, Eq)]
pub struct RepositoryFull {
    pub current_branch: Branch,
    pub branches: Vec<Branch>,
    pub authors: Vec<Author>,
    pub name: String,
    pub remote: Vec<Remote>,
    pub path: String,
}

/// The mathematical value of a [`RepositoryFull`].
pub struct RepositoryFullView {
    pub current_branch: BranchView,
    pub branches: Seq<BranchView>,
    pub authors: Seq<AuthorView>,
    pub name: Seq<char>,
    pub remote: Seq<RemoteView>,
    pub path: Seq<char>,
}

impl View for RepositoryFull {
    type V = RepositoryFullView;

    open spec fn view(&self) -> RepositoryFullView {
        RepositoryFullView {
            current_branch: self.current_branch@,
            branches: views(self.branches@),
            authors: views(self.authors@),
            name: self.name@,
            remote: views(self.remote@),
            path: self.path@,
        }
    }
}

/// A repository in short: branches by name only.
#[derive(Clone, Debug, PartialEq, Eq)]
pub struct RepositorySimple {
    pub name: String,
    pub path: String,
    pub branches: Vec<String>,
    pub current_branch: String,
    pub remote: Vec<Remote>,
    pub authors: Vec<Author>,
}

/// The mathematical value of a [`RepositorySimple`].
pub struct RepositorySimpleView {
    pub name: Seq<char>,
    pub path: Seq<char>,
    pub branches: Seq<Seq<char>>,
    pub current_branch: Seq<char>,
    pub remote: Seq<RemoteView>,
    pub authors: Seq<AuthorView>,
}

impl View for RepositorySimple {
    type V = RepositorySimpleView;

    open spec fn view(&self) -> RepositorySimpleView {
        RepositorySimpleView {
            name: self.name@,
            path: self.path@,
            branches: views(self.branches@),
            current_branch: self.current_branch@,
            remote: views(self.remote@),
            authors: views(self.authors@),
        }
    }
}

/// Contributions by day: the number of commits seen, the days in the order
/// in which they were first seen, and for each day the counts of its latest
/// commit.
#[derive(Clone, Debug, PartialEq, Eq)]
pub struct StatDailyContribute {
    pub commit_count: i32,
    pub data_list: Vec<String>,
    pub insertion: Vec<i32>,
    pub deletions: Vec<i32>,
    pub change_files: Vec<i32>,
}

/// The mathematical value of a [`StatDailyContribute`].
pub struct StatDailyContributeView {
    pub commit_count: int,
    pub data_list: Seq<Seq<char>>,
    pub insertion: Seq<i32>,
    pub deletions: Seq<i32>,
    pub change_files: Seq<i32>,
}

impl View for StatDailyContribute {
    type V = StatDailyContributeView;

    open spec fn view(&self) -> StatDailyContributeView {
        StatDailyContributeView {
            commit_count: self.commit_count as int,
            data_list: views(self.data_list@),
            insertion: self.insertion@,
            deletions: self.deletions@,
            change_files: self.change_files@,
        }
    }
}

/// The contributions of one author.
#[derive(Clone, Debug, PartialEq, Eq)]
pub struct AuthorStatDailyContribute {
    pub author: Author,
    pub stat: StatDailyContribute,
}

/// The mathematical value of an [`AuthorStatDailyContribute`].
pub struct AuthorStatDailyContributeView {
    pub author: AuthorView,
    pub stat: StatDailyContributeView,
}

impl View for AuthorStatDailyContribute {
    type V = AuthorStatDailyContributeView;

    open spec fn view(&self) -> AuthorStatDailyContributeView {
        AuthorStatDailyContributeView { author: self.author@, stat: self.stat@ }
    }
}

/// The contributions to a branch: all of them, and author by author.
#[derive(Clone, Debug, PartialEq, Eq)]
pub struct BranchStatDailyContribute {
    pub branch: String,
    pub total_stat: StatDailyContribute,
    pub authors_stat: Vec<AuthorStatDailyContribute>,
}

/// The mathematical value of a [`BranchStatDailyContribute`].
pub struct BranchStatDailyContributeView {
    pub branch: Seq<char>,
    pub total_stat: StatDailyContributeView,
    pub authors_stat: Seq<AuthorStatDailyContributeView>,
}

impl View for BranchStatDailyContribute {
    type V = BranchStatDailyContributeView;

    open spec fn view(&self) -> BranchStatDailyContributeView {
        BranchStatDailyContributeView {
            branch: self.branch@,
            total_stat: self.total_stat@,
            authors_stat: views(self.authors_stat@),
        }
    }
}

/// A node of the file tree: a file, or a directory with its entries.
#[derive(Debug, PartialEq, Eq)]
pub struct RepoFileInfo {
    pub name: String,
    pub dir: String,
    pub object_mode: String,
    pub object_type: String,
    pub object_name: String,
    pub object_size: String,
    pub is_dir: bool,
    pub children: Vec<RepoFileInfo>,
}

/// The mathematical value of a [`RepoFileInfo`].
pub struct RepoFileInfoView {
    pub name: Seq<char>,
    pub dir: Seq<char>,
    pub object_mode: Seq<char>,
    pub object_type: Seq<char>,
    pub object_name: Seq<char>,
    pub object_size: Seq<char>,
    pub is_dir: bool,
    pub children: Seq<RepoFileInfoView>,
}

impl RepoFileInfo {
    /// The mathematical value of the node and of all below it.
    pub open spec fn model(self) -> RepoFileInfoView
        decreases self,
    {
        RepoFileInfoView {
            name: self.name@,
            dir: self.dir@,
            object_mode: self.object_mode@,
            object_type: self.object_type@,
            object_name: self.object_name@,
            object_size: self.object_size@,
            is_dir: self.is_dir,
            children: Seq::new(
                self.children@.len(),
                |i: int|
                    if 0 <= i < self.children@.len() {
                        self.children@[i].model()
                    } else {
                        arbitrary()
                    },
            ),
        }
    }
}

impl View for RepoFileInfo {
    type V = RepoFileInfoView;

    open spec fn view(&self) -> RepoFileInfoView {
        self.model()
    }
}

/// The entries of a node, seen from the node and seen from its vector, are
/// the same.
pub proof fn lemma_children_view(node: RepoFileInfo)
    ensures
        node@.children == views(node.children@),
{
}

/// What happened to a file between two commits.
#[derive(Clone, Copy, Debug, PartialEq, Eq, Structural)]
pub enum FileStatusType {
    Added,
    Deleted,
    Modified,
    Renamed,
    Copied,
    Updated,
    Unknown,
}

/// The name of a status.
pub open spec fn status_name(status: FileStatusType) -> Seq<char> {
    match status {
        FileStatusType::Added => "Added"@,
        FileStatusType::Deleted => "Deleted"@,
        FileStatusType::Modified => "Modified"@,
        FileStatusType::Renamed => "Renamed"@,
        FileStatusType::Copied => "Copied"@,
        FileStatusType::Updated => "Updated"@,
        FileStatusType::Unknown => "Unknown"@,
    }
}

impl FileStatusType {
    /// The name of the status.
    pub fn describe(&self) -> (text: String)
        ensures
            text@ == status_name(*self),
    {
        match self {
            FileStatusType::Added => String::from_str("Added"),
            FileStatusType::Deleted => String::from_str("Deleted"),
            FileStatusType::Modified => String::from_str("Modified"),
            FileStatusType::Renamed => String::from_str("Renamed"),
            FileStatusType::Copied => String::from_str("Copied"),
            FileStatusType::Updated => String::from_str("Updated"),
            FileStatusType::Unknown => String::from_str("Unknown"),
        }
    }
}

/// The status of one file: its path, what happened to it, and for a renamed
/// file the old and the new path as `old => new`.
#[derive(Clone, Debug, PartialEq, Eq)]
pub struct FileStatus {
    pub path: String,
    pub status: FileStatusType,
    pub message: String,
}

/// The mathematical value of a [`FileStatus`].
pub struct FileStatusView {
    pub path: Seq<char>,
    pub status: FileStatusType,
    pub message: Seq<char>,
}

impl View for FileStatus {
    type V = FileStatusView;

    open spec fn view(&self) -> FileStatusView {
        FileStatusView { path: self.path@, status: self.status, message: self.message@ }
    }
}

/// A commit and the status of each file it touched.
#[derive(Clone, Debug, PartialEq, Eq)]
pub struct FileStatusReport {
    pub title: String,
    pub hash: String,
    pub time: String,
    pub author: Author,
    pub status: Vec<FileStatus>,
}

/// The mathematical value of a [`FileStatusReport`].
pub struct FileStatusReportView {
    pub title: Seq<char>,
    pub hash: Seq<char>,
    pub time: Seq<char>,
    pub author: AuthorView,
    pub status: Seq<FileStatusView>,
}

impl View for FileStatusReport {
    type V = FileStatusReportView;

    open spec fn view(&self) -> FileStatusReportView {
        FileStatusReportView {
            title: self.title@,
            hash: self.hash@,
            time: self.time@,
            author: self.author@,
            status: views(self.status@),
        }
    }
}

/// Lines added and lines deleted.
#[derive(Clone, Copy, Debug, PartialEq, Eq, Structural)]
pub struct FileLineChangeStat {
    pub addition: i32,
    pub deletion: i32,
}

/// The text that describes the counts of a change.
pub open spec fn change_stat_text(stat: FileLineChangeStat) -> Seq<char> {
    "Addition: "@ + number_text(stat.addition as int) + ", Deletion: "@ + number_text(
        stat.deletion as int,
    )
}

impl FileLineChangeStat {
    /// The text that describes the counts.
    pub fn describe(&self) -> (text: String)
        ensures
            text@ == change_stat_text(*self),
    {
        let mut text = String::from_str("Addition: ");
        text.append(number_to_text(self.addition).as_str());
        text.append(", Deletion: ");
        text.append(number_to_text(self.deletion).as_str());
        text
    }
}

/// One file in two commits: both contents, how the file changed and by how
/// many lines.
#[derive(Clone, Debug, PartialEq, Eq)]
pub struct FileDiffContext {
    pub commit_hash1: String,
    pub commit_hash2: String,
    pub file_path: String,
    pub change_stat: FileLineChangeStat,
    pub context1: String,
    pub context2: String,
    pub file_status: FileStatusType,
}

/// The mathematical value of a [`FileDiffContext`].
pub struct FileDiffContextView {
    pub commit_hash1: Seq<char>,
    pub commit_hash2: Seq<char>,
    pub file_path: Seq<char>,
    pub change_stat: FileLineChangeStat,
    pub context1: Seq<char>,
    pub context2: Seq<char>,
    pub file_status: FileStatusType,
}

impl View for FileDiffContext {
    type V = FileDiffContextView;

    open spec fn view(&self) -> FileDiffContextView {
        FileDiffContextView {
            commit_hash1: self.commit_hash1@,
            commit_hash2: self.commit_hash2@,
            file_path: self.file_path@,
            change_stat: self.change_stat,
            context1: self.context1@,
            context2: self.context2@,
            file_status: self.file_status,
        }
    }
}

} // verus!
