//! Contributions by day: a fold over the commits of a branch, oldest
//! first, into one series for the branch and one for each author.
//!
//! Two commits of one day leave one entry for the day, with the counts of
//! the later commit: the later commit overwrites, nothing is summed. The
//! number of commits counts every commit. Authors are told apart by name
//! alone: a second email under a known name is counted with the first.

use vstd::prelude::*;
use vstd::string::StringExecFns;

use crate::delimiter::{COMMIT_INETRVAL, PARAM_INTERVAL};
use crate::err::{CustomerGitError, GitErrorKind};
use crate::shortstat::{log_shortstat_parse, shortstat_of};
use crate::structs::{
    Author, AuthorStatDailyContribute, AuthorStatDailyContributeView, AuthorView,
    BranchStatDailyContribute, BranchStatDailyContributeView, StatDailyContribute,
    StatDailyContributeView,
};
use crate::text::{
    drop_trailing, lemma_views_push, skip_trailing, split, split_on, to_chars, to_text, to_texts,
    trim, trimmed, views, CharClass,
};

verus! {

/// One commit as the fold sees it.
pub struct Observation {
    pub name: Seq<char>,
    pub email: Seq<char>,
    pub date: Seq<char>,
    pub changes: i32,
    pub insertions: i32,
    pub deletions: i32,
}

/// The series without a commit.
pub open spec fn empty_stat() -> StatDailyContributeView {
    StatDailyContributeView {
        commit_count: 0,
        data_list: Seq::empty(),
        insertion: Seq::empty(),
        deletions: Seq::empty(),
        change_files: Seq::empty(),
    }
}

/// Whether the series holds one count of each kind for each day, no day
/// twice in a row, and a number of commits that is not negative.
pub open spec fn stat_wf(stat: StatDailyContributeView) -> bool {
    &&& stat.commit_count >= 0
    &&& stat.insertion.len() == stat.data_list.len()
    &&& stat.deletions.len() == stat.data_list.len()
    &&& stat.change_files.len() == stat.data_list.len()
    &&& forall|i: int|
        0 <= i < stat.data_list.len() - 1 ==> #[trigger] stat.data_list[i] != stat.data_list[i + 1]
}

/// The series after one more commit. A commit of the day that was recorded
/// last overwrites the counts of that day; a commit of another day adds a
/// day.
pub open spec fn stat_with(
    stat: StatDailyContributeView,
    date: Seq<char>,
    changes: i32,
    insertions: i32,
    deletions: i32,
) -> StatDailyContributeView {
    let last = stat.data_list.len() - 1;
    if stat.data_list.len() > 0 && stat.data_list[last] == date {
        StatDailyContributeView {
            commit_count: stat.commit_count + 1,
            data_list: stat.data_list,
            insertion: stat.insertion.update(last, insertions),
            deletions: stat.deletions.update(last, deletions),
            change_files: stat.change_files.update(last, changes),
        }
    } else {
        StatDailyContributeView {
            commit_count: stat.commit_count + 1,
            data_list: stat.data_list.push(date),
            insertion: stat.insertion.push(insertions),
            deletions: stat.deletions.push(deletions),
            change_files: stat.change_files.push(changes),
        }
    }
}

/// Whether the entry at index `k` is that of the author called `name`.
pub open spec fn is_author_at(
    authors: Seq<AuthorStatDailyContributeView>,
    name: Seq<char>,
    k: int,
) -> bool {
    0 <= k < authors.len() && authors[k].author.name == name
}

/// Whether an author called `name` has an entry.
pub open spec fn has_author(authors: Seq<AuthorStatDailyContributeView>, name: Seq<char>) -> bool {
    exists|k: int| is_author_at(authors, name, k)
}

/// The index of the entry of the author called `name`, where there is one.
pub open spec fn author_index(authors: Seq<AuthorStatDailyContributeView>, name: Seq<char>) -> int {
    choose|k: int| is_author_at(authors, name, k)
}

/// The entries of the authors after one more commit: the entry of the
/// commit's author takes the commit, and an author met for the first time
/// gets an entry behind the others.
pub open spec fn authors_with(
    authors: Seq<AuthorStatDailyContributeView>,
    seen: Observation,
) -> Seq<AuthorStatDailyContributeView> {
    if has_author(authors, seen.name) {
        let k = author_index(authors, seen.name);
        authors.update(
            k,
            AuthorStatDailyContributeView {
                author: authors[k].author,
                stat: stat_with(
                    authors[k].stat,
                    seen.date,
                    seen.changes,
                    seen.insertions,
                    seen.deletions,
                ),
            },
        )
    } else {
        authors.push(
            AuthorStatDailyContributeView {
                author: AuthorView { name: seen.name, email: seen.email },
                stat: stat_with(
                    empty_stat(),
                    seen.date,
                    seen.changes,
                    seen.insertions,
                    seen.deletions,
                ),
            },
        )
    }
}

/// The contributions to a branch after one more commit. The series of the
/// branch goes by its own last day, not by that of the author.
pub open spec fn recorded(
    stat: BranchStatDailyContributeView,
    seen: Observation,
) -> BranchStatDailyContributeView {
    BranchStatDailyContributeView {
        branch: stat.branch,
        total_stat: stat_with(
            stat.total_stat,
            seen.date,
            seen.changes,
            seen.insertions,
            seen.deletions,
        ),
        authors_stat: authors_with(stat.authors_stat, seen),
    }
}

/// Whether the contributions to a branch are sound: every series is, each
/// author has one entry with a day or more, and no author has more commits
/// than the branch.
pub open spec fn branch_wf(stat: BranchStatDailyContributeView) -> bool {
    &&& stat_wf(stat.total_stat)
    &&& forall|k: int|
        0 <= k < stat.authors_stat.len() ==> {
            &&& stat_wf((#[trigger] stat.authors_stat[k]).stat)
            &&& stat.authors_stat[k].stat.data_list.len() >= 1
            &&& stat.authors_stat[k].stat.commit_count <= stat.total_stat.commit_count
        }
    &&& forall|j: int, k: int|
        0 <= j < k < stat.authors_stat.len() ==> (#[trigger] stat.authors_stat[j]).author.name != (
        #[trigger] stat.authors_stat[k]).author.name
}

/// The contributions to `branch` before the first commit.
pub open spec fn empty_branch_stat(branch: Seq<char>) -> BranchStatDailyContributeView {
    BranchStatDailyContributeView {
        branch,
        total_stat: empty_stat(),
        authors_stat: Seq::empty(),
    }
}

/// One more commit keeps a sound series sound.
pub proof fn lemma_stat_with_wf(
    stat: StatDailyContributeView,
    date: Seq<char>,
    changes: i32,
    insertions: i32,
    deletions: i32,
)
    requires
        stat_wf(stat),
    ensures
        stat_wf(stat_with(stat, date, changes, insertions, deletions)),
        stat_with(stat, date, changes, insertions, deletions).data_list.len() >= 1,
{
}

/// One more commit keeps sound contributions sound.
pub proof fn lemma_recorded_wf(stat: BranchStatDailyContributeView, seen: Observation)
    requires
        branch_wf(stat),
    ensures
        branch_wf(recorded(stat, seen)),
{
    let after = recorded(stat, seen);
    lemma_stat_with_wf(stat.total_stat, seen.date, seen.changes, seen.insertions, seen.deletions);
    if has_author(stat.authors_stat, seen.name) {
        let k = author_index(stat.authors_stat, seen.name);
        lemma_stat_with_wf(
            stat.authors_stat[k].stat,
            seen.date,
            seen.changes,
            seen.insertions,
            seen.deletions,
        );
        assert forall|j: int| 0 <= j < after.authors_stat.len() implies {
            &&& stat_wf((#[trigger] after.authors_stat[j]).stat)
            &&& after.authors_stat[j].stat.data_list.len() >= 1
            &&& after.authors_stat[j].stat.commit_count <= after.total_stat.commit_count
        } by {}
        assert forall|i: int, j: int| 0 <= i < j < after.authors_stat.len() implies (
        #[trigger] after.authors_stat[i]).author.name != (
        #[trigger] after.authors_stat[j]).author.name by {}
    } else {
        lemma_stat_with_wf(empty_stat(), seen.date, seen.changes, seen.insertions, seen.deletions);
        assert forall|j: int| 0 <= j < after.authors_stat.len() implies {
            &&& stat_wf((#[trigger] after.authors_stat[j]).stat)
            &&& after.authors_stat[j].stat.data_list.len() >= 1
            &&& after.authors_stat[j].stat.commit_count <= after.total_stat.commit_count
        } by {}
        assert forall|i: int, j: int| 0 <= i < j < after.authors_stat.len() implies (
        #[trigger] after.authors_stat[i]).author.name != (
        #[trigger] after.authors_stat[j]).author.name by {
            if j >= stat.authors_stat.len() {
                assert(!is_author_at(stat.authors_stat, seen.name, i));
            }
        }
    }
}

/// Two commits of one author on one day leave one entry for the day in the
/// author's series, with the counts of the second commit, and count as two
/// commits, for the author and for the branch.
pub proof fn lemma_same_day_commits(
    stat: BranchStatDailyContributeView,
    first: Observation,
    second: Observation,
)
    requires
        branch_wf(stat),
        first.name == second.name,
        first.date == second.date,
    ensures
        ({
            let once = recorded(stat, first);
            let twice = recorded(once, second);
            let k = author_index(once.authors_stat, first.name);
            let days = once.authors_stat[k].stat.data_list;
            &&& is_author_at(once.authors_stat, first.name, k)
            &&& twice.authors_stat.len() == once.authors_stat.len()
            &&& twice.authors_stat[k].author == once.authors_stat[k].author
            &&& twice.authors_stat[k].stat.data_list == days
            &&& days.last() == first.date
            &&& twice.authors_stat[k].stat.change_files.last() == second.changes
            &&& twice.authors_stat[k].stat.insertion.last() == second.insertions
            &&& twice.authors_stat[k].stat.deletions.last() == second.deletions
            &&& twice.authors_stat[k].stat.commit_count == once.authors_stat[k].stat.commit_count
                + 1
            &&& twice.total_stat.data_list == once.total_stat.data_list
            &&& twice.total_stat.commit_count == stat.total_stat.commit_count + 2
        }),
{
    let once = recorded(stat, first);
    lemma_recorded_wf(stat, first);
    if has_author(stat.authors_stat, first.name) {
        let j = author_index(stat.authors_stat, first.name);
        assert(is_author_at(once.authors_stat, first.name, j));
    } else {
        assert(is_author_at(once.authors_stat, first.name, stat.authors_stat.len() as int));
    }
}

impl StatDailyContribute {
    /// The series without a commit.
    pub fn new() -> (stat: StatDailyContribute)
        ensures
            stat@ == empty_stat(),
            stat_wf(stat@),
    {
        let stat = StatDailyContribute {
            commit_count: 0,
            data_list: Vec::new(),
            insertion: Vec::new(),
            deletions: Vec::new(),
            change_files: Vec::new(),
        };
        assert(stat@.data_list =~= Seq::<Seq<char>>::empty());
        stat
    }

    /// Takes one more commit into the series.
    pub fn record(&mut self, date: &str, changes: i32, insertions: i32, deletions: i32)
        requires
            stat_wf(old(self)@),
            old(self).commit_count < i32::MAX,
        ensures
            final(self)@ == stat_with(old(self)@, date@, changes, insertions, deletions),
            stat_wf(final(self)@),
    {
        let day = String::from_str(date);
        let len = self.data_list.len();
        let ghost before = self.data_list@;
        self.commit_count = self.commit_count + 1;
        if len > 0 && self.data_list[len - 1] == day {
            self.change_files.set(len - 1, changes);
            self.insertion.set(len - 1, insertions);
            self.deletions.set(len - 1, deletions);
        } else {
            self.data_list.push(day);
            self.insertion.push(insertions);
            self.deletions.push(deletions);
            self.change_files.push(changes);
            proof {
                lemma_views_push(before, day);
            }
        }
        proof {
            lemma_stat_with_wf(old(self)@, date@, changes, insertions, deletions);
        }
    }
}

impl BranchStatDailyContribute {
    /// The contributions to `branch` before the first commit.
    pub fn new(branch: &str) -> (stat: BranchStatDailyContribute)
        ensures
            stat@ == empty_branch_stat(branch@),
            branch_wf(stat@),
    {
        let stat = BranchStatDailyContribute {
            branch: String::from_str(branch),
            total_stat: StatDailyContribute::new(),
            authors_stat: Vec::new(),
        };
        assert(stat@.authors_stat =~= Seq::<AuthorStatDailyContributeView>::empty());
        stat
    }

    /// Looks for the entry of the author called `name`.
    fn find_author(&self, name: &String) -> (r: Option<usize>)
        ensures
            match r {
                Some(k) => is_author_at(self@.authors_stat, name@, k as int),
                None => !has_author(self@.authors_stat, name@),
            },
    {
        let mut k: usize = 0;
        while k < self.authors_stat.len()
            invariant
                k <= self.authors_stat.len(),
                forall|j: int| 0 <= j < k ==> !is_author_at(self@.authors_stat, name@, j),
            decreases self.authors_stat.len() - k,
        {
            if self.authors_stat[k].author.name == *name {
                return Some(k);
            }
            k += 1;
        }
        None
    }

    /// Takes one more commit into the contributions: into the series of
    /// the branch, and into that of the author called `name`.
    pub fn add_commit(
        &mut self,
        name: &str,
        email: &str,
        date: &str,
        changes: i32,
        insertions: i32,
        deletions: i32,
    )
        requires
            branch_wf(old(self)@),
            old(self).total_stat.commit_count < i32::MAX,
        ensures
            final(self)@ == recorded(
                old(self)@,
                Observation {
                    name: name@,
                    email: email@,
                    date: date@,
                    changes,
                    insertions,
                    deletions,
                },
            ),
            branch_wf(final(self)@),
    {
        let ghost before = self@;
        let ghost seen = Observation {
            name: name@,
            email: email@,
            date: date@,
            changes,
            insertions,
            deletions,
        };
        let ghost entries = self.authors_stat@;
        let who = String::from_str(name);
        match self.find_author(&who) {
            Some(k) => {
                self.authors_stat[k].stat.record(date, changes, insertions, deletions);
                assert(views(self.authors_stat@) =~= authors_with(before.authors_stat, seen));
            },
            None => {
                let mut stat = StatDailyContribute::new();
                stat.record(date, changes, insertions, deletions);
                let entry = AuthorStatDailyContribute {
                    author: Author { name: who, email: String::from_str(email) },
                    stat,
                };
                self.authors_stat.push(entry);
                proof {
                    lemma_views_push(entries, entry);
                }
            },
        }
        self.total_stat.record(date, changes, insertions, deletions);
        proof {
            lemma_recorded_wf(before, seen);
        }
    }
}

/// The contributions after one more block of the log, or nothing where the
/// block cannot be read. A block holds two lines: name, email and date with
/// the field separator between them, then the summary of the changes. A
/// block of more or fewer lines is passed over. A block is not read where
/// its first line has fewer than three fields, where its summary gives no
/// counts, and where the branch has as many commits as an `i32` holds.
pub open spec fn with_block(stat: BranchStatDailyContributeView, block: Seq<char>) -> Option<
    BranchStatDailyContributeView,
> {
    let lines = split_on(drop_trailing(block, CharClass::Only('\n')), "\n"@);
    if lines.len() != 2 {
        Some(stat)
    } else {
        let who = split_on(lines[0], PARAM_INTERVAL@);
        match shortstat_of(lines[1]) {
            Some((changes, insertions, deletions)) => {
                if who.len() < 3 || stat.total_stat.commit_count >= i32::MAX {
                    None
                } else {
                    Some(
                        recorded(
                            stat,
                            Observation {
                                name: who[0],
                                email: who[1],
                                date: who[2],
                                changes,
                                insertions,
                                deletions,
                            },
                        ),
                    )
                }
            },
            None => None,
        }
    }
}

/// The contributions to `branch` that the blocks give, taken in order, or
/// nothing where one of them cannot be read.
pub open spec fn contributions_of(branch: Seq<char>, blocks: Seq<Seq<char>>) -> Option<
    BranchStatDailyContributeView,
>
    decreases blocks.len(),
{
    if blocks.len() == 0 {
        Some(empty_branch_stat(branch))
    } else {
        match contributions_of(branch, blocks.drop_last()) {
            Some(stat) => with_block(stat, blocks.last()),
            None => None,
        }
    }
}

/// The contributions to `branch` that a log gives. The log holds one block
/// for each commit, oldest first, each behind a record separator.
pub open spec fn contribute_stat_of(branch: Seq<char>, stdout: Seq<char>) -> Option<
    BranchStatDailyContributeView,
> {
    contributions_of(branch, split_on(trimmed(stdout), COMMIT_INETRVAL@))
}

/// Where the first blocks cannot be read, all of them cannot.
pub proof fn lemma_contributions_fail(branch: Seq<char>, blocks: Seq<Seq<char>>, n: int)
    requires
        0 <= n <= blocks.len(),
        contributions_of(branch, blocks.take(n)) is None,
    ensures
        contributions_of(branch, blocks) is None,
    decreases blocks.len() - n,
{
    if n == blocks.len() {
        assert(blocks.take(n) =~= blocks);
    } else {
        assert(blocks.take(n + 1).drop_last() =~= blocks.take(n));
        lemma_contributions_fail(branch, blocks, n + 1);
    }
}

/// Reads the contributions to `branch` from the log of its commits, oldest
/// first, each with author name, author email, date and a summary of its
/// changes.
pub fn parse_contribute_stat(branch: &str, stdout: &str) -> (r: Result<
    BranchStatDailyContribute,
    CustomerGitError,
>)
    ensures
        match r {
            Ok(stat) => contribute_stat_of(branch@, stdout@) == Some(stat@) && branch_wf(stat@),
            Err(e) => contribute_stat_of(branch@, stdout@) is None && e@.kind
                == GitErrorKind::Parse,
        },
{
    let chars = to_chars(stdout);
    let record_sep = to_chars(COMMIT_INETRVAL);
    let field_sep = to_chars(PARAM_INTERVAL);
    let line_sep = to_chars("\n");
    let blocks = split(trim(chars.as_slice()), record_sep.as_slice());
    let mut stat = BranchStatDailyContribute::new(branch);
    let mut n: usize = 0;
    while n < blocks.len()
        invariant
            n <= blocks.len(),
            views(blocks@) == split_on(trimmed(stdout@), COMMIT_INETRVAL@),
            field_sep@ == PARAM_INTERVAL@,
            line_sep@ == "\n"@,
            contributions_of(branch@, views(blocks@).take(n as int)) == Some(stat@),
            branch_wf(stat@),
        decreases blocks.len() - n,
    {
        proof {
            let now = views(blocks@).take(n as int + 1);
            assert(now.drop_last() =~= views(blocks@).take(n as int));
        }
        let block = skip_trailing(blocks[n].as_slice(), CharClass::Only('\n'));
        let lines = split(block, line_sep.as_slice());
        if lines.len() == 2 {
            let who = to_texts(&split(lines[0].as_slice(), field_sep.as_slice()));
            let summary = to_text(lines[1].as_slice());
            let counts = log_shortstat_parse(summary.as_str());
            match counts {
                Ok((changes, insertions, deletions)) => {
                    if who.len() < 3 || stat.total_stat.commit_count == i32::MAX {
                        proof {
                            lemma_contributions_fail(branch@, views(blocks@), n as int + 1);
                        }
                        return Err(CustomerGitError::parse("Failed to read a commit of the log"));
                    }
                    stat.add_commit(
                        who[0].as_str(),
                        who[1].as_str(),
                        who[2].as_str(),
                        changes,
                        insertions,
                        deletions,
                    );
                },
                Err(_) => {
                    proof {
                        lemma_contributions_fail(branch@, views(blocks@), n as int + 1);
                    }
                    return Err(CustomerGitError::parse("Failed to read a commit of the log"));
                },
            }
        }
        n += 1;
    }
    assert(views(blocks@).take(blocks.len() as int) =~= views(blocks@));
    Ok(stat)
}

} // verus!
