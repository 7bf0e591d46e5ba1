//! Branches, tags, remotes and authors, as `git` lists them.

use vstd::prelude::*;
use vstd::string::StringExecFns;

use crate::delimiter::PARAM_INTERVAL;
use crate::err::{CustomerGitError, GitErrorKind};
use crate::structs::{
    Author, AuthorView, Branch, BranchCreatedInfo, BranchCreatedInfoView, Remote, RemoteView,
    RepositoryFull, RepositoryFullView, RepositorySimple, RepositorySimpleView,
};
use crate::text::{
    drop_leading, drop_trailing, lemma_views_push, lines, lines_of, runs_of, skip_leading,
    skip_trailing, split, split_on, split_runs, to_chars, to_text, to_texts, trim, trimmed,
    views, CharClass,
};

verus! {

/// Whether the answer to the question for the work tree is `true`. The
/// answer is taken as it stands: white space around it makes it another.
pub fn is_inside_work_tree(stdout: &str) -> (b: bool)
    ensures
        b == (stdout@ == "true"@),
{
    String::from_str(stdout) == String::from_str("true")
}

/// Whether the short status lists nothing: all is committed.
pub fn is_clean_status(stdout: &str) -> (b: bool)
    ensures
        b == (stdout@.len() == 0),
{
    stdout.is_empty()
}

/// Whether an output holds more than white space.
pub fn has_output(stdout: &str) -> (b: bool)
    ensures
        b == (trimmed(stdout@).len() > 0),
{
    let chars = to_chars(stdout);
    trim(chars.as_slice()).len() > 0
}

/// An output without the white space around it.
pub fn trimmed_output(stdout: &str) -> (text: String)
    ensures
        text@ == trimmed(stdout@),
{
    let chars = to_chars(stdout);
    to_text(trim(chars.as_slice()))
}

/// Reads the name of the current branch: the output without the white
/// space around it. Fails where nothing is left: a name is owed.
pub fn parse_current_branch(stdout: &str) -> (r: Result<String, CustomerGitError>)
    ensures
        match r {
            Ok(name) => name@ == trimmed(stdout@) && name@.len() > 0,
            Err(e) => trimmed(stdout@).len() == 0 && e@.kind == GitErrorKind::Parse,
        },
{
    let name = trimmed_output(stdout);
    if name.as_str().is_empty() {
        Err(CustomerGitError::parse("No branch is checked out"))
    } else {
        Ok(name)
    }
}

/// Reads the remote of `branch`: the output without the white space
/// around it. Fails where nothing is left: the branch has no remote.
pub fn parse_branch_remote(branch: &str, stdout: &str) -> (r: Result<String, CustomerGitError>)
    ensures
        match r {
            Ok(remote) => remote@ == trimmed(stdout@) && remote@.len() > 0,
            Err(e) => trimmed(stdout@).len() == 0 && e@.kind == GitErrorKind::NotFound && e@.path
                == branch@,
        },
{
    let remote = trimmed_output(stdout);
    if remote.as_str().is_empty() {
        Err(CustomerGitError::not_found(branch, "The branch has no remote"))
    } else {
        Ok(remote)
    }
}

/// The name of a branch in one line of the listing: the line without the
/// stars that mark the current branch and without the white space around
/// it, up to its first space.
pub open spec fn branch_name_of(line: Seq<char>) -> Seq<char> {
    split_on(trimmed(drop_leading(line, CharClass::Only('*'))), " "@)[0]
}

/// The names of the branches that a listing gives, one for each line.
pub open spec fn branches_of(stdout: Seq<char>) -> Seq<Seq<char>> {
    Seq::new(lines_of(stdout).len(), |i: int| branch_name_of(lines_of(stdout)[i]))
}

/// Reads the names of the branches from their listing.
pub fn parse_branches(stdout: &str) -> (branches: Vec<String>)
    ensures
        views(branches@) == branches_of(stdout@),
{
    let chars = to_chars(stdout);
    let space = to_chars(" ");
    let rows = lines(chars.as_slice());
    let mut branches: Vec<String> = Vec::new();
    let mut i: usize = 0;
    while i < rows.len()
        invariant
            i <= rows.len(),
            views(rows@) == lines_of(stdout@),
            space@ == " "@,
            branches.len() == i,
            forall|k: int| 0 <= k < i ==> (#[trigger] branches@[k])@ == branch_name_of(rows@[k]@),
        decreases rows.len() - i,
    {
        let row = trim(skip_leading(rows[i].as_slice(), CharClass::Only('*')));
        let words = split(row, space.as_slice());
        branches.push(to_text(words[0].as_slice()));
        i += 1;
    }
    branches
}

/// The tags that a listing gives: its lines, without the white space around
/// the listing.
pub open spec fn tags_of(stdout: Seq<char>) -> Seq<Seq<char>> {
    split_on(trimmed(stdout), "\n"@)
}

/// Reads the tags from their listing. An empty listing gives one empty
/// tag.
pub fn parse_tags(stdout: &str) -> (tags: Vec<String>)
    ensures
        views(tags@) == tags_of(stdout@),
{
    let chars = to_chars(stdout);
    let newline = to_chars("\n");
    to_texts(&split(trim(chars.as_slice()), newline.as_slice()))
}

/// The key under which the remote of `branch` is configured.
pub open spec fn branch_remote_key_of(branch: Seq<char>) -> Seq<char> {
    "branch."@ + branch + ".remote"@
}

/// Builds the key under which the remote of `branch` is configured.
pub fn branch_remote_key(branch: &str) -> (key: String)
    ensures
        key@ == branch_remote_key_of(branch@),
{
    let mut key = String::from_str("branch.");
    key.append(branch);
    key.append(".remote");
    key
}

/// Whether the remote at index `k` is called `name`.
pub open spec fn is_remote_at(remotes: Seq<RemoteView>, name: Seq<char>, k: int) -> bool {
    0 <= k < remotes.len() && remotes[k].name == name
}

/// Whether a remote called `name` is among `remotes`.
pub open spec fn has_remote_named(remotes: Seq<RemoteView>, name: Seq<char>) -> bool {
    exists|k: int| is_remote_at(remotes, name, k)
}

/// Whether `k` is the index of the first remote called `name`.
pub open spec fn is_first_remote(remotes: Seq<RemoteView>, name: Seq<char>, k: int) -> bool {
    is_remote_at(remotes, name, k) && forall|j: int| 0 <= j < k ==> !is_remote_at(remotes, name, j)
}

/// The index of the first remote called `name`, where there is one.
pub open spec fn first_remote(remotes: Seq<RemoteView>, name: Seq<char>) -> int {
    choose|k: int| is_first_remote(remotes, name, k)
}

/// The direction that a line of the listing names: its third word without
/// the brackets around it.
pub open spec fn operation_of(word: Seq<char>) -> Seq<char> {
    drop_trailing(drop_leading(word, CharClass::Only('(')), CharClass::Only(')'))
}

/// The remotes after one more line of the listing, or nothing where the
/// line cannot be read. A line holds name, address and direction, with
/// white space between them. A line for a remote that is known adds its
/// direction to that remote, whose address stays; a line for another name
/// adds a remote behind the others. A line of white space changes nothing,
/// and a line of one or two words cannot be read.
pub open spec fn remotes_with(remotes: Seq<RemoteView>, line: Seq<char>) -> Option<
    Seq<RemoteView>,
> {
    let words = runs_of(line, CharClass::Blank);
    if words.len() == 0 {
        Some(remotes)
    } else if words.len() < 3 {
        None
    } else if has_remote_named(remotes, words[0]) {
        let k = first_remote(remotes, words[0]);
        Some(
            remotes.update(
                k,
                RemoteView {
                    operate: remotes[k].operate.push(operation_of(words[2])),
                    ..remotes[k]
                },
            ),
        )
    } else {
        Some(
            remotes.push(
                RemoteView {
                    name: words[0],
                    url: words[1],
                    operate: seq![operation_of(words[2])],
                },
            ),
        )
    }
}

/// The remotes that the lines give, taken in order, or nothing where one of
/// the lines cannot be read.
pub open spec fn remotes_from(lines: Seq<Seq<char>>) -> Option<Seq<RemoteView>>
    decreases lines.len(),
{
    if lines.len() == 0 {
        Some(Seq::empty())
    } else {
        match remotes_from(lines.drop_last()) {
            Some(remotes) => remotes_with(remotes, lines.last()),
            None => None,
        }
    }
}

/// The remotes that a listing gives, in the order in which their names
/// were first met.
pub open spec fn remotes_of(stdout: Seq<char>) -> Option<Seq<RemoteView>> {
    remotes_from(split_on(trimmed(stdout), "\n"@))
}

/// Whether no two remotes share a name.
pub open spec fn distinct_names(remotes: Seq<RemoteView>) -> bool {
    forall|j: int, k: int|
        0 <= j < k < remotes.len() ==> (#[trigger] remotes[j]).name != (#[trigger] remotes[k]).name
}

/// Where there is a remote called `name`, one of them is the first.
pub proof fn lemma_has_first_remote(remotes: Seq<RemoteView>, name: Seq<char>)
    requires
        has_remote_named(remotes, name),
    ensures
        is_first_remote(remotes, name, first_remote(remotes, name)),
{
    let k = choose|k: int| is_remote_at(remotes, name, k);
    lemma_first_remote_below(remotes, name, k);
}

proof fn lemma_first_remote_below(remotes: Seq<RemoteView>, name: Seq<char>, k: int)
    requires
        is_remote_at(remotes, name, k),
    ensures
        exists|j: int| is_first_remote(remotes, name, j),
    decreases k,
{
    if forall|j: int| 0 <= j < k ==> !is_remote_at(remotes, name, j) {
        assert(is_first_remote(remotes, name, k));
    } else {
        let j = choose|j: int| 0 <= j < k && is_remote_at(remotes, name, j);
        lemma_first_remote_below(remotes, name, j);
    }
}

/// The remotes that lines give share no name: the lines of one name are
/// merged into one remote.
pub proof fn lemma_remotes_distinct(lines: Seq<Seq<char>>)
    ensures
        match remotes_from(lines) {
            Some(remotes) => distinct_names(remotes),
            None => true,
        },
    decreases lines.len(),
{
    if lines.len() > 0 {
        lemma_remotes_distinct(lines.drop_last());
        match remotes_from(lines.drop_last()) {
            Some(before) => {
                let words = runs_of(lines.last(), CharClass::Blank);
                if words.len() >= 3 {
                    let after = remotes_with(before, lines.last())->0;
                    if has_remote_named(before, words[0]) {
                        lemma_has_first_remote(before, words[0]);
                        assert forall|j: int, k: int| 0 <= j < k < after.len() implies (
                        #[trigger] after[j]).name != (#[trigger] after[k]).name by {}
                    } else {
                        assert forall|j: int, k: int| 0 <= j < k < after.len() implies (
                        #[trigger] after[j]).name != (#[trigger] after[k]).name by {
                            if k >= before.len() {
                                assert(!is_remote_at(before, words[0], j));
                            }
                        }
                    }
                }
            },
            None => {},
        }
    }
}

/// Where the first lines cannot be read, all of them cannot.
pub proof fn lemma_remotes_fail(lines: Seq<Seq<char>>, n: int)
    requires
        0 <= n <= lines.len(),
        remotes_from(lines.take(n)) is None,
    ensures
        remotes_from(lines) is None,
    decreases lines.len() - n,
{
    if n == lines.len() {
        assert(lines.take(n) =~= lines);
    } else {
        assert(lines.take(n + 1).drop_last() =~= lines.take(n));
        lemma_remotes_fail(lines, n + 1);
    }
}

/// A first remote is the first remote.
pub proof fn lemma_first_remote(remotes: Seq<RemoteView>, name: Seq<char>, k: int)
    requires
        is_first_remote(remotes, name, k),
    ensures
        has_remote_named(remotes, name),
        first_remote(remotes, name) == k,
{
}

fn find_remote(remotes: &Vec<Remote>, name: &String) -> (r: Option<usize>)
    ensures
        match r {
            Some(k) => is_first_remote(views(remotes@), name@, k as int),
            None => !has_remote_named(views(remotes@), name@),
        },
{
    let mut k: usize = 0;
    while k < remotes.len()
        invariant
            k <= remotes.len(),
            forall|j: int| 0 <= j < k ==> !is_remote_at(views(remotes@), name@, j),
        decreases remotes.len() - k,
    {
        if remotes[k].name == *name {
            return Some(k);
        }
        k += 1;
    }
    None
}

/// Reads the remotes from their listing. Lines of one name are merged: the
/// first address stays, and the directions are kept in the order of the
/// lines.
pub fn parse_remotes(stdout: &str) -> (r: Result<Vec<Remote>, CustomerGitError>)
    ensures
        match r {
            Ok(remotes) => remotes_of(stdout@) == Some(views(remotes@)),
            Err(e) => remotes_of(stdout@) is None && e@.kind == GitErrorKind::Parse,
        },
        match r {
            Ok(remotes) => distinct_names(views(remotes@)),
            Err(_) => true,
        },
{
    proof {
        lemma_remotes_distinct(split_on(trimmed(stdout@), "\n"@));
    }
    let chars = to_chars(stdout);
    let newline = to_chars("\n");
    let rows = split(trim(chars.as_slice()), newline.as_slice());
    let mut remotes: Vec<Remote> = Vec::new();
    let mut n: usize = 0;
    while n < rows.len()
        invariant
            n <= rows.len(),
            views(rows@) == split_on(trimmed(stdout@), "\n"@),
            remotes_from(views(rows@).take(n as int)) == Some(views(remotes@)),
        decreases rows.len() - n,
    {
        proof {
            let now = views(rows@).take(n as int + 1);
            assert(now.drop_last() =~= views(rows@).take(n as int));
        }
        let words = to_texts(&split_runs(rows[n].as_slice(), CharClass::Blank));
        if words.len() >= 3 {
            let word = to_chars(words[2].as_str());
            let operate = to_text(
                skip_trailing(
                    skip_leading(word.as_slice(), CharClass::Only('(')),
                    CharClass::Only(')'),
                ),
            );
            let ghost before = remotes@;
            match find_remote(&remotes, &words[0]) {
                Some(k) => {
                    proof {
                        lemma_first_remote(views(before), words@[0]@, k as int);
                        lemma_views_push(before[k as int].operate@, operate);
                    }
                    remotes[k].operate.push(operate);
                },
                None => {
                    let mut directions: Vec<String> = Vec::new();
                    directions.push(operate);
                    assert(views(directions@) =~= seq![operate@]);
                    let remote = Remote {
                        name: words[0].clone(),
                        url: words[1].clone(),
                        operate: directions,
                    };
                    remotes.push(remote);
                },
            }
        } else if words.len() > 0 {
            proof {
                lemma_remotes_fail(views(rows@), n as int + 1);
            }
            return Err(CustomerGitError::parse("Failed to read a line of the remotes"));
        }
        n += 1;
    }
    assert(views(rows@).take(rows.len() as int) =~= views(rows@));
    Ok(remotes)
}

/// The authors after one more line of the short log, or nothing where the
/// line cannot be read. A line holds a number of commits, a name and an
/// email, with white space between them; the second word is taken as the
/// name and the third as the email. A line of white space changes nothing,
/// and a line of one or two words cannot be read.
pub open spec fn authors_with_line(authors: Seq<AuthorView>, line: Seq<char>) -> Option<
    Seq<AuthorView>,
> {
    let words = runs_of(line, CharClass::AsciiBlank);
    if words.len() == 0 {
        Some(authors)
    } else if words.len() < 3 {
        None
    } else {
        Some(authors.push(AuthorView { name: words[1], email: words[2] }))
    }
}

/// The authors that the lines give, in order, or nothing where one of the
/// lines cannot be read.
pub open spec fn authors_from(lines: Seq<Seq<char>>) -> Option<Seq<AuthorView>>
    decreases lines.len(),
{
    if lines.len() == 0 {
        Some(Seq::empty())
    } else {
        match authors_from(lines.drop_last()) {
            Some(authors) => authors_with_line(authors, lines.last()),
            None => None,
        }
    }
}

/// The authors that a short log lists, one for each line.
pub open spec fn listed_authors_of(stdout: Seq<char>) -> Option<Seq<AuthorView>> {
    authors_from(split_on(trimmed(stdout), "\n"@))
}

/// The authors without those that stood before: each author once, where it
/// was first met.
pub open spec fn distinct(authors: Seq<AuthorView>) -> Seq<AuthorView>
    decreases authors.len(),
{
    if authors.len() == 0 {
        Seq::empty()
    } else if distinct(authors.drop_last()).contains(authors.last()) {
        distinct(authors.drop_last())
    } else {
        distinct(authors.drop_last()).push(authors.last())
    }
}

/// The authors that a short log gives: those that it lists, each once, in
/// the order in which they were first met.
pub open spec fn authors_of(stdout: Seq<char>) -> Option<Seq<AuthorView>> {
    match listed_authors_of(stdout) {
        Some(authors) => Some(distinct(authors)),
        None => None,
    }
}

/// Where the first lines cannot be read, all of them cannot.
pub proof fn lemma_authors_fail(lines: Seq<Seq<char>>, n: int)
    requires
        0 <= n <= lines.len(),
        authors_from(lines.take(n)) is None,
    ensures
        authors_from(lines) is None,
    decreases lines.len() - n,
{
    if n == lines.len() {
        assert(lines.take(n) =~= lines);
    } else {
        assert(lines.take(n + 1).drop_last() =~= lines.take(n));
        lemma_authors_fail(lines, n + 1);
    }
}

/// No author stands twice among distinct authors, and every author that
/// was listed stands among them.
pub proof fn lemma_distinct(authors: Seq<AuthorView>)
    ensures
        forall|i: int, j: int|
            0 <= i < j < distinct(authors).len() ==> distinct(authors)[i] != distinct(authors)[j],
        forall|i: int| 0 <= i < authors.len() ==> distinct(authors).contains(#[trigger] authors[i]),
        forall|i: int|
            0 <= i < distinct(authors).len() ==> authors.contains(#[trigger] distinct(authors)[i]),
    decreases authors.len(),
{
    if authors.len() > 0 {
        let front = authors.drop_last();
        lemma_distinct(front);
        let kept = distinct(front);
        let all = distinct(authors);
        assert forall|i: int| 0 <= i < authors.len() implies all.contains(
            #[trigger] authors[i],
        ) by {
            if i < front.len() {
                let k = choose|k: int| 0 <= k < kept.len() && kept[k] == front[i];
                assert(all[k] == authors[i]);
            } else if !kept.contains(authors.last()) {
                assert(all[kept.len() as int] == authors[i]);
            }
        }
        assert forall|i: int| 0 <= i < all.len() implies authors.contains(#[trigger] all[i]) by {}
        assert forall|i: int, j: int| 0 <= i < j < all.len() implies all[i] != all[j] by {}
    }
}

/// Reads the lines of a short log, one author for each line, in the order
/// of the lines.
pub fn parse_shortlog_lines(stdout: &str) -> (r: Result<Vec<Author>, CustomerGitError>)
    ensures
        match r {
            Ok(authors) => listed_authors_of(stdout@) == Some(views(authors@)),
            Err(e) => listed_authors_of(stdout@) is None && e@.kind == GitErrorKind::Parse,
        },
{
    let chars = to_chars(stdout);
    let newline = to_chars("\n");
    let rows = split(trim(chars.as_slice()), newline.as_slice());
    let mut authors: Vec<Author> = Vec::new();
    let mut n: usize = 0;
    while n < rows.len()
        invariant
            n <= rows.len(),
            views(rows@) == split_on(trimmed(stdout@), "\n"@),
            authors_from(views(rows@).take(n as int)) == Some(views(authors@)),
        decreases rows.len() - n,
    {
        proof {
            let now = views(rows@).take(n as int + 1);
            assert(now.drop_last() =~= views(rows@).take(n as int));
        }
        let words = split_runs(rows[n].as_slice(), CharClass::AsciiBlank);
        if words.len() >= 3 {
            let author = Author {
                name: to_text(words[1].as_slice()),
                email: to_text(words[2].as_slice()),
            };
            proof {
                lemma_views_push(authors@, author);
            }
            authors.push(author);
        } else if words.len() > 0 {
            proof {
                lemma_authors_fail(views(rows@), n as int + 1);
            }
            return Err(CustomerGitError::parse("Failed to read a line of the short log"));
        }
        n += 1;
    }
    assert(views(rows@).take(rows.len() as int) =~= views(rows@));
    Ok(authors)
}

fn holds_author(authors: &Vec<Author>, author: &Author) -> (b: bool)
    ensures
        b == views(authors@).contains(author@),
{
    let mut k: usize = 0;
    while k < authors.len()
        invariant
            k <= authors.len(),
            forall|j: int| 0 <= j < k ==> views(authors@)[j] != author@,
        decreases authors.len() - k,
    {
        if authors[k].same_as(author) {
            assert(views(authors@)[k as int] == author@);
            return true;
        }
        k += 1;
    }
    false
}

/// Reads the authors of a branch, or of a repository, from its short log:
/// each author once, in the order in which they were first met.
pub fn parse_authors(stdout: &str) -> (r: Result<Vec<Author>, CustomerGitError>)
    ensures
        match r {
            Ok(authors) => authors_of(stdout@) == Some(views(authors@)),
            Err(e) => authors_of(stdout@) is None && e@.kind == GitErrorKind::Parse,
        },
        match r {
            Ok(authors) => forall|i: int, j: int|
                0 <= i < j < authors.len() ==> authors[i]@ != authors[j]@,
            Err(_) => true,
        },
{
    let listed = match parse_shortlog_lines(stdout) {
        Ok(listed) => listed,
        Err(e) => {
            return Err(e);
        },
    };
    let mut authors: Vec<Author> = Vec::new();
    let mut n: usize = 0;
    while n < listed.len()
        invariant
            n <= listed.len(),
            views(authors@) == distinct(views(listed@).take(n as int)),
        decreases listed.len() - n,
    {
        proof {
            let now = views(listed@).take(n as int + 1);
            assert(now.drop_last() =~= views(listed@).take(n as int));
        }
        if !holds_author(&authors, &listed[n]) {
            let author = listed[n].duplicate();
            proof {
                lemma_views_push(authors@, author);
            }
            authors.push(author);
        }
        n += 1;
    }
    assert(views(listed@).take(listed.len() as int) =~= views(listed@));
    proof {
        lemma_distinct(views(listed@));
        assert forall|i: int, j: int| 0 <= i < j < authors.len() implies authors[i]@
            != authors[j]@ by {
            assert(views(authors@)[i] == authors[i]@);
            assert(views(authors@)[j] == authors[j]@);
        }
    }
    Ok(authors)
}

/// The first commit of `branch` that an output gives by its first line:
/// author name, author email, time and hash, with the field separator
/// between them. Nothing where the line has fewer than four fields.
pub open spec fn branch_create_info_of(branch: Seq<char>, stdout: Seq<char>) -> Option<
    BranchCreatedInfoView,
> {
    let keys = split_on(split_on(trimmed(stdout), "\n"@)[0], PARAM_INTERVAL@);
    if keys.len() < 4 {
        None
    } else {
        Some(
            BranchCreatedInfoView {
                name: branch,
                time: keys[2],
                author: AuthorView { name: keys[0], email: keys[1] },
                hash: keys[3],
            },
        )
    }
}

/// Reads the first commit of `branch`: the oldest of its commits without
/// a parent, which the output lists first.
pub fn parse_branch_create_info(branch: &str, stdout: &str) -> (r: Result<
    BranchCreatedInfo,
    CustomerGitError,
>)
    ensures
        match r {
            Ok(info) => branch_create_info_of(branch@, stdout@) == Some(info@),
            Err(e) => branch_create_info_of(branch@, stdout@) is None && e@.kind
                == GitErrorKind::Parse,
        },
{
    let chars = to_chars(stdout);
    let field_sep = to_chars(PARAM_INTERVAL);
    let newline = to_chars("\n");
    let rows = split(trim(chars.as_slice()), newline.as_slice());
    let keys = split(rows[0].as_slice(), field_sep.as_slice());
    if keys.len() < 4 {
        return Err(CustomerGitError::parse("Failed to read the first commit of the branch"));
    }
    Ok(
        BranchCreatedInfo {
            name: String::from_str(branch),
            time: to_text(keys[2].as_slice()),
            author: Author {
                name: to_text(keys[0].as_slice()),
                email: to_text(keys[1].as_slice()),
            },
            hash: to_text(keys[3].as_slice()),
        },
    )
}

/// The name of a repository: the last component of its path, and the empty
/// name where the path has none.
pub open spec fn repository_name_of(basename: Option<Seq<char>>) -> Seq<char> {
    match basename {
        Some(name) => name,
        None => Seq::empty(),
    }
}

/// Puts together all that was read of the repository at `path`, whose last
/// component is `basename`.
pub fn build_repository_full(
    path: &str,
    basename: Option<String>,
    current_branch: Branch,
    branches: Vec<Branch>,
    authors: Vec<Author>,
    remote: Vec<Remote>,
) -> (repository: RepositoryFull)
    ensures
        repository@ == (RepositoryFullView {
            current_branch: current_branch@,
            branches: views(branches@),
            authors: views(authors@),
            name: repository_name_of(
                match basename {
                    Some(name) => Some(name@),
                    None => None,
                },
            ),
            remote: views(remote@),
            path: path@,
        }),
{
    let name = match basename {
        Some(name) => name,
        None => String::new(),
    };
    RepositoryFull { current_branch, branches, authors, name, remote, path: String::from_str(path) }
}

/// Puts together what was read of the repository at `path`, whose last
/// component is `basename`, in short. Fails where the path has no last
/// component.
pub fn build_repository_simple(
    path: &str,
    basename: Option<String>,
    current_branch: &str,
    branches: Vec<String>,
    authors: Vec<Author>,
    remote: Vec<Remote>,
) -> (r: Result<RepositorySimple, CustomerGitError>)
    ensures
        match r {
            Ok(repository) => basename is Some && repository@ == (RepositorySimpleView {
                name: basename->0@,
                path: path@,
                branches: views(branches@),
                current_branch: current_branch@,
                remote: views(remote@),
                authors: views(authors@),
            }),
            Err(e) => basename is None && e@.kind == GitErrorKind::NotFound && e@.path == path@,
        },
{
    match basename {
        Some(name) => Ok(
            RepositorySimple {
                name,
                path: String::from_str(path),
                branches,
                current_branch: String::from_str(current_branch),
                remote,
                authors,
            },
        ),
        None => Err(CustomerGitError::not_found(path, "The path names no repository")),
    }
}

} // verus!
