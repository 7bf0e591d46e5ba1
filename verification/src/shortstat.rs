//! The summary line of a diff: `3 files changed, 10 insertions(+), 4 deletions(-)`.
//!
//! The count of files is owed; the counts of insertions and of deletions
//! may each be missing, and stand in either order. The line may stand
//! anywhere in the text: the first place that reads as a count of files is
//! taken.

use vstd::prelude::*;

use crate::err::{CustomerGitError, CustomerGitErrorView, GitErrorKind};
use crate::structs::FileLineChangeStat;
use crate::text::{decimal_of, is_digit, matches_at, occurs_at, parse_decimal, to_chars};

verus! {

/// A count and the word after it, as found in a text: the digits of the
/// count, and the index behind the word.
pub struct Clause {
    pub digits: Seq<char>,
    pub end: int,
}

/// The index behind the run of digits that starts at `i`; `i` itself where
/// no digit stands there.
pub open spec fn digits_end(s: Seq<char>, i: int) -> int
    decreases s.len() - i,
{
    if 0 <= i < s.len() && is_digit(s[i]) {
        digits_end(s, i + 1)
    } else {
        i
    }
}

/// The index behind a word that stands at `i`: `singular`, then an `s` or
/// none, then `suffix`.
pub open spec fn word_end(s: Seq<char>, i: int, singular: Seq<char>, suffix: Seq<char>) -> Option<
    int,
> {
    let j = i + singular.len();
    if occurs_at(s, singular, i) {
        if occurs_at(s, seq!['s'], j) && occurs_at(s, suffix, j + 1) {
            Some(j + 1 + suffix.len())
        } else if occurs_at(s, suffix, j) {
            Some(j + suffix.len())
        } else {
            None
        }
    } else {
        None
    }
}

/// The clause that stands at `i`: one digit or more, then the word.
pub open spec fn counted_at(s: Seq<char>, i: int, singular: Seq<char>, suffix: Seq<char>) -> Option<
    Clause,
> {
    let e = digits_end(s, i);
    if e > i {
        match word_end(s, e, singular, suffix) {
            Some(end) => Some(Clause { digits: s.subrange(i, e), end }),
            None => None,
        }
    } else {
        None
    }
}

/// The count of files that stands at `i`: `<N> file changed` or
/// `<N> files changed`.
pub open spec fn head_at(s: Seq<char>, i: int) -> Option<Clause> {
    counted_at(s, i, " file"@, " changed"@)
}

/// The count of insertions that stands at `i`: `, <M> insertion(+)` or
/// `, <M> insertions(+)`.
pub open spec fn insertions_at(s: Seq<char>, i: int) -> Option<Clause> {
    if occurs_at(s, ", "@, i) {
        counted_at(s, i + 2, " insertion"@, "(+)"@)
    } else {
        None
    }
}

/// The count of deletions that stands at `i`: `, <K> deletion(-)` or
/// `, <K> deletions(-)`.
pub open spec fn deletions_at(s: Seq<char>, i: int) -> Option<Clause> {
    if occurs_at(s, ", "@, i) {
        counted_at(s, i + 2, " deletion"@, "(-)"@)
    } else {
        None
    }
}

/// Whether a count of files stands somewhere in `s`.
pub open spec fn has_head(s: Seq<char>) -> bool {
    exists|i: int| (#[trigger] head_at(s, i)) is Some
}

/// Whether `i` is the first index at which a count of files stands.
pub open spec fn is_first_head(s: Seq<char>, i: int) -> bool {
    head_at(s, i) is Some && forall|j: int| 0 <= j < i ==> (#[trigger] head_at(s, j)) is None
}

/// The first index at which a count of files stands, where there is one.
pub open spec fn first_head(s: Seq<char>) -> int {
    choose|i: int| is_first_head(s, i)
}

/// The number of a clause that may be missing: 0 for a missing one, and
/// nothing where the digits stand for more than an `i32` holds.
pub open spec fn count_of(clause: Option<Clause>) -> Option<i32> {
    match clause {
        Some(c) => decimal_of(c.digits),
        None => Some(0),
    }
}

/// The clauses of insertions and of deletions that follow index `end`, in
/// whichever order they stand there.
pub open spec fn tail_at(s: Seq<char>, end: int) -> (Option<Clause>, Option<Clause>) {
    let insertions = insertions_at(s, end);
    let deletions = deletions_at(s, end);
    if insertions is Some {
        (insertions, deletions_at(s, insertions->0.end))
    } else if deletions is Some {
        (insertions_at(s, deletions->0.end), deletions)
    } else {
        (None, None)
    }
}

/// The counts of files changed, of insertions and of deletions that `s`
/// gives, or nothing where `s` holds no count of files or a count is too
/// large.
pub open spec fn shortstat_of(s: Seq<char>) -> Option<(i32, i32, i32)> {
    if has_head(s) {
        let head = head_at(s, first_head(s))->0;
        let tail = tail_at(s, head.end);
        match (decimal_of(head.digits), count_of(tail.0), count_of(tail.1)) {
            (Some(changes), Some(insertions), Some(deletions)) => Some(
                (changes, insertions, deletions),
            ),
            _ => None,
        }
    } else {
        None
    }
}

/// A first count of files is the first count of files.
pub proof fn lemma_first_head(s: Seq<char>, i: int)
    requires
        is_first_head(s, i),
    ensures
        has_head(s),
        first_head(s) == i,
{
}

/// Looks for the end of the run of digits that starts at `i`.
fn scan_digits(s: &[char], i: usize) -> (e: usize)
    requires
        i <= s.len(),
    ensures
        e == digits_end(s@, i as int),
        i <= e <= s.len(),
{
    let mut e: usize = i;
    while e < s.len() && '0' <= s[e] && s[e] <= '9'
        invariant
            i <= e <= s.len(),
            digits_end(s@, i as int) == digits_end(s@, e as int),
        decreases s.len() - e,
    {
        e += 1;
    }
    e
}

/// Looks for the end of the word that stands at `i`.
fn scan_word(s: &[char], i: usize, singular: &str, suffix: &str) -> (r: Option<usize>)
    requires
        i <= s.len(),
    ensures
        match r {
            Some(end) => word_end(s@, i as int, singular@, suffix@) == Some(end as int) && end
                <= s.len(),
            None => word_end(s@, i as int, singular@, suffix@) is None,
        },
{
    let word = to_chars(singular);
    let rest = to_chars(suffix);
    let mut plural: Vec<char> = Vec::new();
    plural.push('s');
    if !matches_at(s, word.as_slice(), i) {
        return None;
    }
    let j: usize = i + word.len();
    if matches_at(s, plural.as_slice(), j) && matches_at(s, rest.as_slice(), j + 1) {
        Some(j + 1 + rest.len())
    } else if matches_at(s, rest.as_slice(), j) {
        Some(j + rest.len())
    } else {
        None
    }
}

/// Reads the clause that stands at `i`: the index behind its digits and the
/// index behind its word.
fn scan_counted(s: &[char], i: usize, singular: &str, suffix: &str) -> (r: Option<(usize, usize)>)
    requires
        i <= s.len(),
    ensures
        match r {
            Some((e, end)) => {
                &&& i < e <= end <= s.len()
                &&& counted_at(s@, i as int, singular@, suffix@) == Some(
                    Clause { digits: s@.subrange(i as int, e as int), end: end as int },
                )
            },
            None => counted_at(s@, i as int, singular@, suffix@) is None,
        },
{
    let e = scan_digits(s, i);
    if e > i {
        match scan_word(s, e, singular, suffix) {
            Some(end) => Some((e, end)),
            None => None,
        }
    } else {
        None
    }
}

/// Reads the clause that stands at `i` behind a comma and a space, and
/// gives its number and the index behind it.
fn scan_tail(s: &[char], i: usize, singular: &str, suffix: &str) -> (r: Option<
    (Option<i32>, usize),
>)
    requires
        i <= s.len(),
    ensures
        match r {
            Some((count, end)) => {
                let clause = counted_at(s@, i + 2, singular@, suffix@);
                &&& occurs_at(s@, ", "@, i as int)
                &&& clause is Some
                &&& clause->0.end == end
                &&& count == decimal_of(clause->0.digits)
                &&& end <= s.len()
            },
            None => !occurs_at(s@, ", "@, i as int) || counted_at(
                s@,
                i + 2,
                singular@,
                suffix@,
            ) is None,
        },
{
    let comma = to_chars(", ");
    proof {
        reveal_strlit(", ");
    }
    if !matches_at(s, comma.as_slice(), i) {
        return None;
    }
    match scan_counted(s, i + 2, singular, suffix) {
        Some((e, end)) => {
            let count = parse_decimal(vstd::slice::slice_subrange(s, i + 2, e));
            Some((count, end))
        },
        None => None,
    }
}

/// The error of a text that holds no summary line.
pub open spec fn no_match_error() -> CustomerGitErrorView {
    CustomerGitErrorView {
        kind: GitErrorKind::Parse,
        path: Seq::empty(),
        message: "No match found!"@,
        inner_error: None,
    }
}

/// Reads the counts of files changed, of insertions and of deletions from
/// a summary line.
///
/// The first place in `status` that reads `<N> file changed` or
/// `<N> files changed` is taken. Behind it `, <M> insertion(s)(+)` and
/// `, <K> deletion(s)(-)` may follow, each once and in either order; a
/// missing one counts 0. Fails where `status` holds no count of files, or
/// a count that an `i32` cannot hold.
pub fn log_shortstat_parse(status: &str) -> (r: Result<(i32, i32, i32), CustomerGitError>)
    ensures
        match r {
            Ok(counts) => shortstat_of(status@) == Some(counts),
            Err(e) => shortstat_of(status@) is None && e@ == no_match_error(),
        },
{
    let chars = to_chars(status);
    let s = chars.as_slice();
    let mut i: usize = 0;
    let mut head: Option<(usize, usize)> = None;
    while i < s.len()
        invariant_except_break
            i <= s.len(),
            head is None,
            forall|j: int| 0 <= j < i ==> (#[trigger] head_at(s@, j)) is None,
        ensures
            i <= s.len(),
            match head {
                Some((e, end)) => {
                    &&& is_first_head(s@, i as int)
                    &&& i < e <= end <= s.len()
                    &&& head_at(s@, i as int) == Some(
                        Clause { digits: s@.subrange(i as int, e as int), end: end as int },
                    )
                },
                None => forall|j: int| 0 <= j < s.len() ==> (#[trigger] head_at(s@, j)) is None,
            },
        decreases s.len() - i,
    {
        let found = scan_counted(s, i, " file", " changed");
        if found.is_some() {
            head = found;
            break ;
        }
        i += 1;
    }
    let (e, end) = match head {
        Some(found) => found,
        None => {
            return Err(CustomerGitError::parse("No match found!"));
        },
    };
    proof {
        lemma_first_head(s@, i as int);
    }
    let changes = parse_decimal(vstd::slice::slice_subrange(s, i, e));
    let mut insertions: Option<i32> = Some(0);
    let mut deletions: Option<i32> = Some(0);
    match scan_tail(s, end, " insertion", "(+)") {
        Some((count, next)) => {
            insertions = count;
            match scan_tail(s, next, " deletion", "(-)") {
                Some((count, _)) => {
                    deletions = count;
                },
                None => {},
            }
        },
        None => {
            match scan_tail(s, end, " deletion", "(-)") {
                Some((count, next)) => {
                    deletions = count;
                    match scan_tail(s, next, " insertion", "(+)") {
                        Some((count, _)) => {
                            insertions = count;
                        },
                        None => {},
                    }
                },
                None => {},
            }
        },
    }
    match (changes, insertions, deletions) {
        (Some(changes), Some(insertions), Some(deletions)) => Ok((changes, insertions, deletions)),
        _ => Err(CustomerGitError::parse("No match found!")),
    }
}

/// The error of a summary line that could not be read.
pub open spec fn shortstat_error() -> CustomerGitErrorView {
    CustomerGitErrorView {
        kind: GitErrorKind::Parse,
        path: Seq::empty(),
        message: "Failed to parse git diff shortstat"@,
        inner_error: None,
    }
}

/// Reads the lines added and deleted from the summary of a diff.
pub fn parse_line_change_stat(stdout: &str) -> (r: Result<FileLineChangeStat, CustomerGitError>)
    ensures
        match r {
            Ok(stat) => match shortstat_of(stdout@) {
                Some((_, insertions, deletions)) => stat == (FileLineChangeStat {
                    addition: insertions,
                    deletion: deletions,
                }),
                None => false,
            },
            Err(e) => shortstat_of(stdout@) is None && e@ == shortstat_error(),
        },
{
    match log_shortstat_parse(stdout) {
        Ok((_, addition, deletion)) => Ok(FileLineChangeStat { addition, deletion }),
        Err(_) => Err(CustomerGitError::parse("Failed to parse git diff shortstat")),
    }
}

} // verus!
