//! A summary line that is printed from counts is read back as these
//! counts.

use vstd::prelude::*;

use crate::shortstat::{
    counted_at, deletions_at, digits_end, head_at, insertions_at, is_first_head,
    lemma_first_head, shortstat_of, tail_at, Clause,
};
use crate::text::{
    all_digits, decimal_of, decimal_value, digit_char, digits_of, is_digit, occurs_at,
};

verus! {

/// The clause that writes a count: the digits of `n`, then the word, in
/// the singular for one and with an `s` for every other number, then the
/// suffix.
pub open spec fn counted(n: nat, singular: Seq<char>, suffix: Seq<char>) -> Seq<char> {
    digits_of(n) + singular + (if n == 1 {
        Seq::<char>::empty()
    } else {
        seq!['s']
    }) + suffix
}

/// The clause of insertions or of deletions, behind a comma and a space;
/// nothing for a count that is left out.
pub open spec fn optional_clause(n: Option<nat>, singular: Seq<char>, suffix: Seq<char>) -> Seq<
    char,
> {
    match n {
        Some(n) => ", "@ + counted(n, singular, suffix),
        None => Seq::empty(),
    }
}

/// The summary line that `git` prints for the counts of files changed, of
/// insertions and of deletions, the last two of which may be left out.
pub open spec fn printed_shortstat(
    changes: nat,
    insertions: Option<nat>,
    deletions: Option<nat>,
) -> Seq<char> {
    counted(changes, " file"@, " changed"@) + optional_clause(
        insertions,
        " insertion"@,
        "(+)"@,
    ) + optional_clause(deletions, " deletion"@, "(-)"@)
}

/// The number that a count which may be left out stands for.
pub open spec fn count_or_zero(n: Option<nat>) -> nat {
    match n {
        Some(n) => n,
        None => 0,
    }
}

/// The digits of a number are digits, and are read as the number.
pub proof fn lemma_digits_of(n: nat)
    ensures
        digits_of(n).len() >= 1,
        all_digits(digits_of(n)),
        decimal_value(digits_of(n)) == n,
    decreases n,
{
    let s = digits_of(n);
    if n < 10 {
        assert(decimal_value(s.drop_last()) == 0);
    } else {
        lemma_digits_of(n / 10);
        assert(s.drop_last() =~= digits_of(n / 10));
        assert(s.last() == digit_char(n % 10));
        assert(is_digit(digit_char(n % 10)));
        assert forall|i: int| 0 <= i < s.len() implies is_digit(#[trigger] s[i]) by {
            if i < s.len() - 1 {
                assert(s[i] == digits_of(n / 10)[i]);
            }
        }
    }
}

proof fn lemma_digits_run(pre: Seq<char>, digits: Seq<char>, post: Seq<char>, k: int)
    requires
        all_digits(digits),
        post.len() == 0 || !is_digit(post[0]),
        0 <= k <= digits.len(),
    ensures
        digits_end(pre + digits + post, pre.len() + k) == pre.len() + digits.len(),
    decreases digits.len() - k,
{
    if k < digits.len() {
        lemma_digits_run(pre, digits, post, k + 1);
    }
}

proof fn lemma_counted_at(
    pre: Seq<char>,
    n: nat,
    singular: Seq<char>,
    suffix: Seq<char>,
    post: Seq<char>,
)
    requires
        singular.len() > 0,
        !is_digit(singular[0]),
        suffix.len() > 0,
        suffix[0] != 's',
    ensures
        counted_at(pre + counted(n, singular, suffix) + post, pre.len() as int, singular, suffix)
            == Some(
            Clause {
                digits: digits_of(n),
                end: (pre.len() + counted(n, singular, suffix).len()) as int,
            },
        ),
{
    let digits = digits_of(n);
    let plural = if n == 1 {
        Seq::<char>::empty()
    } else {
        seq!['s']
    };
    let text = pre + counted(n, singular, suffix) + post;
    let behind = singular + plural + suffix + post;
    lemma_digits_of(n);
    assert(text =~= pre + digits + behind);
    assert(behind[0] == singular[0]);
    lemma_digits_run(pre, digits, behind, 0);
    let e = (pre.len() + digits.len()) as int;
    assert(text.subrange(pre.len() as int, e) =~= digits);
    assert(text.subrange(e, e + singular.len()) =~= singular);
    let j = e + singular.len();
    if n == 1 {
        assert(text[j] == suffix[0]);
        if occurs_at(text, seq!['s'], j) {
            assert(text.subrange(j, j + 1)[0] == 's');
        }
        assert(text.subrange(j, j + suffix.len()) =~= suffix);
    } else {
        assert(text.subrange(j, j + 1) =~= seq!['s']);
        assert(text.subrange(j + 1, j + 1 + suffix.len()) =~= suffix);
    }
}

proof fn lemma_not_counted_at(
    pre: Seq<char>,
    n: nat,
    singular: Seq<char>,
    suffix: Seq<char>,
    post: Seq<char>,
    other: Seq<char>,
    other_suffix: Seq<char>,
    d: int,
)
    requires
        singular.len() > 0,
        !is_digit(singular[0]),
        0 <= d < singular.len(),
        d < other.len(),
        singular[d] != other[d],
    ensures
        counted_at(
            pre + counted(n, singular, suffix) + post,
            pre.len() as int,
            other,
            other_suffix,
        ) is None,
{
    let digits = digits_of(n);
    let plural = if n == 1 {
        Seq::<char>::empty()
    } else {
        seq!['s']
    };
    let text = pre + counted(n, singular, suffix) + post;
    let behind = singular + plural + suffix + post;
    lemma_digits_of(n);
    assert(text =~= pre + digits + behind);
    lemma_digits_run(pre, digits, behind, 0);
    let e = (pre.len() + digits.len()) as int;
    if occurs_at(text, other, e) {
        assert(text.subrange(e, e + other.len())[d] == text[e + d]);
        assert(text[e + d] == singular[d]);
    }
}

proof fn lemma_words()
    ensures
        " file"@.len() == 5,
        " file"@[0] == ' ',
        " changed"@.len() == 8,
        " changed"@[0] == ' ',
        " insertion"@.len() == 10,
        " insertion"@[0] == ' ',
        " insertion"@[1] == 'i',
        "(+)"@.len() == 3,
        "(+)"@[0] == '(',
        " deletion"@.len() == 9,
        " deletion"@[0] == ' ',
        " deletion"@[1] == 'd',
        "(-)"@.len() == 3,
        "(-)"@[0] == '(',
        ", "@.len() == 2,
        ", "@[0] == ',',
{
    reveal_strlit(" file");
    reveal_strlit(" changed");
    reveal_strlit(" insertion");
    reveal_strlit("(+)");
    reveal_strlit(" deletion");
    reveal_strlit("(-)");
    reveal_strlit(", ");
}

/// The clause that stands behind `pre` in a text, where the text goes on
/// with a clause that may be left out.
proof fn lemma_clause_behind(
    pre: Seq<char>,
    n: Option<nat>,
    singular: Seq<char>,
    suffix: Seq<char>,
    post: Seq<char>,
)
    requires
        singular.len() > 0,
        !is_digit(singular[0]),
        suffix.len() > 0,
        suffix[0] != 's',
        n is None ==> post.len() == 0 || post[0] != ',',
    ensures
        ({
            let text = pre + optional_clause(n, singular, suffix) + post;
            let found = if occurs_at(text, ", "@, pre.len() as int) {
                counted_at(text, pre.len() as int + 2, singular, suffix)
            } else {
                None
            };
            match n {
                Some(n) => found == Some(
                    Clause {
                        digits: digits_of(n),
                        end: (pre.len() + optional_clause(Some(n), singular, suffix).len()) as int,
                    },
                ),
                None => found is None,
            }
        }),
{
    lemma_words();
    let text = pre + optional_clause(n, singular, suffix) + post;
    let p = pre.len() as int;
    match n {
        Some(n) => {
            let clause = counted(n, singular, suffix);
            assert(text =~= (pre + ", "@) + clause + post);
            assert(text.subrange(p, p + 2) =~= ", "@);
            lemma_counted_at(pre + ", "@, n, singular, suffix, post);
        },
        None => {
            assert(text =~= pre + post);
            if occurs_at(text, ", "@, p) {
                assert(text.subrange(p, p + 2)[0] == ',');
                assert(text[p] == post[0]);
            }
        },
    }
}

/// The digits of a count that may be left out.
spec fn optional_digits(n: Option<nat>) -> Option<Seq<char>> {
    match n {
        Some(n) => Some(digits_of(n)),
        None => None,
    }
}

/// The digits of a clause that may be missing.
spec fn clause_digits(clause: Option<Clause>) -> Option<Seq<char>> {
    match clause {
        Some(clause) => Some(clause.digits),
        None => None,
    }
}

proof fn lemma_tail_with_insertions(
    before: Seq<char>,
    m: nat,
    deletions: Option<nat>,
    rest: Seq<char>,
)
    requires
        rest.len() == 0 || rest[0] != ',',
    ensures
        ({
            let text = before + optional_clause(Some(m), " insertion"@, "(+)"@) + optional_clause(
                deletions,
                " deletion"@,
                "(-)"@,
            ) + rest;
            let tail = tail_at(text, before.len() as int);
            clause_digits(tail.0) == Some(digits_of(m)) && clause_digits(tail.1) == optional_digits(
                deletions,
            )
        }),
{
    lemma_words();
    let first = optional_clause(Some(m), " insertion"@, "(+)"@);
    let second = optional_clause(deletions, " deletion"@, "(-)"@);
    let text = before + first + second + rest;
    assert(text =~= before + first + (second + rest));
    lemma_clause_behind(before, Some(m), " insertion"@, "(+)"@, second + rest);
    let next = before + first;
    lemma_clause_behind(next, deletions, " deletion"@, "(-)"@, rest);
    assert(insertions_at(text, before.len() as int) is Some);
    assert(insertions_at(text, before.len() as int)->0.end == next.len());
}

proof fn lemma_tail_without_insertions(before: Seq<char>, deletions: Option<nat>, rest: Seq<char>)
    requires
        rest.len() == 0 || rest[0] != ',',
    ensures
        ({
            let text = before + optional_clause(deletions, " deletion"@, "(-)"@) + rest;
            let tail = tail_at(text, before.len() as int);
            tail.0 is None && clause_digits(tail.1) == optional_digits(deletions)
        }),
{
    lemma_words();
    let second = optional_clause(deletions, " deletion"@, "(-)"@);
    let text = before + second + rest;
    let end = before.len() as int;
    lemma_clause_behind(before, deletions, " deletion"@, "(-)"@, rest);
    match deletions {
        Some(k) => {
            assert(text =~= (before + ", "@) + counted(k, " deletion"@, "(-)"@) + rest);
            lemma_not_counted_at(
                before + ", "@,
                k,
                " deletion"@,
                "(-)"@,
                rest,
                " insertion"@,
                "(+)"@,
                1,
            );
            assert(insertions_at(text, end) is None);
            let next = before + second;
            assert(text =~= next + optional_clause(None, " insertion"@, "(+)"@) + rest);
            lemma_clause_behind(next, None, " insertion"@, "(+)"@, rest);
        },
        None => {
            assert(text =~= before + optional_clause(None, " insertion"@, "(+)"@) + rest);
            lemma_clause_behind(before, None, " insertion"@, "(+)"@, rest);
            assert(insertions_at(text, end) is None);
            assert(deletions_at(text, end) is None);
        },
    }
}

proof fn lemma_printed_head(lead: Seq<char>, changes: nat, behind: Seq<char>)
    requires
        forall|i: int| 0 <= i < lead.len() ==> !is_digit(#[trigger] lead[i]),
    ensures
        ({
            let head = counted(changes, " file"@, " changed"@);
            let text = lead + head + behind;
            &&& is_first_head(text, lead.len() as int)
            &&& head_at(text, lead.len() as int) == Some(
                Clause { digits: digits_of(changes), end: (lead.len() + head.len()) as int },
            )
        }),
{
    lemma_words();
    let head = counted(changes, " file"@, " changed"@);
    let text = lead + head + behind;
    let p = lead.len() as int;
    lemma_counted_at(lead, changes, " file"@, " changed"@, behind);
    assert forall|j: int| 0 <= j < p implies (#[trigger] head_at(text, j)) is None by {
        assert(text[j] == lead[j]);
    }
}

proof fn lemma_count_read(n: nat)
    requires
        n <= i32::MAX,
    ensures
        decimal_of(digits_of(n)) == Some(n as i32),
{
    lemma_digits_of(n);
}

/// A summary line that is printed from counts is read back as these
/// counts: the count of files, and 0 for a count that was left out.
///
/// This holds for counts that an `i32` holds, where no digit stands before
/// the summary and no comma right behind it.
pub proof fn lemma_shortstat_round_trip(
    lead: Seq<char>,
    changes: nat,
    insertions: Option<nat>,
    deletions: Option<nat>,
    rest: Seq<char>,
)
    requires
        forall|i: int| 0 <= i < lead.len() ==> !is_digit(#[trigger] lead[i]),
        changes <= i32::MAX,
        count_or_zero(insertions) <= i32::MAX,
        count_or_zero(deletions) <= i32::MAX,
        rest.len() == 0 || rest[0] != ',',
    ensures
        shortstat_of(lead + printed_shortstat(changes, insertions, deletions) + rest) == Some(
            (
                changes as i32,
                count_or_zero(insertions) as i32,
                count_or_zero(deletions) as i32,
            ),
        ),
{
    let head = counted(changes, " file"@, " changed"@);
    let first = optional_clause(insertions, " insertion"@, "(+)"@);
    let second = optional_clause(deletions, " deletion"@, "(-)"@);
    let text = lead + printed_shortstat(changes, insertions, deletions) + rest;
    let p = lead.len() as int;
    let before = lead + head;
    assert(text =~= lead + head + (first + second + rest));
    lemma_printed_head(lead, changes, first + second + rest);
    lemma_first_head(text, p);
    lemma_count_read(changes);
    let tail = tail_at(text, before.len() as int);
    assert(clause_digits(tail.0) == optional_digits(insertions) && clause_digits(tail.1)
        == optional_digits(deletions)) by {
        match insertions {
            Some(m) => {
                assert(text =~= before + first + second + rest);
                lemma_tail_with_insertions(before, m, deletions, rest);
            },
            None => {
                assert(text =~= before + second + rest);
                lemma_tail_without_insertions(before, deletions, rest);
            },
        }
    }
    match insertions {
        Some(m) => {
            lemma_count_read(m);
        },
        None => {},
    }
    match deletions {
        Some(k) => {
            lemma_count_read(k);
        },
        None => {},
    }
}

} // verus!
