//! Printing a log with the separators and reading it back gives the values
//! that were printed.

use vstd::prelude::*;

use crate::delimiter::{
    commit_log_of, log_of, record_of, records_of, without_line_feeds, without_record_line_feeds,
    LogFieldView, COMMIT_INETRVAL, PARAM_INTERVAL,
};
use crate::text::{
    is_first_occurrence, joined, lemma_first_occurrence, occurs_at, occurs_in, split_on,
};

verus! {

/// Whether `v` can stand as a value in a log: it holds neither separator.
pub open spec fn is_plain_value(v: Seq<char>) -> bool {
    &&& !occurs_in(v, PARAM_INTERVAL@)
    &&& !occurs_in(v, COMMIT_INETRVAL@)
}

/// One record as it stands in the printed log: its values with the field
/// separator between them, behind `gap` for every record but the first.
pub open spec fn printed_record(records: Seq<Seq<Seq<char>>>, r: int, gap: Seq<char>) -> Seq<
    char,
> {
    if r == 0 {
        joined(records[r], PARAM_INTERVAL@)
    } else {
        gap + joined(records[r], PARAM_INTERVAL@)
    }
}

/// The records as they stand in the printed log.
pub open spec fn printed_records(records: Seq<Seq<Seq<char>>>, gap: Seq<char>) -> Seq<Seq<char>> {
    Seq::new(records.len(), |r: int| printed_record(records, r, gap))
}

/// The lines with the record separator behind each.
pub open spec fn stopped(lines: Seq<Seq<char>>) -> Seq<char>
    decreases lines.len(),
{
    if lines.len() == 0 {
        Seq::empty()
    } else {
        lines[0] + COMMIT_INETRVAL@ + stopped(lines.drop_first())
    }
}

/// A log as it is printed for `records`: the values of each record with the
/// field separator between them, the record separator behind each record,
/// and `gap` between the records. The gap is empty where one record stands
/// right behind the other; `git` puts a line feed there.
pub open spec fn printed_log(records: Seq<Seq<Seq<char>>>, gap: Seq<char>) -> Seq<char> {
    stopped(printed_records(records, gap))
}

/// The values of `records` under `names`.
pub open spec fn named_log(names: Seq<Seq<char>>, records: Seq<Seq<Seq<char>>>) -> Seq<
    Seq<LogFieldView>,
> {
    Seq::new(
        records.len(),
        |r: int|
            Seq::new(
                names.len(),
                |i: int| LogFieldView { name: names[i], value: records[r][i] },
            ),
    )
}

/// Whether `sep` begins with `<<` and holds no `<` behind that.
spec fn is_marker(sep: Seq<char>) -> bool {
    &&& sep.len() >= 3
    &&& sep[0] == '<'
    &&& sep[1] == '<'
    &&& forall|k: int| 2 <= k < sep.len() ==> sep[k] != '<'
}

proof fn lemma_separators()
    ensures
        is_marker(PARAM_INTERVAL@),
        is_marker(COMMIT_INETRVAL@),
        PARAM_INTERVAL@[2] != COMMIT_INETRVAL@[2],
        COMMIT_INETRVAL@.last() == '>',
{
    reveal_strlit("<<PARAM_INTERVAL>>");
    reveal_strlit("<<COMMIT_INETRVAL>>");
}

/// An occurrence of `pat` that begins in `a` ends in `a`, where a marker
/// follows `a`.
proof fn lemma_no_straddle(
    a: Seq<char>,
    next: Seq<char>,
    rest: Seq<char>,
    pat: Seq<char>,
    i: int,
)
    requires
        is_marker(pat),
        is_marker(next),
        occurs_at(a + next + rest, pat, i),
        i < a.len(),
    ensures
        occurs_at(a, pat, i),
{
    let text = a + next + rest;
    let n = pat.len() as int;
    let found = text.subrange(i, i + n);
    if i + n > a.len() {
        let d = a.len() - i;
        assert(found[d] == text[a.len() as int]);
        assert(found[2] == text[i + 2]);
    }
    assert(a.subrange(i, i + n) =~= found);
}

/// An occurrence of `pat` that begins behind `a` begins behind the marker
/// that follows `a`, where the marker is another one than `pat`.
proof fn lemma_not_in_marker(
    a: Seq<char>,
    next: Seq<char>,
    rest: Seq<char>,
    pat: Seq<char>,
    i: int,
)
    requires
        is_marker(pat),
        is_marker(next),
        pat[2] != next[2],
        occurs_at(a + next + rest, pat, i),
        i >= a.len(),
    ensures
        i >= a.len() + next.len(),
        occurs_at(rest, pat, i - a.len() - next.len()),
{
    let text = a + next + rest;
    let n = pat.len() as int;
    let j = i - a.len() - next.len();
    assert(rest.subrange(j, j + n) =~= text.subrange(i, i + n));
}

proof fn lemma_first_at_marker(a: Seq<char>, sep: Seq<char>, rest: Seq<char>)
    requires
        is_marker(sep),
        !occurs_in(a, sep),
    ensures
        is_first_occurrence(a + sep + rest, sep, a.len() as int),
{
    let text = a + sep + rest;
    assert(text.subrange(a.len() as int, (a.len() + sep.len()) as int) =~= sep);
    assert forall|j: int| 0 <= j < a.len() implies !occurs_at(text, sep, j) by {
        if occurs_at(text, sep, j) {
            lemma_no_straddle(a, sep, rest, sep, j);
        }
    }
}

proof fn lemma_split_first(a: Seq<char>, sep: Seq<char>, rest: Seq<char>)
    requires
        sep.len() > 0,
        is_first_occurrence(a + sep + rest, sep, a.len() as int),
    ensures
        split_on(a + sep + rest, sep) == seq![a] + split_on(rest, sep),
{
    let text = a + sep + rest;
    lemma_first_occurrence(text, sep, a.len() as int);
    assert(text.take(a.len() as int) =~= a);
    assert(text.skip((a.len() + sep.len()) as int) =~= rest);
}

proof fn lemma_joined_front(parts: Seq<Seq<char>>, sep: Seq<char>)
    requires
        parts.len() >= 2,
    ensures
        joined(parts, sep) == parts[0] + sep + joined(parts.drop_first(), sep),
    decreases parts.len(),
{
    if parts.len() == 2 {
        assert(joined(parts.drop_last(), sep) == parts[0]);
    } else {
        lemma_joined_front(parts.drop_last(), sep);
        assert(parts.drop_first().drop_last() =~= parts.drop_last().drop_first());
    }
}

proof fn lemma_absent_from_joined(fields: Seq<Seq<char>>, sep: Seq<char>, pat: Seq<char>)
    requires
        is_marker(pat),
        is_marker(sep),
        pat[2] != sep[2],
        forall|i: int| 0 <= i < fields.len() ==> !occurs_in(#[trigger] fields[i], pat),
    ensures
        !occurs_in(joined(fields, sep), pat),
    decreases fields.len(),
{
    if fields.len() >= 2 {
        lemma_joined_front(fields, sep);
        let rest = joined(fields.drop_first(), sep);
        assert forall|i: int| 0 <= i < fields.drop_first().len() implies !occurs_in(
            #[trigger] fields.drop_first()[i],
            pat,
        ) by {}
        lemma_absent_from_joined(fields.drop_first(), sep, pat);
        assert forall|i: int| !occurs_at(fields[0] + sep + rest, pat, i) by {
            if occurs_at(fields[0] + sep + rest, pat, i) {
                if i < fields[0].len() {
                    lemma_no_straddle(fields[0], sep, rest, pat, i);
                } else {
                    lemma_not_in_marker(fields[0], sep, rest, pat, i);
                }
            }
        }
    }
}

/// Values without the separator, joined with it and divided at it, are the
/// values.
proof fn lemma_split_joined(fields: Seq<Seq<char>>, sep: Seq<char>)
    requires
        fields.len() >= 1,
        is_marker(sep),
        forall|i: int| 0 <= i < fields.len() ==> !occurs_in(#[trigger] fields[i], sep),
    ensures
        split_on(joined(fields, sep), sep) == fields,
    decreases fields.len(),
{
    if fields.len() >= 2 {
        lemma_joined_front(fields, sep);
        let rest = joined(fields.drop_first(), sep);
        lemma_first_at_marker(fields[0], sep, rest);
        lemma_split_first(fields[0], sep, rest);
        assert forall|i: int| 0 <= i < fields.drop_first().len() implies !occurs_in(
            #[trigger] fields.drop_first()[i],
            sep,
        ) by {}
        lemma_split_joined(fields.drop_first(), sep);
    }
}

/// A marker that does not stand in `x` does not stand in `x` behind a gap
/// that holds no `<`.
proof fn lemma_absent_behind_gap(gap: Seq<char>, x: Seq<char>, pat: Seq<char>)
    requires
        is_marker(pat),
        forall|i: int| 0 <= i < gap.len() ==> gap[i] != '<',
        !occurs_in(x, pat),
    ensures
        !occurs_in(gap + x, pat),
{
    let text = gap + x;
    let n = pat.len() as int;
    assert forall|i: int| !occurs_at(text, pat, i) by {
        if occurs_at(text, pat, i) {
            if i >= gap.len() {
                let j = i - gap.len();
                assert(x.subrange(j, j + n) =~= text.subrange(i, i + n));
                assert(occurs_at(x, pat, j));
            } else {
                assert(text.subrange(i, i + n)[0] == gap[i]);
            }
        }
    }
}

proof fn lemma_split_stopped(lines: Seq<Seq<char>>)
    requires
        forall|r: int| 0 <= r < lines.len() ==> !occurs_in(#[trigger] lines[r], COMMIT_INETRVAL@),
    ensures
        split_on(stopped(lines), COMMIT_INETRVAL@) == lines.push(Seq::empty()),
    decreases lines.len(),
{
    lemma_separators();
    let stop = COMMIT_INETRVAL@;
    if lines.len() != 0 {
        let others = lines.drop_first();
        let rest = stopped(others);
        lemma_first_at_marker(lines[0], stop, rest);
        lemma_split_first(lines[0], stop, rest);
        assert forall|r: int| 0 <= r < others.len() implies !occurs_in(
            #[trigger] others[r],
            stop,
        ) by {}
        lemma_split_stopped(others);
    }
}

/// The records as they are read: the values of each with the field
/// separator between them.
spec fn plain_records(records: Seq<Seq<Seq<char>>>) -> Seq<Seq<char>> {
    Seq::new(records.len(), |r: int| joined(records[r], PARAM_INTERVAL@))
}

/// A record of the printed log holds no record separator.
proof fn lemma_printed_record(records: Seq<Seq<Seq<char>>>, gap: Seq<char>, r: int)
    requires
        0 <= r < records.len(),
        forall|i: int| 0 <= i < gap.len() ==> gap[i] != '<',
        forall|i: int| 0 <= i < records[r].len() ==> is_plain_value(#[trigger] records[r][i]),
    ensures
        !occurs_in(printed_record(records, r, gap), COMMIT_INETRVAL@),
{
    lemma_separators();
    let fields = records[r];
    assert forall|i: int| 0 <= i < fields.len() implies !occurs_in(
        #[trigger] fields[i],
        COMMIT_INETRVAL@,
    ) by {
        assert(is_plain_value(records[r][i]));
    }
    lemma_absent_from_joined(fields, PARAM_INTERVAL@, COMMIT_INETRVAL@);
    if r > 0 {
        lemma_absent_behind_gap(gap, joined(fields, PARAM_INTERVAL@), COMMIT_INETRVAL@);
    }
}

/// The pieces of a printed log are its records, and an empty piece behind
/// the last record separator.
proof fn lemma_split_printed(records: Seq<Seq<Seq<char>>>, gap: Seq<char>)
    requires
        forall|i: int| 0 <= i < gap.len() ==> gap[i] != '<',
        forall|r: int, i: int|
            0 <= r < records.len() && 0 <= i < records[r].len() ==> is_plain_value(
                #[trigger] records[r][i],
            ),
    ensures
        split_on(printed_log(records, gap), COMMIT_INETRVAL@) == printed_records(
            records,
            gap,
        ).push(Seq::empty()),
{
    let lines = printed_records(records, gap);
    assert forall|r: int| 0 <= r < lines.len() implies !occurs_in(
        #[trigger] lines[r],
        COMMIT_INETRVAL@,
    ) by {
        assert forall|i: int| 0 <= i < records[r].len() implies is_plain_value(
            #[trigger] records[r][i],
        ) by {}
        lemma_printed_record(records, gap, r);
    }
    lemma_split_stopped(lines);
}

/// A record as it is read gives the values that were printed.
proof fn lemma_record_read(names: Seq<Seq<char>>, records: Seq<Seq<Seq<char>>>, r: int)
    requires
        0 <= r < records.len(),
        records[r].len() == names.len(),
        forall|i: int| 0 <= i < records[r].len() ==> is_plain_value(#[trigger] records[r][i]),
    ensures
        record_of(plain_records(records)[r], names) == Some(named_log(names, records)[r]),
{
    lemma_separators();
    let fields = records[r];
    if fields.len() > 0 {
        assert forall|i: int| 0 <= i < fields.len() implies !occurs_in(
            #[trigger] fields[i],
            PARAM_INTERVAL@,
        ) by {
            assert(is_plain_value(records[r][i]));
        }
        lemma_split_joined(fields, PARAM_INTERVAL@);
    }
    assert(record_of(plain_records(records)[r], names)->0 =~= named_log(names, records)[r]);
}

proof fn lemma_log_of_plain(names: Seq<Seq<char>>, records: Seq<Seq<Seq<char>>>, n: int)
    requires
        0 <= n <= records.len(),
        forall|r: int| 0 <= r < records.len() ==> (#[trigger] records[r]).len() == names.len(),
        forall|r: int, i: int|
            0 <= r < records.len() && 0 <= i < records[r].len() ==> is_plain_value(
                #[trigger] records[r][i],
            ),
    ensures
        log_of(plain_records(records).take(n), names) == Some(named_log(names, records).take(n)),
    decreases n,
{
    let lines = plain_records(records).take(n);
    if n == 0 {
        assert(named_log(names, records).take(0) =~= Seq::<Seq<LogFieldView>>::empty());
    } else {
        lemma_log_of_plain(names, records, n - 1);
        assert(lines.drop_last() =~= plain_records(records).take(n - 1));
        assert(lines.last() == plain_records(records)[n - 1]);
        assert forall|i: int| 0 <= i < records[n - 1].len() implies is_plain_value(
            #[trigger] records[n - 1][i],
        ) by {}
        lemma_record_read(names, records, n - 1);
        assert(named_log(names, records).take(n - 1).push(named_log(names, records)[n - 1])
            =~= named_log(names, records).take(n));
    }
}

/// Lines with the record separator between them and an empty line at the
/// end are the lines with the record separator behind each.
proof fn lemma_joined_stopped(lines: Seq<Seq<char>>)
    ensures
        joined(lines.push(Seq::empty()), COMMIT_INETRVAL@) == stopped(lines),
    decreases lines.len(),
{
    let all = lines.push(Seq::empty());
    if lines.len() > 0 {
        lemma_joined_front(all, COMMIT_INETRVAL@);
        assert(all.drop_first() =~= lines.drop_first().push(Seq::empty()));
        lemma_joined_stopped(lines.drop_first());
    }
}

/// Records that are printed with the separators, the values of each with
/// the field separator between them and the record separator behind each
/// record, are read back as the values that were printed, exactly, record
/// by record and field by field, each under the name of its field.
///
/// This holds for all values that hold neither separator, whatever white
/// space they begin or end with.
pub proof fn lemma_log_round_trip(names: Seq<Seq<char>>, records: Seq<Seq<Seq<char>>>)
    requires
        forall|r: int| 0 <= r < records.len() ==> (#[trigger] records[r]).len() == names.len(),
        forall|r: int, i: int|
            0 <= r < records.len() && 0 <= i < records[r].len() ==> is_plain_value(
                #[trigger] records[r][i],
            ),
    ensures
        commit_log_of(printed_log(records, Seq::empty()), names) == Some(
            named_log(names, records),
        ),
{
    let gap = Seq::<char>::empty();
    let text = printed_log(records, gap);
    let lines = printed_records(records, gap);
    let plain = plain_records(records);
    lemma_split_printed(records, gap);
    assert(lines =~= plain) by {
        assert forall|r: int| 0 <= r < lines.len() implies lines[r] == plain[r] by {
            assert(gap + joined(records[r], PARAM_INTERVAL@) =~= joined(
                records[r],
                PARAM_INTERVAL@,
            ));
        }
    }
    assert(plain.push(Seq::empty()).drop_last() =~= plain);
    assert(records_of(text) == plain);
    lemma_log_of_plain(names, records, records.len() as int);
    assert(plain.take(records.len() as int) =~= plain);
    assert(named_log(names, records).take(records.len() as int) =~= named_log(names, records));
}

/// What `git` prints, with a line feed between every two records, is,
/// without these line feeds, the log in which one record stands right
/// behind the other.
pub proof fn lemma_git_log_is_stripped(records: Seq<Seq<Seq<char>>>)
    requires
        forall|r: int, i: int|
            0 <= r < records.len() && 0 <= i < records[r].len() ==> is_plain_value(
                #[trigger] records[r][i],
            ),
    ensures
        without_record_line_feeds(printed_log(records, seq!['\n'])) == printed_log(
            records,
            Seq::empty(),
        ),
{
    let gap = seq!['\n'];
    let none = Seq::<char>::empty();
    let lines = printed_records(records, gap);
    let plain = printed_records(records, none);
    lemma_split_printed(records, gap);
    let read = without_line_feeds(lines.push(Seq::empty()));
    assert(read =~= plain.push(Seq::empty())) by {
        let wanted = plain.push(Seq::empty());
        assert forall|r: int| 0 <= r < read.len() implies read[r] == wanted[r] by {
            if 0 < r < lines.len() {
                let text = joined(records[r], PARAM_INTERVAL@);
                assert((gap + text)[0] == '\n');
                assert((gap + text).drop_first() =~= text);
                assert(none + text =~= text);
            }
        }
    }
    lemma_joined_stopped(plain);
}

/// Records that `git` prints, with a line feed between every two of them,
/// are read back in two steps, first without these line feeds and then as
/// a log, as the values that were printed, exactly.
///
/// This holds for all values that hold neither separator.
pub proof fn lemma_git_log_round_trip(names: Seq<Seq<char>>, records: Seq<Seq<Seq<char>>>)
    requires
        forall|r: int| 0 <= r < records.len() ==> (#[trigger] records[r]).len() == names.len(),
        forall|r: int, i: int|
            0 <= r < records.len() && 0 <= i < records[r].len() ==> is_plain_value(
                #[trigger] records[r][i],
            ),
    ensures
        commit_log_of(without_record_line_feeds(printed_log(records, seq!['\n'])), names)
            == Some(named_log(names, records)),
{
    lemma_git_log_is_stripped(records);
    lemma_log_round_trip(names, records);
}

} // verus!
