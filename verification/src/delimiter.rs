//! The separators that make the output of `git` machine-readable, and the
//! commit log that is read with them.
//!
//! A format string for `git log` holds the placeholders that were asked
//! for, with the field separator between them and the record separator
//! behind them. What `git` then prints is taken apart at the record
//! separators and, record by record, at the field separators.

use vstd::prelude::*;
use vstd::string::StringExecFns;

use crate::err::{CustomerGitError, GitErrorKind};
use crate::text::{
    join_first, joined, lemma_views_push, split, split_on, to_chars, to_text, to_texts, views,
};

verus! {

/// Stands between the fields of one record.
pub const PARAM_INTERVAL: &'static str = "<<PARAM_INTERVAL>>";

/// Stands behind each record.
pub const COMMIT_INETRVAL: &'static str = "<<COMMIT_INETRVAL>>";

/// One field of a record of the log: the name of the field and its value.
#[derive(Clone, Debug, PartialEq, Eq)]
pub struct LogField {
    pub name: String,
    pub value: String,
}

/// The mathematical value of a [`LogField`].
pub struct LogFieldView {
    pub name: Seq<char>,
    pub value: Seq<char>,
}

impl View for LogField {
    type V = LogFieldView;

    open spec fn view(&self) -> LogFieldView {
        LogFieldView { name: self.name@, value: self.value@ }
    }
}

/// The placeholders that a log may be asked for, each with the name of the
/// field that holds its value.
pub open spec fn format_keys() -> Seq<(Seq<char>, Seq<char>)> {
    seq![
        ("%H"@, "hashL"@),
        ("%h"@, "hashS"@),
        ("%T"@, "treeL"@),
        ("%t"@, "treeS"@),
        ("%P"@, "parentHashL"@),
        ("%p"@, "parentHashS"@),
        ("%an"@, "authorName"@),
        ("%ae"@, "authorEmail"@),
        ("%ad"@, "date"@),
        ("%ar"@, "dateRelative"@),
        ("%at"@, "dateTimeStamp"@),
        ("%cn"@, "committerName"@),
        ("%ce"@, "committerEmail"@),
        ("%cd"@, "committerDate"@),
        ("%cr"@, "committerDateRelative"@),
        ("%ct"@, "committerDateTimeStamp"@),
        ("%cs"@, "committerDateYMD"@),
        ("%d"@, "refs"@),
        ("%D"@, "refsComma"@),
        ("%s"@, "message"@),
        ("%b"@, "body"@),
        ("%B"@, "bodyNoTrailingSlash"@),
        ("%N"@, "notes"@),
    ]
}

/// What `table` holds for `key`: the value of the first pair with that key.
pub open spec fn lookup_of(table: Seq<(Seq<char>, Seq<char>)>, key: Seq<char>) -> Option<Seq<char>>
    decreases table.len(),
{
    if table.len() == 0 {
        None
    } else if table[0].0 == key {
        Some(table[0].1)
    } else {
        lookup_of(table.drop_first(), key)
    }
}

/// The name of the field that holds the value of `placeholder`, or nothing
/// for a placeholder that is not known.
pub open spec fn format_key_of(placeholder: Seq<char>) -> Option<Seq<char>> {
    lookup_of(format_keys(), placeholder)
}

/// The names of the fields of `placeholders`, in order, or nothing where
/// one of the placeholders is not known.
pub open spec fn field_names_of(placeholders: Seq<Seq<char>>) -> Option<Seq<Seq<char>>>
    decreases placeholders.len(),
{
    if placeholders.len() == 0 {
        Some(Seq::empty())
    } else {
        match (
            field_names_of(placeholders.drop_last()),
            format_key_of(placeholders.last()),
        ) {
            (Some(names), Some(name)) => Some(names.push(name)),
            _ => None,
        }
    }
}

/// The format that asks `git log` for `placeholders`.
pub open spec fn log_format_of(placeholders: Seq<Seq<char>>) -> Seq<char> {
    "--pretty=format:"@ + joined(placeholders, PARAM_INTERVAL@) + COMMIT_INETRVAL@
}

/// A piece of the output without the line feed at its start, if one
/// stands there: the line feed that `git` puts between two records.
pub open spec fn without_line_feed(piece: Seq<char>) -> Seq<char> {
    if piece.len() > 0 && piece[0] == '\n' {
        piece.drop_first()
    } else {
        piece
    }
}

/// The pieces of an output, each but the first without the line feed at
/// its start.
pub open spec fn without_line_feeds(parts: Seq<Seq<char>>) -> Seq<Seq<char>> {
    Seq::new(
        parts.len(),
        |i: int|
            if i == 0 {
                parts[i]
            } else {
                without_line_feed(parts[i])
            },
    )
}

/// What `git` printed, in the form in which one record stands right behind
/// the other: without the line feed that `git` puts behind the record
/// separator of every record.
pub open spec fn without_record_line_feeds(stdout: Seq<char>) -> Seq<char> {
    joined(without_line_feeds(split_on(stdout, COMMIT_INETRVAL@)), COMMIT_INETRVAL@)
}

/// The records of an output: its pieces between record separators, without
/// the empty piece behind the last separator.
pub open spec fn records_of(stdout: Seq<char>) -> Seq<Seq<char>> {
    let parts = split_on(stdout, COMMIT_INETRVAL@);
    if parts.last().len() == 0 {
        parts.drop_last()
    } else {
        parts
    }
}

/// The values of one record: what stands between its field separators. A
/// record is never without a value, but where no value was asked for and
/// the record is empty.
pub open spec fn values_of(record: Seq<char>, asked: nat) -> Seq<Seq<char>> {
    if asked == 0 && record.len() == 0 {
        Seq::empty()
    } else {
        split_on(record, PARAM_INTERVAL@)
    }
}

/// The fields of one record under their names, each value as it stands
/// between the field separators, or nothing where the record has not one
/// field for each name.
pub open spec fn record_of(record: Seq<char>, names: Seq<Seq<char>>) -> Option<Seq<LogFieldView>> {
    let values = values_of(record, names.len());
    if values.len() == names.len() {
        Some(Seq::new(names.len(), |i: int| LogFieldView { name: names[i], value: values[i] }))
    } else {
        None
    }
}

/// The records under the names of their fields, in order, or nothing where
/// one of them has not one field for each name.
pub open spec fn log_of(records: Seq<Seq<char>>, names: Seq<Seq<char>>) -> Option<
    Seq<Seq<LogFieldView>>,
>
    decreases records.len(),
{
    if records.len() == 0 {
        Some(Seq::empty())
    } else {
        match (log_of(records.drop_last(), names), record_of(records.last(), names)) {
            (Some(log), Some(record)) => Some(log.push(record)),
            _ => None,
        }
    }
}

/// The log that an output gives under the names of its fields.
pub open spec fn commit_log_of(stdout: Seq<char>, names: Seq<Seq<char>>) -> Option<
    Seq<Seq<LogFieldView>>,
> {
    log_of(records_of(stdout), names)
}

/// The value of each record of a log.
pub open spec fn log_views(log: Seq<Vec<LogField>>) -> Seq<Seq<LogFieldView>> {
    Seq::new(log.len(), |i: int| views(log[i]@))
}

/// No placeholder stands twice in the table.
pub proof fn lemma_format_keys_distinct()
    ensures
        forall|i: int, j: int|
            0 <= i < j < format_keys().len() ==> (#[trigger] format_keys()[i]).0 != (
            #[trigger] format_keys()[j]).0,
{
    reveal_strlit("%H");
    reveal_strlit("%h");
    reveal_strlit("%T");
    reveal_strlit("%t");
    reveal_strlit("%P");
    reveal_strlit("%p");
    reveal_strlit("%an");
    reveal_strlit("%ae");
    reveal_strlit("%ad");
    reveal_strlit("%ar");
    reveal_strlit("%at");
    reveal_strlit("%cn");
    reveal_strlit("%ce");
    reveal_strlit("%cd");
    reveal_strlit("%cr");
    reveal_strlit("%ct");
    reveal_strlit("%cs");
    reveal_strlit("%d");
    reveal_strlit("%D");
    reveal_strlit("%s");
    reveal_strlit("%b");
    reveal_strlit("%B");
    reveal_strlit("%N");
    let keys = format_keys();
    assert forall|i: int, j: int| 0 <= i < j < keys.len() implies (#[trigger] keys[i]).0 != (
    #[trigger] keys[j]).0 by {
        let a = keys[i].0;
        let b = keys[j].0;
        if a.len() == b.len() {
            assert(a[1] != b[1] || (a.len() == 3 && a[2] != b[2]));
        }
    }
}

/// The table of the placeholders that a log may be asked for. No
/// placeholder stands twice in it.
pub fn get_format_key_map() -> (table: Vec<(String, String)>)
    ensures
        views(table@) == format_keys(),
        forall|i: int, j: int|
            0 <= i < j < table.len() ==> (#[trigger] table[i]).0@ != (#[trigger] table[j]).0@,
{
    proof {
        lemma_format_keys_distinct();
    }
    let mut table: Vec<(String, String)> = Vec::new();
    table.push((String::from_str("%H"), String::from_str("hashL")));
    table.push((String::from_str("%h"), String::from_str("hashS")));
    table.push((String::from_str("%T"), String::from_str("treeL")));
    table.push((String::from_str("%t"), String::from_str("treeS")));
    table.push((String::from_str("%P"), String::from_str("parentHashL")));
    table.push((String::from_str("%p"), String::from_str("parentHashS")));
    table.push((String::from_str("%an"), String::from_str("authorName")));
    table.push((String::from_str("%ae"), String::from_str("authorEmail")));
    table.push((String::from_str("%ad"), String::from_str("date")));
    table.push((String::from_str("%ar"), String::from_str("dateRelative")));
    table.push((String::from_str("%at"), String::from_str("dateTimeStamp")));
    table.push((String::from_str("%cn"), String::from_str("committerName")));
    table.push((String::from_str("%ce"), String::from_str("committerEmail")));
    table.push((String::from_str("%cd"), String::from_str("committerDate")));
    table.push((String::from_str("%cr"), String::from_str("committerDateRelative")));
    table.push((String::from_str("%ct"), String::from_str("committerDateTimeStamp")));
    table.push((String::from_str("%cs"), String::from_str("committerDateYMD")));
    table.push((String::from_str("%d"), String::from_str("refs")));
    table.push((String::from_str("%D"), String::from_str("refsComma")));
    table.push((String::from_str("%s"), String::from_str("message")));
    table.push((String::from_str("%b"), String::from_str("body")));
    table.push((String::from_str("%B"), String::from_str("bodyNoTrailingSlash")));
    table.push((String::from_str("%N"), String::from_str("notes")));
    assert(views(table@) =~= format_keys());
    assert forall|i: int, j: int| 0 <= i < j < table.len() implies (#[trigger] table[i]).0@ != (
    #[trigger] table[j]).0@ by {}
    table
}

/// Looks `key` up in `table`.
fn lookup(table: &Vec<(String, String)>, key: &String) -> (r: Option<String>)
    ensures
        match r {
            Some(value) => lookup_of(views(table@), key@) == Some(value@),
            None => lookup_of(views(table@), key@) is None,
        },
{
    let mut i: usize = 0;
    assert(views(table@).skip(0) =~= views(table@));
    while i < table.len()
        invariant
            i <= table.len(),
            lookup_of(views(table@), key@) == lookup_of(views(table@).skip(i as int), key@),
        decreases table.len() - i,
    {
        let ghost rest = views(table@).skip(i as int);
        assert(rest.drop_first() =~= views(table@).skip(i as int + 1));
        if table[i].0 == *key {
            return Some(table[i].1.clone());
        }
        i += 1;
    }
    None
}

/// The name of the field that holds the value of `placeholder`: `hashL`
/// for `%H`, `authorName` for `%an`, and so on; nothing for a placeholder
/// that is not known.
pub fn format_key(placeholder: &str) -> (name: Option<String>)
    ensures
        match name {
            Some(name) => format_key_of(placeholder@) == Some(name@),
            None => format_key_of(placeholder@) is None,
        },
{
    let table = get_format_key_map();
    lookup(&table, &String::from_str(placeholder))
}

fn field_names(placeholders: &Vec<String>) -> (r: Result<Vec<String>, CustomerGitError>)
    ensures
        match r {
            Ok(names) => field_names_of(views(placeholders@)) == Some(views(names@)),
            Err(e) => field_names_of(views(placeholders@)) is None && e@.kind
                == GitErrorKind::NotFound,
        },
{
    let table = get_format_key_map();
    let mut names: Vec<String> = Vec::new();
    let mut i: usize = 0;
    while i < placeholders.len()
        invariant
            i <= placeholders.len(),
            views(table@) == format_keys(),
            field_names_of(views(placeholders@).take(i as int)) == Some(views(names@)),
        decreases placeholders.len() - i,
    {
        proof {
            let now = views(placeholders@).take(i as int + 1);
            assert(now.drop_last() =~= views(placeholders@).take(i as int));
        }
        match lookup(&table, &placeholders[i]) {
            Some(name) => {
                proof {
                    lemma_views_push(names@, name);
                }
                names.push(name);
            },
            None => {
                proof {
                    lemma_field_names_fail(views(placeholders@), i as int + 1);
                }
                return Err(
                    CustomerGitError::not_found(
                        placeholders[i].as_str(),
                        "The placeholder is not known",
                    ),
                );
            },
        }
        i += 1;
    }
    assert(views(placeholders@).take(placeholders.len() as int) =~= views(placeholders@));
    Ok(names)
}

/// Where one of the first placeholders is not known, one of all is not.
pub proof fn lemma_field_names_fail(placeholders: Seq<Seq<char>>, n: int)
    requires
        0 <= n <= placeholders.len(),
        field_names_of(placeholders.take(n)) is None,
    ensures
        field_names_of(placeholders) is None,
    decreases placeholders.len() - n,
{
    if n == placeholders.len() {
        assert(placeholders.take(n) =~= placeholders);
    } else {
        assert(placeholders.take(n + 1).drop_last() =~= placeholders.take(n));
        lemma_field_names_fail(placeholders, n + 1);
    }
}

/// Where the first records are not all read, not all of them are.
pub proof fn lemma_log_fail(records: Seq<Seq<char>>, names: Seq<Seq<char>>, n: int)
    requires
        0 <= n <= records.len(),
        log_of(records.take(n), names) is None,
    ensures
        log_of(records, names) is None,
    decreases records.len() - n,
{
    if n == records.len() {
        assert(records.take(n) =~= records);
    } else {
        assert(records.take(n + 1).drop_last() =~= records.take(n));
        lemma_log_fail(records, names, n + 1);
    }
}

/// Builds the format that asks `git log` for `placeholders`: the
/// placeholders with the field separator between them and the record
/// separator behind them. Fails for a placeholder that is not known.
pub fn commit_log_format(placeholders: &Vec<String>) -> (r: Result<String, CustomerGitError>)
    ensures
        match r {
            Ok(format) => field_names_of(views(placeholders@)) is Some && format@
                == log_format_of(views(placeholders@)),
            Err(e) => field_names_of(views(placeholders@)) is None && e@.kind
                == GitErrorKind::NotFound,
        },
{
    match field_names(placeholders) {
        Ok(_) => {
            let mut format = String::from_str("--pretty=format:");
            let fields = join_first(placeholders, placeholders.len(), PARAM_INTERVAL);
            assert(views(placeholders@).take(placeholders.len() as int) =~= views(placeholders@));
            format.append(fields.as_str());
            format.append(COMMIT_INETRVAL);
            Ok(format)
        },
        Err(e) => Err(e),
    }
}

fn read_record(record: &[char], names: &Vec<String>, field_sep: &[char]) -> (r: Option<
    Vec<LogField>,
>)
    requires
        field_sep@ == PARAM_INTERVAL@,
    ensures
        match r {
            Some(fields) => record_of(record@, views(names@)) == Some(views(fields@)),
            None => record_of(record@, views(names@)) is None,
        },
{
    let mut fields: Vec<LogField> = Vec::new();
    if names.len() == 0 && record.len() == 0 {
        assert(views(fields@) =~= record_of(record@, views(names@))->0);
        return Some(fields);
    }
    let values = split(record, field_sep);
    if values.len() != names.len() {
        return None;
    }
    let mut i: usize = 0;
    while i < names.len()
        invariant
            i <= names.len(),
            values.len() == names.len(),
            fields.len() == i,
            forall|k: int|
                0 <= k < i ==> (#[trigger] fields@[k])@ == (LogFieldView {
                    name: names@[k]@,
                    value: values@[k]@,
                }),
        decreases names.len() - i,
    {
        fields.push(
            LogField { name: names[i].clone(), value: to_text(values[i].as_slice()) },
        );
        i += 1;
    }
    Some(fields)
}

/// Takes the line feed from the start of every piece but the first.
fn strip_line_feeds(parts: Vec<Vec<char>>) -> (lines: Vec<Vec<char>>)
    ensures
        views(lines@) == without_line_feeds(views(parts@)),
{
    let mut lines: Vec<Vec<char>> = Vec::new();
    let mut i: usize = 0;
    while i < parts.len()
        invariant
            i <= parts.len(),
            lines.len() == i,
            forall|k: int|
                0 <= k < i ==> (#[trigger] lines@[k])@ == without_line_feeds(views(parts@))[k],
        decreases parts.len() - i,
    {
        let piece = parts[i].as_slice();
        if i > 0 && piece.len() > 0 && piece[0] == '\n' {
            let rest = vstd::slice::slice_subrange(piece, 1, piece.len());
            assert(rest@ =~= piece@.drop_first());
            lines.push(vstd::slice::slice_to_vec(rest));
        } else {
            lines.push(vstd::slice::slice_to_vec(piece));
        }
        i += 1;
    }
    assert(views(lines@) =~= without_line_feeds(views(parts@)));
    lines
}

/// Takes from what `git` printed the line feed that it puts behind the
/// record separator of every record, so that one record stands right behind
/// the other. This is the first step in reading a log that `git` printed;
/// the second is [`parse_commit_log`].
pub fn strip_record_line_feeds(stdout: &str) -> (text: String)
    ensures
        text@ == without_record_line_feeds(stdout@),
{
    let chars = to_chars(stdout);
    let record_sep = to_chars(COMMIT_INETRVAL);
    let pieces = to_texts(&strip_line_feeds(split(chars.as_slice(), record_sep.as_slice())));
    assert(views(pieces@).take(pieces.len() as int) =~= views(pieces@));
    join_first(&pieces, pieces.len(), COMMIT_INETRVAL)
}

/// Reads a log in which each record is the values of one commit with the
/// field separator between them, and the record separator stands behind
/// each record: one record for each commit, in the order of the output,
/// each with one field for each placeholder, in the order of the
/// placeholders. A value is read exactly as it stands between the
/// separators.
///
/// Fails with `NotFound` for a placeholder that is not known, and with
/// `Parse` where a record has not one field for each placeholder.
pub fn parse_commit_log(stdout: &str, placeholders: &Vec<String>) -> (r: Result<
    Vec<Vec<LogField>>,
    CustomerGitError,
>)
    ensures
        match r {
            Ok(log) => match field_names_of(views(placeholders@)) {
                Some(names) => commit_log_of(stdout@, names) == Some(log_views(log@)),
                None => false,
            },
            Err(e) => match field_names_of(views(placeholders@)) {
                Some(names) => commit_log_of(stdout@, names) is None && e@.kind
                    == GitErrorKind::Parse,
                None => e@.kind == GitErrorKind::NotFound,
            },
        },
{
    let names = match field_names(placeholders) {
        Ok(names) => names,
        Err(e) => {
            return Err(e);
        },
    };
    let chars = to_chars(stdout);
    let record_sep = to_chars(COMMIT_INETRVAL);
    let field_sep = to_chars(PARAM_INTERVAL);
    let mut records = split(chars.as_slice(), record_sep.as_slice());
    let ghost lines = records@;
    if records[records.len() - 1].len() == 0 {
        records.pop();
        assert(views(records@) =~= views(lines).drop_last());
    }
    let mut log: Vec<Vec<LogField>> = Vec::new();
    let mut n: usize = 0;
    while n < records.len()
        invariant
            n <= records.len(),
            field_sep@ == PARAM_INTERVAL@,
            views(records@) == records_of(stdout@),
            field_names_of(views(placeholders@)) == Some(views(names@)),
            log_of(views(records@).take(n as int), views(names@)) == Some(log_views(log@)),
        decreases records.len() - n,
    {
        proof {
            let now = views(records@).take(n as int + 1);
            assert(now.drop_last() =~= views(records@).take(n as int));
        }
        match read_record(records[n].as_slice(), &names, field_sep.as_slice()) {
            Some(fields) => {
                log.push(fields);
            },
            None => {
                proof {
                    lemma_log_fail(views(records@), views(names@), n as int + 1);
                }
                return Err(
                    CustomerGitError::parse("A record has not one field for each placeholder"),
                );
            },
        }
        n += 1;
    }
    assert(views(records@).take(records.len() as int) =~= views(records@));
    Ok(log)
}

} // verus!
