//! The status of files: lines of the form `<flag><score>\t<path>` or, for a
//! renamed file, `<flag><score>\t<old path>\t<new path>`.

use vstd::prelude::*;
use vstd::string::StringExecFns;

use crate::delimiter::PARAM_INTERVAL;
use crate::err::{CustomerGitError, GitErrorKind};
use crate::structs::{
    Author, AuthorView, FileStatus, FileStatusReport, FileStatusReportView, FileStatusType,
    FileStatusView,
};
use crate::text::{
    keep_non_empty, non_empty, split, split_on, to_chars, to_text, trim, trimmed, views,
};

verus! {

/// The status that a flag of one character stands for.
pub open spec fn status_of_flag(flag: Seq<char>) -> FileStatusType {
    if flag == seq!['A'] {
        FileStatusType::Added
    } else if flag == seq!['D'] {
        FileStatusType::Deleted
    } else if flag == seq!['M'] {
        FileStatusType::Modified
    } else if flag == seq!['R'] {
        FileStatusType::Renamed
    } else if flag == seq!['C'] {
        FileStatusType::Copied
    } else if flag == seq!['U'] {
        FileStatusType::Updated
    } else {
        FileStatusType::Unknown
    }
}

/// The status of a column of flags: that of its first character.
pub open spec fn status_of_column(column: Seq<char>) -> FileStatusType {
    status_of_flag(column.take(1))
}

/// The message of a status line: for a renamed file with two paths
/// `<old> => <new>`, else nothing.
pub open spec fn rename_message(status: FileStatusType, columns: Seq<Seq<char>>) -> Seq<char> {
    if status == FileStatusType::Renamed && columns.len() == 3 {
        columns[1] + " => "@ + columns[2]
    } else {
        Seq::empty()
    }
}

/// The status that a line gives, or nothing where the line has no flag or
/// no path.
pub open spec fn status_line_of(line: Seq<char>) -> Option<FileStatusView> {
    let columns = split_on(line, "\t"@);
    if columns.len() < 2 || columns[0].len() == 0 {
        None
    } else {
        let status = status_of_column(columns[0]);
        Some(FileStatusView { path: columns[1], status, message: rename_message(status, columns) })
    }
}

/// The statuses that the lines give, in the order of the lines, or nothing
/// where one of the lines gives none.
pub open spec fn status_lines_of(lines: Seq<Seq<char>>) -> Option<Seq<FileStatusView>>
    decreases lines.len(),
{
    if lines.len() == 0 {
        Some(Seq::empty())
    } else {
        match (status_line_of(lines[0]), status_lines_of(lines.drop_first())) {
            (Some(first), Some(rest)) => Some(seq![first] + rest),
            _ => None,
        }
    }
}

/// The lines of an output that hold something, without the white space
/// around the output.
pub open spec fn filled_lines(stdout: Seq<char>) -> Seq<Seq<char>> {
    non_empty(split_on(trimmed(stdout), "\n"@))
}

/// The statuses that the listing of a diff gives.
pub open spec fn files_status_of(stdout: Seq<char>) -> Option<Seq<FileStatusView>> {
    status_lines_of(filled_lines(stdout))
}

/// The report that the output for one commit gives: a first line with hash,
/// title, author name, author email and time, with the field separator
/// between them, then one status line for each file. Nothing where no line
/// holds something, where the first line has fewer than five fields, and
/// where a status line gives no status.
pub open spec fn commit_file_status_of(stdout: Seq<char>) -> Option<FileStatusReportView> {
    let lines = filled_lines(stdout);
    if lines.len() == 0 {
        None
    } else {
        let info = split_on(trimmed(lines[0]), PARAM_INTERVAL@);
        match status_lines_of(lines.drop_first()) {
            Some(status) => if info.len() < 5 {
                None
            } else {
                Some(
                    FileStatusReportView {
                        title: info[1],
                        hash: info[0],
                        time: info[4],
                        author: AuthorView { name: info[2], email: info[3] },
                        status,
                    },
                )
            },
            None => None,
        }
    }
}

/// The status and the message that the output for one file in one commit
/// gives by its first line, or nothing where no line holds something or the
/// line begins with a tab.
pub open spec fn file_between_commit_status_of(stdout: Seq<char>) -> Option<
    (FileStatusType, Seq<char>),
> {
    let lines = filled_lines(stdout);
    if lines.len() == 0 {
        None
    } else {
        let columns = split_on(lines[0], "\t"@);
        if columns[0].len() == 0 {
            None
        } else {
            let status = status_of_column(columns[0]);
            Some((status, rename_message(status, columns)))
        }
    }
}

/// Reads a flag of one character: `A` added, `D` deleted, `M` modified,
/// `R` renamed, `C` copied, `U` updated, and unknown for anything else.
pub fn parse_file_status(status_flag: &str) -> (status: FileStatusType)
    ensures
        status == status_of_flag(status_flag@),
{
    let chars = to_chars(status_flag);
    flag_status(chars.as_slice())
}

fn flag_status(flag: &[char]) -> (status: FileStatusType)
    ensures
        status == status_of_flag(flag@),
{
    if flag.len() != 1 {
        return FileStatusType::Unknown;
    }
    let c = flag[0];
    assert(flag@ =~= seq![c]);
    if c == 'A' {
        FileStatusType::Added
    } else if c == 'D' {
        FileStatusType::Deleted
    } else if c == 'M' {
        FileStatusType::Modified
    } else if c == 'R' {
        FileStatusType::Renamed
    } else if c == 'C' {
        FileStatusType::Copied
    } else if c == 'U' {
        FileStatusType::Updated
    } else {
        FileStatusType::Unknown
    }
}

/// The status and the message of a line that is divided into columns.
fn columns_status(columns: &Vec<Vec<char>>) -> (r: (FileStatusType, String))
    requires
        columns.len() >= 1,
        columns[0].len() >= 1,
    ensures
        r.0 == status_of_column(views(columns@)[0]),
        r.1@ == rename_message(r.0, views(columns@)),
{
    let first = vstd::slice::slice_subrange(columns[0].as_slice(), 0, 1);
    let status = flag_status(first);
    let mut message = String::new();
    if status == FileStatusType::Renamed && columns.len() == 3 {
        message = to_text(columns[1].as_slice());
        message.append(" => ");
        let new_path = to_text(columns[2].as_slice());
        message.append(new_path.as_str());
    }
    (status, message)
}

fn status_line(line: &[char]) -> (r: Option<FileStatus>)
    ensures
        match r {
            Some(status) => status_line_of(line@) == Some(status@),
            None => status_line_of(line@) is None,
        },
{
    let tab = to_chars("\t");
    let columns = split(line, tab.as_slice());
    if columns.len() < 2 || columns[0].len() == 0 {
        return None;
    }
    let (status, message) = columns_status(&columns);
    Some(FileStatus { path: to_text(columns[1].as_slice()), status, message })
}

fn status_lines(lines: &Vec<Vec<char>>, from: usize) -> (r: Option<Vec<FileStatus>>)
    requires
        from <= lines.len(),
    ensures
        match r {
            Some(status) => status_lines_of(views(lines@).skip(from as int)) == Some(
                views(status@),
            ),
            None => status_lines_of(views(lines@).skip(from as int)) is None,
        },
{
    let ghost rest = views(lines@).skip(from as int);
    if from == lines.len() {
        let status: Vec<FileStatus> = Vec::new();
        return Some(status);
    }
    assert(rest.drop_first() =~= views(lines@).skip(from as int + 1));
    let first = match status_line(lines[from].as_slice()) {
        Some(first) => first,
        None => {
            return None;
        },
    };
    let mut status: Vec<FileStatus> = Vec::new();
    status.push(first);
    let mut i: usize = from + 1;
    loop
        invariant
            from < i <= lines.len(),
            status.len() >= 1,
            status_lines_of(views(lines@).skip(from as int)) == (match status_lines_of(
                views(lines@).skip(i as int),
            ) {
                Some(more) => Some(views(status@) + more),
                None => None,
            }),
        decreases lines.len() - i,
    {
        let ghost here = views(lines@).skip(i as int);
        if i == lines.len() {
            return Some(status);
        }
        assert(here.drop_first() =~= views(lines@).skip(i as int + 1));
        match status_line(lines[i].as_slice()) {
            Some(next) => {
                status.push(next);
            },
            None => {
                return None;
            },
        }
        i += 1;
    }
}

/// The lines of `stdout` that hold something.
fn output_lines(stdout: &str) -> (lines: Vec<Vec<char>>)
    ensures
        views(lines@) == filled_lines(stdout@),
{
    let chars = to_chars(stdout);
    let newline = to_chars("\n");
    keep_non_empty(split(trim(chars.as_slice()), newline.as_slice()))
}

/// Reads one status line.
pub fn parse_status_line(line: &str) -> (r: Result<FileStatus, CustomerGitError>)
    ensures
        match r {
            Ok(status) => status_line_of(line@) == Some(status@),
            Err(e) => status_line_of(line@) is None && e@.kind == GitErrorKind::Parse,
        },
{
    let chars = to_chars(line);
    match status_line(chars.as_slice()) {
        Some(status) => Ok(status),
        None => Err(CustomerGitError::parse("Failed to read a file status line")),
    }
}

/// Reads the status lines of a diff between two commits. The statuses come
/// in the order of the lines.
pub fn parse_files_status(stdout: &str) -> (r: Result<Vec<FileStatus>, CustomerGitError>)
    ensures
        match r {
            Ok(status) => files_status_of(stdout@) == Some(views(status@)),
            Err(e) => files_status_of(stdout@) is None && e@.kind == GitErrorKind::Parse,
        },
{
    let lines = output_lines(stdout);
    assert(views(lines@).skip(0) =~= views(lines@));
    match status_lines(&lines, 0) {
        Some(status) => Ok(status),
        None => Err(CustomerGitError::parse("Failed to read a file status line")),
    }
}

/// Reads the output for one commit: the commit, and the status of each
/// file it touched.
pub fn parse_commit_file_status(stdout: &str) -> (r: Result<FileStatusReport, CustomerGitError>)
    ensures
        match r {
            Ok(report) => commit_file_status_of(stdout@) == Some(report@),
            Err(e) => commit_file_status_of(stdout@) is None && e@.kind == GitErrorKind::Parse,
        },
{
    let lines = output_lines(stdout);
    if lines.len() == 0 {
        return Err(CustomerGitError::parse("The commit gave no output"));
    }
    let field_sep = to_chars(PARAM_INTERVAL);
    let info = split(trim(lines[0].as_slice()), field_sep.as_slice());
    let status = match status_lines(&lines, 1) {
        Some(status) => status,
        None => {
            return Err(CustomerGitError::parse("Failed to read a file status line"));
        },
    };
    if info.len() < 5 {
        return Err(CustomerGitError::parse("Failed to read the commit line"));
    }
    Ok(
        FileStatusReport {
            title: to_text(info[1].as_slice()),
            hash: to_text(info[0].as_slice()),
            time: to_text(info[4].as_slice()),
            author: Author {
                name: to_text(info[2].as_slice()),
                email: to_text(info[3].as_slice()),
            },
            status,
        },
    )
}

/// Reads the status of one file in one commit from the first line of the
/// output, and for a renamed file the message `<old> => <new>`.
pub fn parse_file_between_commit_status(stdout: &str) -> (r: Result<
    (FileStatusType, String),
    CustomerGitError,
>)
    ensures
        match r {
            Ok((status, message)) => file_between_commit_status_of(stdout@) == Some(
                (status, message@),
            ),
            Err(e) => file_between_commit_status_of(stdout@) is None && e@.kind
                == GitErrorKind::Parse && e@.message == "No status found"@,
        },
{
    let lines = output_lines(stdout);
    if lines.len() == 0 {
        return Err(CustomerGitError::parse("No status found"));
    }
    let tab = to_chars("\t");
    let columns = split(lines[0].as_slice(), tab.as_slice());
    if columns[0].len() == 0 {
        return Err(CustomerGitError::parse("No status found"));
    }
    Ok(columns_status(&columns))
}

} // verus!
