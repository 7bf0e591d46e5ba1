use git_util::delimiter::{
    commit_log_format, format_key, get_format_key_map, parse_commit_log,
    strip_record_line_feeds, LogField, COMMIT_INETRVAL, PARAM_INTERVAL,
};
use git_util::err::GitErrorKind;

fn strings(items: &[&str]) -> Vec<String> {
    items.iter().map(|s| s.to_string()).collect()
}

fn field(name: &str, value: &str) -> LogField {
    LogField { name: name.to_string(), value: value.to_string() }
}

fn render(records: &[Vec<&str>]) -> String {
    let mut text = String::new();
    for record in records {
        text.push_str(&record.join(PARAM_INTERVAL));
        text.push_str(COMMIT_INETRVAL);
    }
    text
}

#[test]
fn separators_are_fixed() {
    assert_eq!(PARAM_INTERVAL, "<<PARAM_INTERVAL>>");
    assert_eq!(COMMIT_INETRVAL, "<<COMMIT_INETRVAL>>");
}

#[test]
fn key_table_holds_the_known_placeholders() {
    let table = get_format_key_map();
    assert_eq!(table.len(), 23);
    assert_eq!(table[0], ("%H".to_string(), "hashL".to_string()));
    assert_eq!(table[22], ("%N".to_string(), "notes".to_string()));
    let mut keys: Vec<&String> = table.iter().map(|pair| &pair.0).collect();
    keys.sort();
    keys.dedup();
    assert_eq!(keys.len(), 23);
    assert_eq!(format_key("%an"), Some("authorName".to_string()));
    assert_eq!(format_key("%H"), Some("hashL".to_string()));
    assert_eq!(format_key("%h"), Some("hashS".to_string()));
    assert_eq!(format_key("%B"), Some("bodyNoTrailingSlash".to_string()));
    assert_eq!(format_key("%ct"), Some("committerDateTimeStamp".to_string()));
    assert_eq!(format_key("%zz"), None);
    assert_eq!(format_key(""), None);
    assert_eq!(format_key("%ai"), None);
}

#[test]
fn format_joins_placeholders_with_the_separators() {
    assert_eq!(
        commit_log_format(&strings(&["%H", "%an", "%s"])),
        Ok("--pretty=format:%H<<PARAM_INTERVAL>>%an<<PARAM_INTERVAL>>%s<<COMMIT_INETRVAL>>"
            .to_string())
    );
    assert_eq!(
        commit_log_format(&strings(&["%h"])),
        Ok("--pretty=format:%h<<COMMIT_INETRVAL>>".to_string())
    );
    assert_eq!(
        commit_log_format(&strings(&[])),
        Ok("--pretty=format:<<COMMIT_INETRVAL>>".to_string())
    );
}

#[test]
fn unknown_placeholder_is_not_found() {
    let e = commit_log_format(&strings(&["%H", "%zz"])).unwrap_err();
    assert_eq!(e.kind, GitErrorKind::NotFound);
    assert_eq!(e.path, "%zz");
    let e = parse_commit_log("", &strings(&["%q"])).unwrap_err();
    assert_eq!(e.kind, GitErrorKind::NotFound);
}

#[test]
fn printed_values_are_read_back() {
    let records = vec![
        vec!["abc123", "Ann Lee", "Fix: a < b and c > d"],
        vec!["def456", "", "second << commit >>"],
        vec!["", "", ""],
        vec!["0", "<PARAM_INTERVAL>", "<<COMMIT_INETRVAL>"],
    ];
    let log = parse_commit_log(&render(&records), &strings(&["%H", "%an", "%s"])).unwrap();
    assert_eq!(log.len(), records.len());
    for (read, printed) in log.iter().zip(records.iter()) {
        assert_eq!(
            read,
            &vec![
                field("hashL", printed[0]),
                field("authorName", printed[1]),
                field("message", printed[2]),
            ]
        );
    }
}

#[test]
fn log_as_git_prints_it_is_read_in_two_steps() {
    let out = "h1<<PARAM_INTERVAL>>ann<<COMMIT_INETRVAL>>\nh2<<PARAM_INTERVAL>>bob<<COMMIT_INETRVAL>>\n";
    let records = strip_record_line_feeds(out);
    assert_eq!(
        records,
        "h1<<PARAM_INTERVAL>>ann<<COMMIT_INETRVAL>>h2<<PARAM_INTERVAL>>bob<<COMMIT_INETRVAL>>"
    );
    assert_eq!(
        parse_commit_log(&records, &strings(&["%h", "%an"])),
        Ok(vec![
            vec![field("hashS", "h1"), field("authorName", "ann")],
            vec![field("hashS", "h2"), field("authorName", "bob")],
        ])
    );
}

#[test]
fn line_feeds_behind_record_separators_are_taken_away() {
    assert_eq!(strip_record_line_feeds(""), "");
    assert_eq!(strip_record_line_feeds("\na\n"), "\na\n");
    assert_eq!(
        strip_record_line_feeds("\na<<COMMIT_INETRVAL>>\n\nb\n<<COMMIT_INETRVAL>>c"),
        "\na<<COMMIT_INETRVAL>>\nb\n<<COMMIT_INETRVAL>>c"
    );
    assert_eq!(
        strip_record_line_feeds("a<<PARAM_INTERVAL>>\nb<<COMMIT_INETRVAL>>"),
        "a<<PARAM_INTERVAL>>\nb<<COMMIT_INETRVAL>>"
    );
}

#[test]
fn white_space_around_a_value_is_read_back() {
    let out = render(&[vec![" a ", "\tb\n"], vec!["  ", "\u{a0}c "]]);
    assert_eq!(
        parse_commit_log(&out, &strings(&["%s", "%b"])),
        Ok(vec![
            vec![field("message", " a "), field("body", "\tb\n")],
            vec![field("message", "  "), field("body", "\u{a0}c ")],
        ])
    );
}

#[test]
fn values_that_begin_with_a_line_feed_are_read_back() {
    let out = render(&[vec!["a"], vec!["\nb"], vec!["\n"]]);
    assert_eq!(
        parse_commit_log(&out, &strings(&["%s"])),
        Ok(vec![
            vec![field("message", "a")],
            vec![field("message", "\nb")],
            vec![field("message", "\n")],
        ])
    );
    let printed_by_git = "a<<COMMIT_INETRVAL>>\n\nb<<COMMIT_INETRVAL>>\n\n<<COMMIT_INETRVAL>>";
    assert_eq!(
        parse_commit_log(&strip_record_line_feeds(printed_by_git), &strings(&["%s"])),
        Ok(vec![
            vec![field("message", "a")],
            vec![field("message", "\nb")],
            vec![field("message", "\n")],
        ])
    );
}

#[test]
fn log_without_placeholders_has_records_without_fields() {
    let out = "<<COMMIT_INETRVAL>><<COMMIT_INETRVAL>>";
    assert_eq!(parse_commit_log(out, &strings(&[])), Ok(vec![vec![], vec![]]));
    assert_eq!(parse_commit_log("", &strings(&[])), Ok(vec![]));
}

#[test]
fn empty_output_is_an_empty_log() {
    assert_eq!(parse_commit_log("", &strings(&["%H"])), Ok(vec![]));
    assert_eq!(parse_commit_log("", &strings(&["%H", "%s"])), Ok(vec![]));
    assert_eq!(
        parse_commit_log(" \n", &strings(&["%H"])),
        Ok(vec![vec![field("hashL", " \n")]])
    );
    let e = parse_commit_log(" \n", &strings(&["%H", "%s"])).unwrap_err();
    assert_eq!(e.kind, GitErrorKind::Parse);
}

#[test]
fn only_one_empty_record_is_dropped_at_the_end() {
    let out = render(&[vec!["a"], vec![""], vec![""]]);
    assert_eq!(
        parse_commit_log(&out, &strings(&["%s"])),
        Ok(vec![vec![field("message", "a")], vec![field("message", "")], vec![field("message", "")]])
    );
}

#[test]
fn field_count_mismatch_is_a_parse_error() {
    let out = render(&[vec!["a", "b"], vec!["c"]]);
    let e = parse_commit_log(&out, &strings(&["%H", "%s"])).unwrap_err();
    assert_eq!(e.kind, GitErrorKind::Parse);
    let out = render(&[vec!["a", "b", "c"]]);
    let e = parse_commit_log(&out, &strings(&["%H", "%s"])).unwrap_err();
    assert_eq!(e.kind, GitErrorKind::Parse);
    let e = parse_commit_log("x", &strings(&[])).unwrap_err();
    assert_eq!(e.kind, GitErrorKind::Parse);
}

#[test]
fn repeated_placeholder_gives_repeated_field() {
    let out = render(&[vec!["a", "b"]]);
    assert_eq!(
        parse_commit_log(&out, &strings(&["%s", "%s"])),
        Ok(vec![vec![field("message", "a"), field("message", "b")]])
    );
}
