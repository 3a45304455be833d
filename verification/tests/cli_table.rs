use textfsm_rs::cli_table::{CliTable, CliTableError, CliTableRow, ParsedCliTable};
use textfsm_rs::CompileError;

fn strings(items: &[&str]) -> Vec<String> {
    items.iter().map(|s| s.to_string()).collect()
}

fn index() -> CliTable {
    let headers = strings(&["Template", "Hostname", "Platform", "Command"]);
    let records = vec![
        strings(&["show_version.textfsm", ".*", "ios", "sh[[ow]] ver[[sion]]"]),
        strings(&["a.textfsm:b.textfsm", ".*", "ios", "sh[[ow]] ip route"]),
        strings(&["c.textfsm", ".*", "junos", "show version"]),
    ];
    let table = ParsedCliTable::from_records("templates/index", &headers, &records).unwrap();
    CliTable::from_tables(vec![table]).unwrap()
}

#[test]
fn expand_string_nests_each_character() {
    assert_eq!(CliTable::expand_string(""), "");
    assert_eq!(CliTable::expand_string("a"), "(a)?");
    assert_eq!(CliTable::expand_string("abc"), "(a(b(c)?)?)?");
}

#[test]
fn expand_brackets_writes_optional_endings_out() {
    assert_eq!(CliTable::expand_brackets("show version"), "show version");
    assert_eq!(CliTable::expand_brackets("sh[[ow]] ver[[sion]]"), "sh(o(w)?)? ver(s(i(o(n)?)?)?)?");
    assert_eq!(CliTable::expand_brackets("[[]]x"), "x");
    assert_eq!(CliTable::expand_brackets("a[b]c"), "a[b]c");
}

#[test]
fn expand_brackets_keeps_an_unclosed_bracket() {
    assert_eq!(CliTable::expand_brackets("sh[[ow"), "sh[[ow");
    assert_eq!(CliTable::expand_brackets("a[[b]]c[[d"), "a(b)?c[[d");
    assert_eq!(CliTable::expand_brackets("a[[b]c"), "a[[b]c");
}

#[test]
fn rows_come_from_the_named_columns() {
    let headers = strings(&["Command", "Template", "Extra"]);
    let records = vec![strings(&["show x", "one:two", "ignored"]), strings(&["show y", "", ""])];
    let table = ParsedCliTable::from_records("idx", &headers, &records).unwrap();
    assert_eq!(table.fname, "idx");
    assert_eq!(
        table.rows,
        vec![
            CliTableRow {
                templates: strings(&["one", "two"]),
                hostname: None,
                platform: None,
                command: "show x".to_string(),
            },
            CliTableRow {
                templates: strings(&[""]),
                hostname: None,
                platform: None,
                command: "show y".to_string(),
            },
        ]
    );
}

#[test]
fn index_needs_template_and_command() {
    let records = vec![strings(&["a", "b"])];
    assert_eq!(
        ParsedCliTable::from_records("idx", &strings(&["Command", "Platform"]), &records),
        Err(CliTableError::NoTemplate)
    );
    assert_eq!(
        ParsedCliTable::from_records("idx", &strings(&["Template", "Platform"]), &records),
        Err(CliTableError::NoCommand)
    );
    assert_eq!(
        ParsedCliTable::from_records("idx", &strings(&["Template", "Command", "Platform"]), &records),
        Err(CliTableError::ShortRecord(0))
    );
}

#[test]
fn rules_are_grouped_by_platform() {
    let table = index();
    let groups = table.platform_regex_rules();
    assert_eq!(groups.len(), 2);
    assert_eq!(groups[0].platform, "ios");
    assert_eq!(groups[0].rules.len(), 2);
    assert_eq!(groups[0].rules[1].row_index, 1);
    assert_eq!(groups[0].rules[0].command_regex.as_str(), "sh(o(w)?)? ver(s(i(o(n)?)?)?)?");
    assert_eq!(groups[1].platform, "junos");
    assert_eq!(groups[1].rules[0].row_index, 2);
    assert_eq!(table.tables().len(), 1);
}

#[test]
fn rows_without_platform_share_one() {
    let headers = strings(&["Template", "Command"]);
    let records = vec![strings(&["t", "show a"]), strings(&["u", "show b"])];
    let table = ParsedCliTable::from_records("idx", &headers, &records).unwrap();
    let index = CliTable::from_tables(vec![table]).unwrap();
    assert_eq!(index.platform_regex_rules().len(), 1);
    assert_eq!(index.platform_regex_rules()[0].platform, "no-platform");
    let found = index.get_template_for_command("no-platform", "show b").unwrap().unwrap();
    assert_eq!(found.1.templates, strings(&["u"]));
}

#[test]
fn command_finds_the_first_rule_that_takes_it() {
    let table = index();
    let (fname, row) = table.get_template_for_command("ios", "sho ver").unwrap().unwrap();
    assert_eq!(fname, "templates/index");
    assert_eq!(row.templates, strings(&["show_version.textfsm"]));
    let (_, row) = table.get_template_for_command("ios", "sh ip route").unwrap().unwrap();
    assert_eq!(row.templates, strings(&["a.textfsm", "b.textfsm"]));
    assert_eq!(table.get_template_for_command("ios", "ping"), Ok(None));
    assert_eq!(table.get_template_for_command("junos", "show versio"), Ok(None));
}

#[test]
fn unknown_platform_is_an_error() {
    assert_eq!(
        index().get_template_for_command("eos", "show version"),
        Err(CliTableError::UnknownPlatform("eos".to_string()))
    );
}

#[test]
fn command_that_is_no_pattern_is_an_error() {
    let headers = strings(&["Template", "Command"]);
    let records = vec![strings(&["t", "show (a"])];
    let table = ParsedCliTable::from_records("idx", &headers, &records).unwrap();
    let error = CliTable::from_tables(vec![table]).err();
    assert!(matches!(
        error,
        Some(CliTableError::BadCommand(CompileError::BadPattern { .. }))
    ));
}

#[test]
fn engine_that_gives_up_fails_the_look_up() {
    let headers = strings(&["Template", "Command"]);
    let records = vec![strings(&["t", "show"]), strings(&["u", "(x+x+)+(?>y)"])];
    let table = ParsedCliTable::from_records("idx", &headers, &records).unwrap();
    let index = CliTable::from_tables(vec![table]).unwrap();
    assert_eq!(
        index.get_template_for_command("no-platform", "xxxxxxxxxxxxxxxxxxxxxxxxxxxxxxxxxxxxxxxxxxxxxxxx"),
        Err(CliTableError::MatchFailed(1))
    );
    assert!(index.get_template_for_command("no-platform", "show").unwrap().is_some());
}
