use textfsm_rs::{
    compile, interpret, DataRecord, DataRecordConversion, FsmError, NextState, TextFSM,
    TextFSMParser, Value,
};

fn single(text: &str) -> Value {
    Value::Single(text.to_string())
}

fn list(items: &[&str]) -> Value {
    Value::List(items.iter().map(|s| s.to_string()).collect())
}

fn record(entries: &[(&str, Value)]) -> DataRecord {
    let mut out = DataRecord::new();
    for (name, value) in entries {
        out.set(name.to_string(), value.clone());
    }
    out
}

fn machine(template: &str) -> TextFSM {
    TextFSM::new(TextFSMParser::compile(template).unwrap())
}

fn lines(input: &[&str]) -> Vec<String> {
    input.iter().map(|s| s.to_string()).collect()
}

fn run(template: &str, input: &[&str]) -> Result<Vec<DataRecord>, FsmError> {
    machine(template).parse_lines(&lines(input), None)
}

const NAMES: &str = "Value Required name (\\S+)\n\nStart\n  ^name: $name -> Record\n";

const HOSTS: &str = "Value Filldown host (\\S+)\nValue iface (\\S+)\n\nStart\n  ^host $host -> Continue\n  ^iface $iface -> Record\n";

#[test]
fn new_machine_starts_in_start_with_nothing() {
    let fsm = machine(NAMES);
    assert_eq!(fsm.curr_state(), "Start");
    assert!(fsm.curr_record().is_empty());
    assert!(fsm.filldown_record().is_empty());
    assert!(fsm.records().is_empty());
    assert_eq!(fsm.parser().values().len(), 1);
}

#[test]
fn required_name_records_each_line() {
    assert_eq!(
        run(NAMES, &["name: alice", "name: bob"]),
        Ok(vec![record(&[("name", single("alice"))]), record(&[("name", single("bob"))])])
    );
}

#[test]
fn filldown_persists_across_records() {
    let mut fsm = machine(HOSTS);
    for line in ["host r1", "iface eth0", "iface eth1"] {
        assert_eq!(fsm.advance(line), None);
    }
    assert_eq!(
        fsm.records(),
        &vec![
            record(&[("host", single("r1")), ("iface", single("eth0"))]),
            record(&[("host", single("r1")), ("iface", single("eth1"))]),
        ]
    );
    assert_eq!(fsm.curr_record(), &record(&[("host", single("r1"))]));
    assert_eq!(fsm.filldown_record(), &record(&[("host", single("r1"))]));
}

#[test]
fn end_of_input_records_what_is_at_hand() {
    let out = run(HOSTS, &["host r1", "iface eth0", "iface eth1"]).unwrap();
    assert_eq!(
        out,
        vec![
            record(&[("host", single("r1")), ("iface", single("eth0"))]),
            record(&[("host", single("r1")), ("iface", single("eth1"))]),
            record(&[("host", single("r1")), ("iface", single(""))]),
        ]
    );
}

#[test]
fn end_of_input_makes_the_last_record() {
    let template = "Value name (\\S+)\nValue List item (\\d+)\n\nStart\n  ^name: $name\n  ^item: $item\n";
    let mut fsm = machine(template);
    let out = fsm.parse_lines(&lines(&["name: n", "item: 1", "item: 2"]), None);
    assert_eq!(out, Ok(vec![record(&[("name", single("n")), ("item", list(&["1", "2"]))])]));
    assert_eq!(fsm.curr_state(), "End");
}

#[test]
fn empty_input_emits_nothing() {
    let mut fsm = machine(NAMES);
    assert_eq!(fsm.parse_lines(&vec![], None), Ok(vec![]));
    assert_eq!(fsm.curr_state(), "End");
}

#[test]
fn clearall_suppresses_the_next_record() {
    let template = "Value Filldown,Required host (\\S+)\nValue iface (\\S+)\n\nStart\n  ^host $host\n  ^iface $iface -> Record\n  ^reset -> Clearall\n";
    let out = run(template, &["host r1", "iface eth0", "reset", "iface eth1"]);
    assert_eq!(out, Ok(vec![record(&[("host", single("r1")), ("iface", single("eth0"))])]));
}

#[test]
fn clearall_empties_both_records() {
    let template = "Value Filldown host (\\S+)\nValue iface (\\S+)\n\nStart\n  ^host $host\n  ^iface $iface\n  ^reset -> Clearall\n";
    let mut fsm = machine(template);
    fsm.advance("host r1");
    fsm.advance("iface e0");
    assert_eq!(fsm.curr_record().len(), 2);
    assert_eq!(fsm.filldown_record().len(), 1);
    fsm.advance("reset");
    assert!(fsm.curr_record().is_empty());
    assert!(fsm.filldown_record().is_empty());
}

#[test]
fn clear_keeps_filldown_values() {
    let template = "Value Filldown host (\\S+)\nValue iface (\\S+)\n\nStart\n  ^host $host\n  ^iface $iface\n  ^clear -> Clear\n  ^done -> Record\n";
    let mut fsm = machine(template);
    for line in ["host r1", "iface e0", "clear"] {
        assert_eq!(fsm.advance(line), None);
    }
    assert_eq!(fsm.curr_record(), &record(&[("host", single("r1"))]));
    assert_eq!(fsm.advance("done"), None);
    assert_eq!(fsm.records(), &vec![record(&[("host", single("r1")), ("iface", single(""))])]);
    assert_eq!(fsm.advance("iface e1"), None);
    assert_eq!(fsm.advance("done"), None);
    assert_eq!(
        fsm.records()[1],
        record(&[("host", single("r1")), ("iface", single("e1"))])
    );
}

#[test]
fn record_without_required_value_changes_nothing() {
    let template = "Value Required name (\\S+)\nValue age (\\d+)\n\nStart\n  ^age $age -> Record\n  ^name $name -> Record\n";
    let mut fsm = machine(template);
    assert_eq!(fsm.parse_line("age 7"), Ok(None));
    assert!(fsm.records().is_empty());
    assert_eq!(fsm.curr_record(), &record(&[("age", single("7"))]));
    assert_eq!(fsm.parse_line("name bob"), Ok(None));
    assert_eq!(fsm.records(), &vec![record(&[("age", single("7")), ("name", single("bob"))])]);
    assert!(fsm.curr_record().is_empty());
}

#[test]
fn record_of_an_empty_record_emits_nothing() {
    let template = "Value name (\\S+)\n\nStart\n  ^go -> Record\n";
    assert_eq!(run(template, &["go", "go"]), Ok(vec![]));
}

#[test]
fn list_values_gather_and_scalars_overwrite() {
    let template = "Value List item (\\d+)\nValue last (\\d+)\n\nStart\n  ^n $item $last\n  ^end -> Record\n";
    let out = run(template, &["n 1 10", "n 2 20", "end"]);
    assert_eq!(out, Ok(vec![record(&[("item", list(&["1", "2"])), ("last", single("20"))])]));
}

#[test]
fn every_occurrence_in_a_line_binds() {
    let template = "Value List n (\\d+)\nValue u ([a-z])\n\nStart\n  $n$u -> Record\n";
    let out = run(template, &["1a 22b 333c"]);
    assert_eq!(out, Ok(vec![record(&[("n", list(&["1", "22", "333"])), ("u", single("c"))])]));
}

#[test]
fn group_that_took_no_part_leaves_a_placeholder() {
    let template = "Value List item (\\d+)\nValue word ([a-z]+)\n\nStart\n  ^(?:$item|$word)$$ -> Record\n";
    let out = run(template, &["abc", "42"]);
    assert_eq!(
        out,
        Ok(vec![
            record(&[("item", list(&["None"])), ("word", single("abc"))]),
            record(&[("item", list(&["42"])), ("word", single(""))]),
        ])
    );
}

#[test]
fn defaults_fill_the_names_never_set() {
    let template = "Value a (\\d+)\nValue List b (\\d+)\nValue c (\\d+)\n\nStart\n  ^a $a -> Record\n";
    assert_eq!(
        run(template, &["a 1"]),
        Ok(vec![record(&[("a", single("1")), ("b", list(&[])), ("c", single(""))])])
    );
}

#[test]
fn continue_hands_the_line_to_the_next_rule() {
    let template = "Value a (\\d+)\nValue b (\\d+)\n\nStart\n  ^$a -> Continue\n  ^\\d+ $b -> Record\n";
    assert_eq!(
        run(template, &["1 2"]),
        Ok(vec![record(&[("a", single("1")), ("b", single("2"))])])
    );
}

#[test]
fn first_matching_rule_without_continue_ends_the_line() {
    let template = "Value a (\\d+)\nValue b (\\d+)\n\nStart\n  ^$a\n  ^\\d+ $b -> Record\n";
    let mut fsm = machine(template);
    assert_eq!(fsm.parse_line("1 2"), Ok(None));
    assert_eq!(fsm.curr_record(), &record(&[("a", single("1"))]));
    assert!(fsm.records().is_empty());
}

#[test]
fn line_that_matches_no_rule_changes_nothing() {
    let mut fsm = machine(HOSTS);
    assert_eq!(fsm.parse_line("nothing here"), Ok(None));
    assert!(fsm.curr_record().is_empty());
    assert_eq!(fsm.curr_state(), "Start");
}

#[test]
fn next_state_is_returned_and_taken() {
    let template = "Value a (\\d+)\n\nStart\n  ^go -> Second\n\nSecond\n  ^$a -> Record Start\n";
    let mut fsm = machine(template);
    assert_eq!(fsm.parse_line("go"), Ok(Some(NextState::NamedState("Second".to_string()))));
    assert_eq!(fsm.curr_state(), "Start");
    assert_eq!(fsm.advance("go"), None);
    assert_eq!(fsm.curr_state(), "Second");
    assert_eq!(fsm.advance("5"), None);
    assert_eq!(fsm.curr_state(), "Start");
    assert_eq!(fsm.records(), &vec![record(&[("a", single("5"))])]);
}

#[test]
fn lines_behind_end_are_not_read() {
    let template = "Value a (\\d+)\n\nStart\n  ^$a -> Record\n  ^stop -> End\n";
    let mut fsm = machine(template);
    let out = fsm.parse_lines(&lines(&["1", "stop", "2"]), None);
    assert_eq!(out, Ok(vec![record(&[("a", single("1"))])]));
    assert_eq!(fsm.curr_state(), "End");
}

#[test]
fn reaching_end_skips_the_last_record() {
    let template = "Value a (\\d+)\n\nStart\n  ^$a\n  ^stop -> End\n";
    assert_eq!(run(template, &["1", "stop"]), Ok(vec![]));
    assert_eq!(run(template, &["1"]), Ok(vec![record(&[("a", single("1"))])]));
}

#[test]
fn own_eof_state_replaces_the_last_record() {
    let template = "Value a (\\d+)\n\nStart\n  ^$a\n\nEOF\n";
    assert_eq!(run(template, &["1"]), Ok(vec![]));
}

#[test]
fn error_action_fails_the_run() {
    let template = "Value a (\\d+)\n\nStart\n  ^$a -> Record\n  ^bad -> Error \"no good\"\n  ^worse -> Error\n";
    let mut fsm = machine(template);
    let out = fsm.parse_lines(&lines(&["1", "bad", "2"]), None);
    assert_eq!(out, Err(FsmError::ErrorState(Some("no good".to_string()))));
    assert_eq!(fsm.records().len(), 1);
    assert_eq!(run(template, &["worse"]), Err(FsmError::ErrorState(None)));
}

#[test]
fn unknown_state_fails_when_it_is_taken() {
    let template = "Value a (\\d+)\n\nStart\n  ^$a -> Record\n  ^go -> Nowhere\n";
    assert_eq!(run(template, &["1"]).map(|r| r.len()), Ok(1));
    assert_eq!(run(template, &["1", "go"]), Err(FsmError::UnknownState("Nowhere".to_string())));
}

#[test]
fn machine_without_a_start_state_fails_at_the_first_line() {
    let template = "Value a (\\d+)\n\nOther\n  ^$a -> Record\n";
    let mut fsm = machine(template);
    assert_eq!(fsm.parse_line("1"), Err(FsmError::UnknownState("Start".to_string())));
    assert_eq!(fsm.set_curr_state("Other"), Ok(()));
    assert_eq!(fsm.parse_line("1"), Ok(None));
    assert_eq!(fsm.records().len(), 1);
}

#[test]
fn set_curr_state_takes_end_and_known_states_only() {
    let mut fsm = machine(NAMES);
    assert_eq!(fsm.set_curr_state("End"), Ok(()));
    assert_eq!(fsm.curr_state(), "End");
    assert_eq!(fsm.set_curr_state("EOF"), Ok(()));
    assert_eq!(fsm.set_curr_state("Start"), Ok(()));
    assert_eq!(fsm.set_curr_state("Nope"), Err(FsmError::UnknownState("Nope".to_string())));
    assert_eq!(fsm.curr_state(), "Start");
}

#[test]
fn value_options_are_looked_up_by_name() {
    let fsm = machine("Value Filldown a (x)\nValue List b (y)\n\nStart\n  ^$a$b\n");
    assert_eq!(fsm.is_filldown_value("a"), Some(true));
    assert_eq!(fsm.is_filldown_value("b"), Some(false));
    assert_eq!(fsm.is_filldown_value("c"), None);
    assert_eq!(fsm.is_list_value("a"), Some(false));
    assert_eq!(fsm.is_list_value("b"), Some(true));
    assert_eq!(fsm.is_list_value("c"), None);
}

#[test]
fn insert_value_wraps_by_declaration() {
    let fsm = machine("Value Filldown a (x)\nValue List b (y)\nValue Filldown,List c (z)\n\nStart\n  ^$a$b$c\n");
    let mut current = DataRecord::new();
    let mut filldown = DataRecord::new();
    fsm.insert_value(&mut current, &mut filldown, "a", Some("1".to_string()));
    fsm.insert_value(&mut current, &mut filldown, "a", Some("2".to_string()));
    fsm.insert_value(&mut current, &mut filldown, "b", Some("3".to_string()));
    fsm.insert_value(&mut current, &mut filldown, "b", Some("4".to_string()));
    fsm.insert_value(&mut current, &mut filldown, "c", None);
    fsm.insert_value(&mut current, &mut filldown, "c", Some("5".to_string()));
    assert_eq!(
        current,
        record(&[("a", single("2")), ("b", list(&["3", "4"])), ("c", list(&["None", "5"]))])
    );
    assert_eq!(filldown, record(&[("a", single("2")), ("c", list(&["None", "5"]))]));
    let mut other = DataRecord::new();
    fsm.insert_value(&mut other, &mut filldown, "a", None);
    assert_eq!(other, record(&[("a", single(""))]));
}

#[test]
fn compiling_twice_gives_tables_that_run_alike() {
    let input = lines(&["host r1", "iface eth0", "junk", "iface eth1", "host r2", "iface x"]);
    let mut one = machine(HOSTS);
    let mut two = machine(HOSTS);
    let first = one.parse_lines(&input, None);
    let second = two.parse_lines(&input, None);
    assert_eq!(first, second);
    assert_eq!(first.unwrap().len(), 4);
    let mut shared = TextFSM::new(one.parser().clone());
    assert_eq!(shared.parse_lines(&input, None), second);
}

#[test]
fn lowercase_keys_lowers_every_name() {
    let records = vec![
        record(&[("Name", single("Alice")), ("IFACE", list(&["E0"]))]),
        record(&[("x", single("y"))]),
    ];
    assert_eq!(
        TextFSM::lowercase_keys(&records),
        vec![
            record(&[("name", single("Alice")), ("iface", list(&["E0"]))]),
            record(&[("x", single("y"))]),
        ]
    );
}

#[test]
fn lowercase_keys_lets_the_later_name_count() {
    let records = vec![record(&[("Name", single("1")), ("NAME", single("2"))])];
    assert_eq!(TextFSM::lowercase_keys(&records), vec![record(&[("name", single("2"))])]);
}

#[test]
fn run_hands_out_converted_records() {
    let template = "Value Required NAME (\\S+)\n\nStart\n  ^name: $NAME -> Record\n";
    let mut fsm = machine(template);
    let out = fsm.parse_lines(&lines(&["name: Alice"]), Some(DataRecordConversion::LowercaseKeys));
    assert_eq!(out, Ok(vec![record(&[("name", single("Alice"))])]));
    assert_eq!(fsm.records(), &vec![record(&[("NAME", single("Alice"))])]);
}

#[test]
fn backtracking_rules_run_like_the_others() {
    let template = "Value word (\\w+)\n\nStart\n  ^$word(?=!) -> Record\n";
    assert_eq!(
        run(template, &["hey!", "you", "there!"]),
        Ok(vec![record(&[("word", single("hey"))]), record(&[("word", single("there"))])])
    );
}

#[test]
fn finish_ends_a_run_once() {
    let mut fsm = machine(NAMES);
    assert_eq!(fsm.advance("name: a"), None);
    assert_eq!(fsm.finish(), None);
    assert_eq!(fsm.curr_state(), "End");
    assert_eq!(fsm.records().len(), 1);
    assert_eq!(fsm.finish(), None);
    assert_eq!(fsm.records().len(), 1);
}

#[test]
fn copy_of_a_machine_runs_on_its_own() {
    let mut fsm = machine(HOSTS);
    assert_eq!(fsm.advance("host r1"), None);
    let mut copy = fsm.clone();
    assert_eq!(copy.advance("iface e0"), None);
    assert_eq!(copy.records().len(), 1);
    assert!(fsm.records().is_empty());
    assert_eq!(fsm.curr_record(), &record(&[("host", single("r1"))]));
    assert_eq!(copy.curr_record(), fsm.curr_record());
}

#[test]
fn engine_that_gives_up_fails_the_line() {
    let template = "Value a (\\d+)\n\nStart\n  ^$a -> Record\n  (x+x+)+(?>y) -> Record\n";
    let mut fsm = machine(template);
    let input = lines(&["1", "xxxxxxxxxxxxxxxxxxxxxxxxxxxxxxxxxxxxxxxxxxxxxxxx", "2"]);
    assert_eq!(
        fsm.parse_lines(&input, None),
        Err(FsmError::MatchFailed("(x+x+)+(?>y)".to_string()))
    );
    assert_eq!(fsm.records().len(), 1);
    assert_eq!(fsm.curr_state(), "Start");
}

#[test]
fn one_table_serves_many_runs() {
    let table = compile(HOSTS).unwrap();
    let first = interpret(&table, &lines(&["host r1", "iface e0"]));
    let second = interpret(&table, &lines(&["iface e9"]));
    let again = interpret(&table, &lines(&["host r1", "iface e0"]));
    assert_eq!(first, again);
    assert_eq!(first.unwrap()[0], record(&[("host", single("r1")), ("iface", single("e0"))]));
    assert_eq!(second, Ok(vec![record(&[("host", single("")), ("iface", single("e9"))])]));
    let other = compile(HOSTS).unwrap();
    assert_eq!(interpret(&other, &lines(&["iface e9"])), second);
}
