use textfsm_rs::varsubst::{ParseChunk, VariableParser};
use textfsm_rs::{
    CompileError, LineAction, MultiRegex, NextState, RecordAction, RuleTransition, StateRule,
    TextFSMParser, ValueDefinition,
};

fn text(s: &str) -> ParseChunk {
    ParseChunk::Text(s.to_string())
}

fn var(s: &str) -> ParseChunk {
    ParseChunk::Variable(s.to_string())
}

fn value(name: &str, pattern: &str, is_list: bool) -> ValueDefinition {
    ValueDefinition {
        name: name.to_string(),
        is_filldown: false,
        is_key: false,
        is_required: false,
        is_list,
        is_fillup: false,
        regex_pattern: pattern.to_string(),
        options: None,
    }
}

fn plain(rule_match: &str) -> StateRule {
    StateRule { rule_match: rule_match.to_string(), transition: RuleTransition::default() }
}

fn transition(line_action: LineAction, record_action: RecordAction) -> RuleTransition {
    RuleTransition { line_action, record_action }
}

#[test]
fn dollar_string_without_dollar_is_one_text() {
    assert_eq!(VariableParser::parse_dollar_string("^abc def"), Ok(vec![text("^abc def")]));
    assert_eq!(VariableParser::parse_dollar_string(""), Ok(vec![]));
}

#[test]
fn dollar_string_splits_references_and_text() {
    assert_eq!(
        VariableParser::parse_dollar_string("^name: ${name} is $age."),
        Ok(vec![text("^name: "), var("name"), text(" is "), var("age"), text(".")])
    );
    assert_eq!(
        VariableParser::parse_dollar_string("$a$b${c}d"),
        Ok(vec![var("a"), var("b"), var("c"), text("d")])
    );
    assert_eq!(VariableParser::parse_dollar_string("$_x9-"), Ok(vec![var("_x9"), text("-")]));
}

#[test]
fn dollar_dollar_is_a_dollar_sign() {
    assert_eq!(
        VariableParser::parse_dollar_string("^end$$"),
        Ok(vec![text("^end"), ParseChunk::DollarDollar])
    );
    assert_eq!(
        VariableParser::parse_dollar_string("$$$x"),
        Ok(vec![ParseChunk::DollarDollar, var("x")])
    );
}

#[test]
fn dollar_string_rejects_a_stray_dollar() {
    assert_eq!(VariableParser::parse_dollar_string("abc$"), Err(3));
    assert_eq!(VariableParser::parse_dollar_string("$1"), Err(0));
    assert_eq!(VariableParser::parse_dollar_string("a ${name"), Err(2));
    assert_eq!(VariableParser::parse_dollar_string("${}"), Err(0));
    assert_eq!(VariableParser::parse_dollar_string("${a b}"), Err(0));
    assert_eq!(VariableParser::parse_dollar_string("$x $ $y"), Err(3));
}

#[test]
fn value_definition_without_options() {
    assert_eq!(
        TextFSMParser::parse_value_definition("Value name (\\S+)"),
        Ok(value("name", "(\\S+)", false))
    );
}

#[test]
fn value_definition_with_options() {
    let parsed = TextFSMParser::parse_value_definition("Value Filldown,Required host (\\S+)  ");
    assert_eq!(
        parsed,
        Ok(ValueDefinition {
            name: "host".to_string(),
            is_filldown: true,
            is_key: false,
            is_required: true,
            is_list: false,
            is_fillup: false,
            regex_pattern: "(\\S+)".to_string(),
            options: Some("Filldown,Required".to_string()),
        })
    );
    let all = TextFSMParser::parse_value_definition("Value Key,List,Fillup x (a b)").unwrap();
    assert!(all.is_key && all.is_list && all.is_fillup);
    assert!(!all.is_filldown && !all.is_required);
    assert_eq!(all.regex_pattern, "(a b)");
}

#[test]
fn value_definition_unescapes_angle_brackets() {
    let parsed = TextFSMParser::parse_value_definition("Value tag (\\<\\w+\\>|\\\\d)").unwrap();
    assert_eq!(parsed.regex_pattern, "(<\\w+>|\\\\d)");
}

#[test]
fn value_definition_rejects_malformed_lines() {
    for line in ["Value", "Value ", "Value name", "Value name \\S+", "Valuename (x)",
        "Value a b c (x)", "Value 9name (x)", "value name (x)", "Value (x)"]
    {
        assert_eq!(
            TextFSMParser::parse_value_definition(line),
            Err(CompileError::BadValue { line: line.to_string() }),
        );
    }
}

#[test]
fn value_definition_rejects_unknown_options() {
    assert_eq!(
        TextFSMParser::parse_value_definition("Value Filldown,Sticky name (x)"),
        Err(CompileError::UnknownOption { option: "Sticky".to_string() })
    );
    assert_eq!(
        TextFSMParser::parse_value_definition("Value List, name (x)"),
        Err(CompileError::UnknownOption { option: "".to_string() })
    );
}

#[test]
fn transition_defaults_to_next_line_without_record() {
    assert_eq!(TextFSMParser::parse_state_rule_transition(""), Ok(RuleTransition::default()));
    assert_eq!(
        RuleTransition::default(),
        transition(LineAction::Next(None), RecordAction::NoRecord)
    );
    assert_eq!(LineAction::default(), LineAction::Next(None));
    assert_eq!(RecordAction::default(), RecordAction::NoRecord);
}

#[test]
fn transition_reads_record_actions() {
    for (word, action) in [("Record", RecordAction::Record), ("NoRecord", RecordAction::NoRecord),
        ("Clear", RecordAction::Clear), ("Clearall", RecordAction::Clearall)]
    {
        assert_eq!(
            TextFSMParser::parse_state_rule_transition(word),
            Ok(transition(LineAction::Next(None), action))
        );
    }
}

#[test]
fn transition_reads_line_actions_and_states() {
    assert_eq!(
        TextFSMParser::parse_state_rule_transition(" Continue"),
        Ok(transition(LineAction::Continue, RecordAction::NoRecord))
    );
    assert_eq!(
        TextFSMParser::parse_state_rule_transition("Continue.Record"),
        Ok(transition(LineAction::Continue, RecordAction::Record))
    );
    assert_eq!(
        TextFSMParser::parse_state_rule_transition("Next.Clear Other"),
        Ok(transition(
            LineAction::Next(Some(NextState::NamedState("Other".to_string()))),
            RecordAction::Clear
        ))
    );
    assert_eq!(
        TextFSMParser::parse_state_rule_transition("Record Start"),
        Ok(transition(
            LineAction::Next(Some(NextState::NamedState("Start".to_string()))),
            RecordAction::Record
        ))
    );
    assert_eq!(
        TextFSMParser::parse_state_rule_transition("Record, Continue"),
        Ok(transition(LineAction::Continue, RecordAction::Record))
    );
    assert_eq!(
        TextFSMParser::parse_state_rule_transition("End"),
        Ok(transition(
            LineAction::Next(Some(NextState::NamedState("End".to_string()))),
            RecordAction::NoRecord
        ))
    );
}

#[test]
fn transition_reads_errors_with_and_without_message() {
    assert_eq!(
        TextFSMParser::parse_state_rule_transition("Error"),
        Ok(transition(LineAction::Next(Some(NextState::Error(None))), RecordAction::NoRecord))
    );
    assert_eq!(
        TextFSMParser::parse_state_rule_transition("Error \"it broke, badly.\""),
        Ok(transition(
            LineAction::Next(Some(NextState::Error(Some("it broke, badly.".to_string())))),
            RecordAction::NoRecord
        ))
    );
    assert_eq!(
        TextFSMParser::parse_state_rule_transition("Error.Clearall oops"),
        Ok(transition(
            LineAction::Next(Some(NextState::Error(Some("oops".to_string())))),
            RecordAction::Clearall
        ))
    );
}

#[test]
fn transition_rejects_what_names_no_transition() {
    for action in ["Continue Start", "Start End", "\"msg\"", "Error \"open", "Next 9x",
        "Error a b"]
    {
        assert_eq!(
            TextFSMParser::parse_state_rule_transition(action),
            Err(CompileError::BadAction { action: action.to_string() }),
        );
    }
}

#[test]
fn state_rule_with_action() {
    assert_eq!(
        TextFSMParser::parse_state_rule("  ^name: ${name} -> Record"),
        Ok(StateRule {
            rule_match: "^name: ${name}".to_string(),
            transition: transition(LineAction::Next(None), RecordAction::Record),
        })
    );
    assert_eq!(
        TextFSMParser::parse_state_rule("\t^a -> b -> Continue"),
        Ok(StateRule {
            rule_match: "^a -> b".to_string(),
            transition: transition(LineAction::Continue, RecordAction::NoRecord),
        })
    );
}

#[test]
fn state_rule_without_action_loses_trailing_blanks() {
    assert_eq!(TextFSMParser::parse_state_rule("  ^abc  \t"), Ok(plain("^abc")));
    assert_eq!(TextFSMParser::parse_state_rule(" ^a->b"), Ok(plain("^a->b")));
}

#[test]
fn state_rule_with_action_keeps_blanks_before_the_last() {
    assert_eq!(
        TextFSMParser::parse_state_rule("  ^abc   -> Record").unwrap().rule_match,
        "^abc  "
    );
}

#[test]
fn state_rule_unescapes_angle_brackets() {
    assert_eq!(TextFSMParser::parse_state_rule("  ^\\<a\\> \\d"), Ok(plain("^<a> \\d")));
}

#[test]
fn state_rule_rejects_unindented_and_empty_lines() {
    assert_eq!(
        TextFSMParser::parse_state_rule("^abc"),
        Err(CompileError::Syntax { line: "^abc".to_string() })
    );
    assert_eq!(
        TextFSMParser::parse_state_rule("   "),
        Err(CompileError::Syntax { line: "   ".to_string() })
    );
    assert_eq!(
        TextFSMParser::parse_state_rule("  ^abc -> Continue Start"),
        Err(CompileError::BadAction { action: " Continue Start".to_string() })
    );
}

#[test]
fn compile_state_rule_writes_references_out() {
    let values = vec![value("name", "(\\S+)", false), value("age", "\\d+", false)];
    let compiled =
        TextFSMParser::compile_state_rule(&plain("^${name} is $age$$"), &values).unwrap();
    assert_eq!(compiled.rule_match, "^${name} is $age$$");
    assert_eq!(compiled.expanded_rule_match, "^(?P<name>(\\S+)) is (?P<age>\\d+)$");
    assert_eq!(compiled.match_variables, vec!["name".to_string(), "age".to_string()]);
    assert_eq!(compiled.transition, RuleTransition::default());
    assert!(matches!(compiled.regex, MultiRegex::Classic(_)));
    assert_eq!(compiled.regex.as_str(), "^(?P<name>(\\S+)) is (?P<age>\\d+)$");
}

#[test]
fn compile_state_rule_names_the_undeclared_variable() {
    let values = vec![value("name", "(\\S+)", false)];
    assert_eq!(
        TextFSMParser::compile_state_rule(&plain("^$name $missing"), &values).err(),
        Some(CompileError::UndefinedVariable {
            rule: "^$name $missing".to_string(),
            variable: "missing".to_string(),
        })
    );
}

#[test]
fn compile_state_rule_reports_a_stray_dollar() {
    assert_eq!(
        TextFSMParser::compile_state_rule(&plain("^abc$"), &vec![]).err(),
        Some(CompileError::BadSubstitution { text: "^abc$".to_string(), position: 4 })
    );
}

#[test]
fn lookaround_goes_to_the_backtracking_engine() {
    let compiled = TextFSMParser::compile_state_rule(&plain("^a(?=b)"), &vec![]).unwrap();
    assert!(matches!(compiled.regex, MultiRegex::Fancy(_)));
    assert_eq!(compiled.expanded_rule_match, "^a(?=b)");
    let rows = compiled.regex.occurrences(&vec![], "ab");
    assert_eq!(rows, Some(vec![vec![]]));
    assert_eq!(compiled.regex.occurrences(&vec![], "ac"), Some(vec![]));
}

#[test]
fn repeat_behind_a_lookaround_is_taken_out() {
    let compiled = TextFSMParser::compile_state_rule(&plain("^a(?=b)*b"), &vec![]).unwrap();
    assert!(matches!(compiled.regex, MultiRegex::Fancy(_)));
    assert_eq!(compiled.rule_match, "^a(?=b)*b");
    assert_eq!(compiled.expanded_rule_match, "^a(?=b)b");
    let twice = MultiRegex::compile("(?<=x)+(?=y)?z").unwrap();
    assert_eq!(twice.as_str(), "(?<=x)(?=y)z");
    let stacked = MultiRegex::compile("a(?=b)*+z").unwrap();
    assert_eq!(stacked.as_str(), "a(?=b)z");
}

#[test]
fn bad_pattern_carries_the_text_up_to_the_fault() {
    assert_eq!(
        MultiRegex::compile("ab(?=c)(d").err(),
        Some(CompileError::BadPattern { fragment: "ab(?=c)(d".to_string(), position: 9 })
    );
    assert_eq!(
        MultiRegex::compile("a(?=b)(?z)c").err(),
        Some(CompileError::BadPattern { fragment: "a(?=b)(?z".to_string(), position: 8 })
    );
}

#[test]
fn pattern_that_no_engine_takes_is_an_error() {
    let error = TextFSMParser::compile_state_rule(&plain("^(abc"), &vec![]).err();
    assert!(matches!(error, Some(CompileError::BadPattern { .. })));
    let error = MultiRegex::compile("a(?=b)[z").err();
    assert!(matches!(error, Some(CompileError::BadPattern { .. })));
}

#[test]
fn occurrences_come_from_left_to_right() {
    let regex = MultiRegex::compile("(?P<n>\\d+)(?P<u>[a-z])?").unwrap();
    let names = vec!["n".to_string(), "u".to_string(), "other".to_string()];
    assert_eq!(
        regex.occurrences(&names, "1a 22 333c"),
        Some(vec![
            vec![Some("1".to_string()), Some("a".to_string()), None],
            vec![Some("22".to_string()), None, None],
            vec![Some("333".to_string()), Some("c".to_string()), None],
        ])
    );
    assert_eq!(regex.occurrences(&names, "none here"), Some(vec![]));
}

#[test]
fn backtracking_occurrences_come_from_left_to_right() {
    let regex = MultiRegex::compile("(?P<w>\\w+)(?=!)").unwrap();
    assert!(matches!(regex, MultiRegex::Fancy(_)));
    let names = vec!["w".to_string()];
    assert_eq!(
        regex.occurrences(&names, "hey! you there!"),
        Some(vec![vec![Some("hey".to_string())], vec![Some("there".to_string())]])
    );
}

#[test]
fn parse_value_defs_lists_required_names() {
    let lines = vec![
        "# the values".to_string(),
        "Value Required name (\\S+)".to_string(),
        "".to_string(),
        "Value List item (\\d+)".to_string(),
        "Value Required,Filldown host (\\w+)".to_string(),
    ];
    let (values, mandatory) = TextFSMParser::parse_value_defs(&lines).unwrap();
    assert_eq!(values.len(), 3);
    assert_eq!(values[0].name, "name");
    assert_eq!(values[1].name, "item");
    assert!(values[1].is_list);
    assert_eq!(values[2].name, "host");
    assert_eq!(mandatory, vec!["name".to_string(), "host".to_string()]);
}

#[test]
fn later_declaration_takes_the_place_of_the_earlier() {
    let lines = vec![
        "Value a (1)".to_string(),
        "Value b (2)".to_string(),
        "Value List a (3)".to_string(),
    ];
    let (values, mandatory) = TextFSMParser::parse_value_defs(&lines).unwrap();
    assert_eq!(values.len(), 2);
    assert_eq!(values[0], value("a", "(3)", true).with_options("List"));
    assert_eq!(values[1].name, "b");
    assert!(mandatory.is_empty());
}

trait WithOptions {
    fn with_options(self, options: &str) -> Self;
}

impl WithOptions for ValueDefinition {
    fn with_options(mut self, options: &str) -> Self {
        self.options = Some(options.to_string());
        self
    }
}

#[test]
fn parse_value_defs_stops_at_the_first_bad_line() {
    let lines = vec!["Value a (1)".to_string(), "Start".to_string()];
    assert_eq!(
        TextFSMParser::parse_value_defs(&lines).err(),
        Some(CompileError::BadValue { line: "Start".to_string() })
    );
}

#[test]
fn state_definition_compiles_its_rules_in_order() {
    let values = vec![value("name", "(\\S+)", false)];
    let lines = vec![
        "Start  ".to_string(),
        "  # a comment".to_string(),
        "  ^name: ${name} -> Record".to_string(),
        "".to_string(),
        "  ^end -> End".to_string(),
    ];
    let state = TextFSMParser::parse_and_compile_state_definition(&lines, &values).unwrap();
    assert_eq!(state.name, "Start");
    assert_eq!(state.rules.len(), 2);
    assert_eq!(state.rules[0].expanded_rule_match, "^name: (?P<name>(\\S+))");
    assert_eq!(state.rules[0].transition.record_action, RecordAction::Record);
    assert_eq!(
        state.rules[1].transition.line_action,
        LineAction::Next(Some(NextState::NamedState("End".to_string())))
    );
}

#[test]
fn state_definition_rejects_a_bad_name() {
    let lines = vec!["Not a name".to_string()];
    assert_eq!(
        TextFSMParser::parse_and_compile_state_definition(&lines, &vec![]).err(),
        Some(CompileError::Syntax { line: "Not a name".to_string() })
    );
    assert_eq!(
        TextFSMParser::parse_and_compile_state_definition(&vec![], &vec![]).err(),
        Some(CompileError::Syntax { line: "".to_string() })
    );
}

#[test]
fn compile_builds_values_and_states() {
    let template = "Value Required name (\\S+)\nValue List item (\\d+)\n\nStart\n  ^name: ${name} -> Record\n\nOther\n  ^x\n";
    let table = TextFSMParser::compile(template).unwrap();
    assert_eq!(table.values().len(), 2);
    assert_eq!(table.mandatory_values(), &vec!["name".to_string()]);
    let names: Vec<&str> = table.states().iter().map(|s| s.name.as_str()).collect();
    assert_eq!(names, vec!["EOF", "Start", "Other"]);
    assert_eq!(table.state("Start").unwrap().rules.len(), 1);
    assert!(table.state("Missing").is_none());
    assert!(table.value("item").unwrap().is_list);
    assert!(table.value("nothing").is_none());
}

#[test]
fn every_table_has_the_state_that_ends_a_run() {
    let table = TextFSMParser::compile("").unwrap();
    let eof = table.state("EOF").unwrap();
    assert_eq!(eof.rules.len(), 1);
    assert_eq!(eof.rules[0].rule_match, ".*");
    assert_eq!(eof.rules[0].transition.record_action, RecordAction::Record);
    assert_eq!(
        eof.rules[0].transition.line_action,
        LineAction::Next(Some(NextState::NamedState("End".to_string())))
    );
}

#[test]
fn template_may_define_the_state_that_ends_a_run() {
    let table = TextFSMParser::compile("Value a (x)\n\nStart\n  ^a\n\nEOF\n").unwrap();
    assert_eq!(table.state("EOF").unwrap().rules.len(), 0);
    assert_eq!(table.states().len(), 2);
    assert_eq!(table.states()[0].name, "EOF");
}

#[test]
fn state_defined_twice_is_an_error() {
    let template = "Value a (x)\n\nStart\n  ^a\n\nStart\n  ^b\n";
    assert_eq!(
        TextFSMParser::compile(template).err(),
        Some(CompileError::DuplicateState { name: "Start".to_string() })
    );
}

#[test]
fn rule_outside_a_state_is_an_error() {
    assert_eq!(
        TextFSMParser::compile("Value a (x)\n\n  ^a\n").err(),
        Some(CompileError::Syntax { line: "  ^a".to_string() })
    );
    assert_eq!(
        TextFSMParser::compile("Start\n  ^a\nValue a (x)\n").err(),
        Some(CompileError::Syntax { line: "Value a (x)".to_string() })
    );
}

#[test]
fn undeclared_variable_fails_compilation() {
    let template = "Value name (\\S+)\n\nStart\n  ^name: $name $missing -> Record\n";
    assert_eq!(
        TextFSMParser::compile(template).err(),
        Some(CompileError::UndefinedVariable {
            rule: "^name: $name $missing".to_string(),
            variable: "missing".to_string(),
        })
    );
}

#[test]
fn windows_line_ends_are_blanks() {
    let template = "Value name (\\S+)\r\n\r\nStart\r\n  ^name: ${name} -> Record\r\n";
    let table = TextFSMParser::compile(template).unwrap();
    assert_eq!(table.value("name").unwrap().regex_pattern, "(\\S+)");
    let start = table.state("Start").unwrap();
    assert_eq!(start.rules[0].rule_match, "^name: ${name}");
    assert_eq!(start.rules[0].transition.record_action, RecordAction::Record);
}
