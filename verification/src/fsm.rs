//! The state machine: it takes the lines of an input one by one, tries the
//! rules of its state on each, fills the record at hand from what they capture,
//! and emits records as the rules say.

use crate::compiler::{
    declares, eof_name, find_state, find_value, value_names, CompiledRuleView, ParserView,
    StateCompiled, TextFSMParser,
};
use crate::text::{first_named, lemma_first_named};
use crate::engine::{occurrences_of, rows_fit, Bindings};
use crate::record::{
    can_merge, merge_record, merged, overwritten, DataRecord, RecordView, Value, ValueView,
};
use crate::template::{
    views, FsmError, FsmErrorView, LineAction, LineActionView, NextState, NextStateView,
    RecordAction, ValueDefinitionView,
};
use vstd::prelude::*;

verus! {

/// Whether `values` declares `name` with the option `List`.
pub open spec fn is_list_name(values: Seq<ValueDefinitionView>, name: Seq<char>) -> bool {
    match find_value(values, name) {
        Some(value) => value.is_list,
        None => false,
    }
}

/// Whether `values` declares `name` with the option `Filldown`.
pub open spec fn is_filldown_name(values: Seq<ValueDefinitionView>, name: Seq<char>) -> bool {
    match find_value(values, name) {
        Some(value) => value.is_filldown,
        None => false,
    }
}

/// The text that stands in a list for a group that took no part in a match.
pub open spec fn missing_item() -> Seq<char> {
    "None"@
}

/// The value that a captured text becomes under `name`: a list of one for a
/// value declared as a list, a scalar otherwise. A group that took no part in
/// the match leaves the empty scalar, or the list of the one item `None`.
pub open spec fn wrapped(
    values: Seq<ValueDefinitionView>,
    name: Seq<char>,
    text: Option<Seq<char>>,
) -> ValueView {
    if is_list_name(values, name) {
        ValueView::List(
            seq![
                match text {
                    Some(t) => t,
                    None => missing_item(),
                },
            ],
        )
    } else {
        ValueView::Single(
            match text {
                Some(t) => t,
                None => Seq::empty(),
            },
        )
    }
}

/// What one rule has captured from one line: the record of all its bindings,
/// and the record of the bindings of values declared with `Filldown`.
pub struct Bound {
    pub record: RecordView,
    pub filldown: RecordView,
}

/// What a rule has captured, from its two records.
pub open spec fn bound_of(record: RecordView, filldown: RecordView) -> Bound {
    Bound { record, filldown }
}

/// `b` after the text captured under `name` was merged into it.
pub open spec fn bind(
    values: Seq<ValueDefinitionView>,
    b: Bound,
    name: Seq<char>,
    text: Option<Seq<char>>,
) -> Bound {
    Bound {
        record: merged(b.record, name, wrapped(values, name, text)),
        filldown: if is_filldown_name(values, name) {
            merged(b.filldown, name, wrapped(values, name, text))
        } else {
            b.filldown
        },
    }
}

/// `b` after the bindings of the first `n` names in one occurrence were merged into it.
pub open spec fn bound_row(
    values: Seq<ValueDefinitionView>,
    names: Seq<Seq<char>>,
    row: Bindings,
    b: Bound,
    n: int,
) -> Bound
    decreases n,
{
    if n <= 0 {
        b
    } else {
        bind(values, bound_row(values, names, row, b, n - 1), names[n - 1], row[n - 1])
    }
}

/// What the first `n` occurrences of a rule bind, merged in the order of the occurrences.
pub open spec fn bound_rows(
    values: Seq<ValueDefinitionView>,
    names: Seq<Seq<char>>,
    rows: Seq<Bindings>,
    n: int,
) -> Bound
    decreases n,
{
    if n <= 0 {
        Bound { record: Map::empty(), filldown: Map::empty() }
    } else {
        bound_row(
            values,
            names,
            rows[n - 1],
            bound_rows(values, names, rows, n - 1),
            names.len() as int,
        )
    }
}

/// Every value of the record has the shape that its name is declared with: a
/// list under a name declared as a list, a scalar under any other.
pub open spec fn well_typed(values: Seq<ValueDefinitionView>, record: RecordView) -> bool {
    forall|k: Seq<char>| #[trigger]
        record.contains_key(k) ==> (record[k] is List) == is_list_name(values, k)
}

/// The value that a record is given under a declared name that it lacks.
pub open spec fn default_value(values: Seq<ValueDefinitionView>, name: Seq<char>) -> ValueView {
    if is_list_name(values, name) {
        ValueView::List(Seq::empty())
    } else {
        ValueView::Single(Seq::empty())
    }
}

/// Whether one of the first `n` values has the name `name`.
pub open spec fn named_before(values: Seq<ValueDefinitionView>, name: Seq<char>, n: int) -> bool {
    exists|j: int| 0 <= j < n && j < values.len() && #[trigger] value_names(values)[j] == name
}

/// `record` with the default value under each of the names of the first `n`
/// values that it lacks.
pub open spec fn with_defaults_of(
    values: Seq<ValueDefinitionView>,
    record: RecordView,
    n: int,
) -> RecordView {
    Map::new(
        |k: Seq<char>| record.contains_key(k) || named_before(values, k, n),
        |k: Seq<char>|
            if record.contains_key(k) {
                record[k]
            } else {
                default_value(values, k)
            },
    )
}

/// `record` with the default value under each declared name that it lacks: the
/// empty list for a value declared as a list, the empty scalar otherwise.
pub open spec fn with_defaults(values: Seq<ValueDefinitionView>, record: RecordView) -> RecordView {
    Map::new(
        |k: Seq<char>| record.contains_key(k) || declares(values, k),
        |k: Seq<char>|
            if record.contains_key(k) {
                record[k]
            } else {
                default_value(values, k)
            },
    )
}

/// The names declared with `Filldown`.
pub open spec fn filldown_names(values: Seq<ValueDefinitionView>) -> Set<Seq<char>> {
    Set::new(|k: Seq<char>| is_filldown_name(values, k))
}

/// Whether the record holds every name of `mandatory`.
pub open spec fn required_present(mandatory: Seq<Seq<char>>, record: RecordView) -> bool {
    forall|i: int| 0 <= i < mandatory.len() ==> record.contains_key(#[trigger] mandatory[i])
}

/// What the machine has gathered: the record at hand, the values that carry
/// over into the next records, and the records emitted so far.
pub struct Accumulator {
    pub current: RecordView,
    pub filldown: RecordView,
    pub records: Seq<RecordView>,
}

/// What a machine has gathered, from its parts.
pub open spec fn acc_of(
    current: RecordView,
    filldown: RecordView,
    records: Seq<RecordView>,
) -> Accumulator {
    Accumulator { current, filldown, records }
}

/// Whether `Record` emits the record at hand: it holds something, and every
/// required value is in it.
pub open spec fn can_record(table: ParserView, acc: Accumulator) -> bool {
    acc.current != RecordView::empty() && required_present(table.mandatory_values, acc.current)
}

/// `acc` after a record action. `Record` emits the record at hand, filled up
/// with defaults, and starts the next one from the values that carry over, if
/// the record may be emitted, and does nothing if not. `Clear` drops from the
/// record at hand what is not declared with `Filldown`. `Clearall` empties the
/// record at hand and the values that carry over.
pub open spec fn apply_record_action(
    table: ParserView,
    acc: Accumulator,
    action: RecordAction,
) -> Accumulator {
    match action {
        RecordAction::NoRecord => acc,
        RecordAction::Record => if can_record(table, acc) {
            Accumulator {
                current: acc.filldown,
                filldown: acc.filldown,
                records: acc.records.push(with_defaults(table.values, acc.current)),
            }
        } else {
            acc
        },
        RecordAction::Clear => Accumulator {
            current: acc.current.restrict(filldown_names(table.values)),
            filldown: acc.filldown,
            records: acc.records,
        },
        RecordAction::Clearall => Accumulator {
            current: Map::empty(),
            filldown: Map::empty(),
            records: acc.records,
        },
    }
}

/// `acc` after what a rule has captured was taken in: its bindings are merged
/// into the record at hand, and those declared with `Filldown` replace the values
/// of their names that carry over.
pub open spec fn absorb(acc: Accumulator, b: Bound) -> Accumulator {
    Accumulator {
        current: merge_record(acc.current, b.record),
        filldown: overwritten(acc.filldown, b.filldown),
        records: acc.records,
    }
}

/// `acc` after a rule matched with the occurrences `rows`: what they bind is
/// taken in, then the record action of the rule is applied.
pub open spec fn apply_match(
    table: ParserView,
    acc: Accumulator,
    rule: CompiledRuleView,
    rows: Seq<Bindings>,
) -> Accumulator {
    apply_record_action(
        table,
        absorb(acc, bound_rows(table.values, rule.match_variables, rows, rows.len() as int)),
        rule.transition.record_action,
    )
}

/// What a line has done: what the machine has gathered after it, and where the
/// machine goes next, if the line did not fail.
pub struct LineResult {
    pub acc: Accumulator,
    pub outcome: Result<Option<NextStateView>, FsmErrorView>,
}

/// What a line has done, from its parts.
pub open spec fn line_of(
    acc: Accumulator,
    outcome: Result<Option<NextStateView>, FsmErrorView>,
) -> LineResult {
    LineResult { acc, outcome }
}

/// What the rules from `from` on do with a line. A rule without an occurrence in
/// the line is passed over. A rule with occurrences is applied; if its line
/// action is `Continue` the next rule is tried on the same line, else the line is
/// done. A line that no rule ends is done when the rules are.
pub open spec fn run_rules(
    table: ParserView,
    rules: Seq<CompiledRuleView>,
    line: Seq<char>,
    acc: Accumulator,
    from: int,
) -> LineResult
    decreases rules.len() - from,
{
    if from < 0 || from >= rules.len() {
        LineResult { acc, outcome: Ok(None) }
    } else {
        match occurrences_of(rules[from].regex, rules[from].match_variables, line) {
            None => LineResult {
                acc,
                outcome: Err(FsmErrorView::MatchFailed(rules[from].regex.source())),
            },
            Some(rows) => if rows.len() == 0 {
                run_rules(table, rules, line, acc, from + 1)
            } else {
                match rules[from].transition.line_action {
                    LineActionView::Continue => run_rules(
                        table,
                        rules,
                        line,
                        apply_match(table, acc, rules[from], rows),
                        from + 1,
                    ),
                    LineActionView::Next(target) => LineResult {
                        acc: apply_match(table, acc, rules[from], rows),
                        outcome: Ok(target),
                    },
                }
            },
        }
    }
}

/// What a line does to a machine in the state `state`.
pub open spec fn line_result(
    table: ParserView,
    state: Seq<char>,
    acc: Accumulator,
    line: Seq<char>,
) -> LineResult {
    match find_state(table.states, state) {
        None => LineResult { acc, outcome: Err(FsmErrorView::UnknownState(state)) },
        Some(s) => run_rules(table, s.rules, line, acc, 0),
    }
}

/// The name of the state in which a run is over.
pub open spec fn end_name() -> Seq<char> {
    "End"@
}

/// The name of the state in which a machine starts.
pub open spec fn start_name() -> Seq<char> {
    "Start"@
}

/// A machine without its table: its state and what it has gathered.
pub struct Machine {
    pub state: Seq<char>,
    pub acc: Accumulator,
}

/// A machine at the end of a run, or at the point where the run failed.
pub struct RunResult {
    pub machine: Machine,
    pub error: Option<FsmErrorView>,
}

/// Whether a machine can be sent to the state `name`: it is `End`, or the table has it.
pub open spec fn can_enter(table: ParserView, name: Seq<char>) -> bool {
    name == end_name() || find_state(table.states, name) is Some
}

/// The machine after one line, and the error if the line failed: a rule of
/// the line action `Error` matched, the line sent the machine to a state that
/// the table does not have, the machine is in such a state, or an engine gave up.
pub open spec fn step(table: ParserView, m: Machine, line: Seq<char>) -> RunResult {
    let r = line_result(table, m.state, m.acc, line);
    match r.outcome {
        Err(e) => RunResult { machine: Machine { state: m.state, acc: r.acc }, error: Some(e) },
        Ok(None) => RunResult { machine: Machine { state: m.state, acc: r.acc }, error: None },
        Ok(Some(NextStateView::Error(message))) => RunResult {
            machine: Machine { state: m.state, acc: r.acc },
            error: Some(FsmErrorView::ErrorState(message)),
        },
        Ok(Some(NextStateView::NamedState(name))) => if can_enter(table, name) {
            RunResult { machine: Machine { state: name, acc: r.acc }, error: None }
        } else {
            RunResult {
                machine: Machine { state: m.state, acc: r.acc },
                error: Some(FsmErrorView::UnknownState(name)),
            }
        },
    }
}

/// The machine after the lines from `from` on: each line is one step, and
/// the run through the lines stops behind the first step that fails or that
/// leaves the machine in the state `EOF` or `End`.
pub open spec fn run_from(
    table: ParserView,
    m: Machine,
    lines: Seq<Seq<char>>,
    from: int,
) -> RunResult
    decreases lines.len() - from,
{
    if from < 0 || from >= lines.len() {
        RunResult { machine: m, error: None }
    } else {
        let r = step(table, m, lines[from]);
        if r.error is Some || r.machine.state == eof_name() || r.machine.state == end_name() {
            r
        } else {
            run_from(table, r.machine, lines, from + 1)
        }
    }
}

/// The machine at the end of the input. A machine in the state `End` stays as it
/// is. Any other is given one empty line in the state `EOF`, whatever state it
/// was in, and is in the state `End` after it, wherever that line would send it.
pub open spec fn finish(table: ParserView, m: Machine) -> RunResult {
    if m.state == end_name() {
        RunResult { machine: m, error: None }
    } else if find_state(table.states, eof_name()) is None {
        RunResult { machine: m, error: Some(FsmErrorView::UnknownState(eof_name())) }
    } else {
        let r = line_result(table, eof_name(), m.acc, Seq::empty());
        match r.outcome {
            Err(e) => RunResult {
                machine: Machine { state: eof_name(), acc: r.acc },
                error: Some(e),
            },
            Ok(_) => RunResult { machine: Machine { state: end_name(), acc: r.acc }, error: None },
        }
    }
}

/// The machine after a whole input.
pub open spec fn run(table: ParserView, m: Machine, lines: Seq<Seq<char>>) -> RunResult {
    let r = run_from(table, m, lines, 0);
    if r.error is Some {
        r
    } else {
        finish(table, r.machine)
    }
}

/// A name is declared exactly if one of the values has it.
proof fn lemma_named(values: Seq<ValueDefinitionView>, name: Seq<char>)
    ensures
        named_before(values, name, values.len() as int) <==> declares(values, name),
{
    lemma_first_named(value_names(values), name, 0);
    if declares(values, name) {
        let i = first_named(value_names(values), name, 0)->0;
    }
}

/// What is done to the records that a run has emitted before they are handed out.
#[derive(Debug, Clone, Copy, PartialEq, Eq)]
pub enum DataRecordConversion {
    /// Every name is made lowercase.
    LowercaseKeys,
}

/// The record made of the first `n` names of `keys`, each made lowercase, with
/// the values that `record` holds under them; where two names become the same,
/// the later one counts.
pub open spec fn lowercased(keys: Seq<Seq<char>>, record: RecordView, n: int) -> RecordView
    decreases n,
{
    if n <= 0 {
        Map::empty()
    } else {
        lowercased(keys, record, n - 1).insert(
            crate::text::lowercase(keys[n - 1]),
            record[keys[n - 1]],
        )
    }
}

/// The first `n` names of `keys`, each made lowercase and listed once, where it
/// first comes.
pub open spec fn lowercased_keys(keys: Seq<Seq<char>>, n: int) -> Seq<Seq<char>>
    decreases n,
{
    if n <= 0 {
        Seq::empty()
    } else if lowercased_keys(keys, n - 1).contains(crate::text::lowercase(keys[n - 1])) {
        lowercased_keys(keys, n - 1)
    } else {
        lowercased_keys(keys, n - 1).push(crate::text::lowercase(keys[n - 1]))
    }
}

/// `out` holds, for each record of `records`, the record of its lowercase names.
pub open spec fn are_lowercased(out: Seq<DataRecord>, records: Seq<DataRecord>) -> bool {
    &&& out.len() == records.len()
    &&& forall|i: int|
        0 <= i < out.len() ==> (#[trigger] out[i])@ == lowercased(
            records[i].key_seq(),
            records[i]@,
            records[i].key_seq().len() as int,
        ) && out[i].key_seq() == lowercased_keys(
            records[i].key_seq(),
            records[i].key_seq().len() as int,
        )
}

/// `out` holds the records of `records`, each with its names in the same order.
pub open spec fn are_copies(out: Seq<DataRecord>, records: Seq<DataRecord>) -> bool {
    &&& out.len() == records.len()
    &&& forall|i: int|
        0 <= i < out.len() ==> (#[trigger] out[i])@ == records[i]@ && out[i].key_seq()
            == records[i].key_seq()
}

/// `out` is what `conversion` makes of `records`: the same records without a
/// conversion.
pub open spec fn are_converted(
    out: Seq<DataRecord>,
    records: Seq<DataRecord>,
    conversion: Option<DataRecordConversion>,
) -> bool {
    match conversion {
        None => are_copies(out, records),
        Some(DataRecordConversion::LowercaseKeys) => are_lowercased(out, records),
    }
}

/// The mathematical content of the result of a line.
pub open spec fn outcome_view(res: Result<Option<NextState>, FsmError>) -> Result<
    Option<NextStateView>,
    FsmErrorView,
> {
    match res {
        Ok(Some(next)) => Ok(Some(next@)),
        Ok(None) => Ok(None),
        Err(e) => Err(e@),
    }
}

/// The mathematical content of an optional error.
pub open spec fn error_view(error: Option<FsmError>) -> Option<FsmErrorView> {
    match error {
        Some(e) => Some(e@),
        None => None,
    }
}

/// Merges the text captured under `name` into the records of a rule.
fn bind_value(
    parser: &TextFSMParser,
    record: &mut DataRecord,
    filldown: &mut DataRecord,
    name: &String,
    text: Option<String>,
)
    requires
        old(record)@.contains_key(name@) ==> can_merge(
            old(record)@[name@],
            wrapped(parser@.values, name@, text.deep_view()),
        ),
        is_filldown_name(parser@.values, name@) && old(filldown)@.contains_key(name@) ==> can_merge(
            old(filldown)@[name@],
            wrapped(parser@.values, name@, text.deep_view()),
        ),
    ensures
        bound_of(final(record)@, final(filldown)@) == bind(
            parser@.values,
            bound_of(old(record)@, old(filldown)@),
            name@,
            text.deep_view(),
        ),
{
    let (is_list, is_filldown) = match parser.value(name.as_str()) {
        Some(value) => (value.is_list, value.is_filldown),
        None => (false, false),
    };
    let item = match text {
        Some(t) => t,
        None => if is_list {
            "None".to_owned()
        } else {
            proof {
                reveal_strlit("");
            }
            assert(""@ =~= Seq::<char>::empty());
            "".to_owned()
        },
    };
    let value = if is_list {
        let mut items: Vec<String> = Vec::new();
        items.push(item);
        assert(items.deep_view() =~= seq![item@]);
        Value::List(items)
    } else {
        Value::Single(item)
    };
    if is_filldown {
        filldown.append_value(name.clone(), value.clone());
    }
    record.append_value(name.clone(), value);
}

/// What the occurrences `rows` of a rule with the names `names` bind.
fn capture(parser: &TextFSMParser, names: &Vec<String>, rows: &Vec<Vec<Option<String>>>) -> (res: (
    DataRecord,
    DataRecord,
))
    requires
        rows_fit(rows@, names@),
    ensures
        bound_of(res.0@, res.1@) == bound_rows(
            parser@.values,
            names.deep_view(),
            rows.deep_view(),
            rows.len() as int,
        ),
        well_typed(parser@.values, res.0@),
        well_typed(parser@.values, res.1@),
{
    let mut record = DataRecord::new();
    let mut filldown = DataRecord::new();
    let ghost values = parser@.values;
    let mut r: usize = 0;
    while r < rows.len()
        invariant
            r <= rows.len(),
            values == parser@.values,
            rows_fit(rows@, names@),
            bound_of(record@, filldown@) == bound_rows(
                values,
                names.deep_view(),
                rows.deep_view(),
                r as int,
            ),
            well_typed(values, record@),
            well_typed(values, filldown@),
        decreases rows.len() - r,
    {
        let ghost start = bound_of(record@, filldown@);
        let ghost row = rows.deep_view()[r as int];
        let mut j: usize = 0;
        while j < names.len()
            invariant
                j <= names.len(),
                r < rows.len(),
                values == parser@.values,
                rows[r as int].len() == names.len(),
                row == rows.deep_view()[r as int],
                bound_of(record@, filldown@) == bound_row(
                    values,
                    names.deep_view(),
                    row,
                    start,
                    j as int,
                ),
                well_typed(values, record@),
                well_typed(values, filldown@),
            decreases names.len() - j,
        {
            let text = crate::template::clone_optional(&rows[r][j]);
            bind_value(parser, &mut record, &mut filldown, &names[j], text);
            j += 1;
        }
        r += 1;
    }
    (record, filldown)
}

/// Whether the record holds every name of `mandatory`.
fn all_present(mandatory: &Vec<String>, record: &DataRecord) -> (res: bool)
    ensures
        res == required_present(mandatory.deep_view(), record@),
{
    let mut i: usize = 0;
    while i < mandatory.len()
        invariant
            i <= mandatory.len(),
            forall|j: int| 0 <= j < i ==> record@.contains_key(#[trigger] mandatory.deep_view()[j]),
        decreases mandatory.len() - i,
    {
        if !record.contains_key(mandatory[i].as_str()) {
            assert(mandatory.deep_view()[i as int] == mandatory[i as int]@);
            return false;
        }
        i += 1;
    }
    true
}

/// Gives the record the default value under each declared name that it lacks.
fn fill_defaults(parser: &TextFSMParser, record: &mut DataRecord)
    ensures
        final(record)@ == with_defaults(parser@.values, old(record)@),
{
    let values = parser.values();
    let ghost all = parser@.values;
    let mut i: usize = 0;
    while i < values.len()
        invariant
            i <= values.len(),
            all == parser@.values,
            all == views(values@),
            record@ == with_defaults_of(all, old(record)@, i as int),
        decreases values.len() - i,
    {
        let name = &values[i].name;
        proof {
            assert(value_names(all)[i as int] == name@);
            assert forall|k: Seq<char>|
                named_before(all, k, i + 1) <==> (named_before(all, k, i as int) || k
                    == name@) by {
                if named_before(all, k, i + 1) {
                    let j = choose|j: int|
                        0 <= j < i + 1 && j < all.len() && #[trigger] value_names(all)[j] == k;
                }
                if named_before(all, k, i as int) {
                    let j = choose|j: int|
                        0 <= j < i && j < all.len() && #[trigger] value_names(all)[j] == k;
                }
            }
        }
        if !record.contains_key(name.as_str()) {
            let is_list = match parser.value(name.as_str()) {
                Some(value) => value.is_list,
                None => false,
            };
            let value = if is_list {
                let items: Vec<String> = Vec::new();
                assert(items.deep_view() =~= Seq::<Seq<char>>::empty());
                Value::List(items)
            } else {
                Value::Single(String::new())
            };
            record.set(name.clone(), value);
        }
        i += 1;
    }
    proof {
        assert forall|k: Seq<char>| named_before(all, k, all.len() as int) <==> declares(all, k) by {
            lemma_named(all, k);
        }
    }
}

/// The names declared with `Filldown`.
fn filldown_list(parser: &TextFSMParser) -> (res: Vec<String>)
    ensures
        res.deep_view().to_set() == filldown_names(parser@.values),
{
    let values = parser.values();
    let ghost all = parser@.values;
    let mut res: Vec<String> = Vec::new();
    let mut i: usize = 0;
    while i < values.len()
        invariant
            i <= values.len(),
            all == parser@.values,
            all == views(values@),
            forall|j: int|
                0 <= j < res.len() ==> is_filldown_name(all, #[trigger] res.deep_view()[j]),
            forall|j: int|
                0 <= j < i && is_filldown_name(all, #[trigger] value_names(all)[j])
                    ==> res.deep_view().contains(value_names(all)[j]),
        decreases values.len() - i,
    {
        let name = &values[i].name;
        let keeps = match parser.value(name.as_str()) {
            Some(value) => value.is_filldown,
            None => false,
        };
        if keeps {
            let ghost before = res.deep_view();
            res.push(name.clone());
            proof {
                assert(res.deep_view() =~= before.push(name@));
                assert forall|j: int|
                    0 <= j < i + 1 && is_filldown_name(
                        all,
                        #[trigger] value_names(all)[j],
                    ) implies res.deep_view().contains(value_names(all)[j]) by {
                    if j < i {
                        let at = choose|at: int|
                            0 <= at < before.len() && before[at] == value_names(all)[j];
                        assert(res.deep_view()[at] == value_names(all)[j]);
                    } else {
                        assert(res.deep_view()[before.len() as int] == name@);
                    }
                }
            }
        }
        i += 1;
    }
    proof {
        assert forall|k: Seq<char>|
            res.deep_view().to_set().contains(k) <==> filldown_names(all).contains(k) by {
            if is_filldown_name(all, k) {
                lemma_first_named(value_names(all), k, 0);
                let at = first_named(value_names(all), k, 0)->0;
            }
        }
    }
    res
}

/// Applies a record action to what the machine has gathered.
fn act(
    parser: &TextFSMParser,
    action: RecordAction,
    current: &mut DataRecord,
    filldown: &mut DataRecord,
    records: &mut Vec<DataRecord>,
)
    ensures
        acc_of(final(current)@, final(filldown)@, views(final(records)@)) == apply_record_action(
            parser@,
            acc_of(old(current)@, old(filldown)@, views(old(records)@)),
            action,
        ),
{
    match action {
        RecordAction::NoRecord => {},
        RecordAction::Record => {
            if !current.is_empty() && all_present(parser.mandatory_values(), current) {
                let mut finished = filldown.clone();
                std::mem::swap(&mut finished, current);
                fill_defaults(parser, &mut finished);
                let ghost before = views(records@);
                records.push(finished);
                assert(views(records@) =~= before.push(finished@));
            }
        },
        RecordAction::Clear => {
            let keep = filldown_list(parser);
            current.clear(&keep);
        },
        RecordAction::Clearall => {
            *current = DataRecord::new();
            *filldown = DataRecord::new();
        },
    }
}

/// Tries the rules of a state on a line, in order.
fn try_rules(
    parser: &TextFSMParser,
    state: &StateCompiled,
    line: &str,
    current: &mut DataRecord,
    filldown: &mut DataRecord,
    records: &mut Vec<DataRecord>,
) -> (res: Result<Option<NextState>, FsmError>)
    requires
        well_typed(parser@.values, old(current)@),
        well_typed(parser@.values, old(filldown)@),
    ensures
        line_of(acc_of(final(current)@, final(filldown)@, views(final(records)@)), outcome_view(res)) == run_rules(
            parser@,
            state@.rules,
            line@,
            acc_of(old(current)@, old(filldown)@, views(old(records)@)),
            0,
        ),
        well_typed(parser@.values, final(current)@),
        well_typed(parser@.values, final(filldown)@),
{
    let ghost table = parser@;
    let ghost rules = state@.rules;
    let ghost start = acc_of(current@, filldown@, views(records@));
    let mut i: usize = 0;
    while i < state.rules.len()
        invariant
            i <= state.rules.len(),
            table == parser@,
            rules == state@.rules,
            start == acc_of(old(current)@, old(filldown)@, views(old(records)@)),
            well_typed(table.values, current@),
            well_typed(table.values, filldown@),
            run_rules(table, rules, line@, start, 0) == run_rules(
                table,
                rules,
                line@,
                acc_of(current@, filldown@, views(records@)),
                i as int,
            ),
        decreases state.rules.len() - i,
    {
        let rule = &state.rules[i];
        let ghost acc = acc_of(current@, filldown@, views(records@));
        match rule.regex.occurrences(&rule.match_variables, line) {
            None => {
                return Err(FsmError::MatchFailed(rule.regex.as_str().to_owned()));
            },
            Some(rows) => {
                if rows.len() > 0 {
                    let (bound, bound_filldown) = capture(parser, &rule.match_variables, &rows);
                    current.append_from(&bound);
                    filldown.overwrite_from(bound_filldown);
                    act(parser, rule.transition.record_action, current, filldown, records);
                    match &rule.transition.line_action {
                        LineAction::Continue => {},
                        LineAction::Next(None) => {
                            return Ok(None);
                        },
                        LineAction::Next(Some(next)) => {
                            return Ok(Some(next.clone()));
                        },
                    }
                }
            },
        }
        i += 1;
    }
    Ok(None)
}


/// A state machine over a compiled table: the state that it is in, the record
/// at hand, the values that carry over into the next records, and the records
/// emitted so far. Every value in the record at hand and among the values that
/// carry over has the shape that its name is declared with.
#[derive(Debug)]
pub struct TextFSM {
    parser: TextFSMParser,
    curr_state: String,
    curr_record: DataRecord,
    filldown_record: DataRecord,
    records: Vec<DataRecord>,
}

/// The mathematical content of a [`TextFSM`].
pub struct FsmView {
    pub table: ParserView,
    pub machine: Machine,
}

impl View for TextFSM {
    type V = FsmView;

    closed spec fn view(&self) -> FsmView {
        FsmView {
            table: self.parser@,
            machine: Machine {
                state: self.curr_state@,
                acc: Accumulator {
                    current: self.curr_record@,
                    filldown: self.filldown_record@,
                    records: views(self.records@),
                },
            },
        }
    }
}

/// A machine, from its parts.
pub open spec fn machine_of(state: Seq<char>, acc: Accumulator) -> Machine {
    Machine { state, acc }
}

/// The end of a run, from its parts.
pub open spec fn run_of(machine: Machine, error: Option<FsmErrorView>) -> RunResult {
    RunResult { machine, error }
}

/// What a machine has gathered before its first line: nothing.
pub open spec fn nothing_gathered() -> Accumulator {
    Accumulator { current: Map::empty(), filldown: Map::empty(), records: Seq::empty() }
}

impl TextFSM {
    #[verifier::type_invariant]
    spec fn records_are_well_typed(self) -> bool {
        &&& well_typed(self.parser@.values, self.curr_record@)
        &&& well_typed(self.parser@.values, self.filldown_record@)
    }

    /// The records emitted so far.
    pub closed spec fn emitted(&self) -> Seq<DataRecord> {
        self.records@
    }

    /// A machine over `parser`, in the state `Start`, with nothing gathered.
    pub fn new(parser: TextFSMParser) -> (res: TextFSM)
        ensures
            res@.table == parser@,
            res@.machine == machine_of(start_name(), nothing_gathered()),
            res.emitted().len() == 0,
    {
        let res = TextFSM {
            parser,
            curr_state: "Start".to_owned(),
            curr_record: DataRecord::new(),
            filldown_record: DataRecord::new(),
            records: Vec::new(),
        };
        assert(views(res.records@) =~= Seq::<RecordView>::empty());
        res
    }

    /// The table that the machine runs.
    pub fn parser(&self) -> (res: &TextFSMParser)
        ensures
            res@ == self@.table,
    {
        &self.parser
    }

    /// The name of the state that the machine is in.
    pub fn curr_state(&self) -> (res: &str)
        ensures
            res@ == self@.machine.state,
    {
        self.curr_state.as_str()
    }

    /// The record at hand.
    pub fn curr_record(&self) -> (res: &DataRecord)
        ensures
            res@ == self@.machine.acc.current,
            well_typed(self@.table.values, res@),
    {
        proof {
            use_type_invariant(self);
        }
        &self.curr_record
    }

    /// The values that carry over into the next records.
    pub fn filldown_record(&self) -> (res: &DataRecord)
        ensures
            res@ == self@.machine.acc.filldown,
            well_typed(self@.table.values, res@),
    {
        proof {
            use_type_invariant(self);
        }
        &self.filldown_record
    }

    /// The records emitted so far.
    pub fn records(&self) -> (res: &Vec<DataRecord>)
        ensures
            res@ == self.emitted(),
            views(res@) == self@.machine.acc.records,
    {
        &self.records
    }

    /// Sends the machine to the state `state_name`, which must be `End` or a
    /// state of the table; a machine sent elsewhere stays where it is.
    pub fn set_curr_state(&mut self, state_name: &str) -> (res: Result<(), FsmError>)
        ensures
            final(self)@.table == old(self)@.table,
            final(self)@.machine.acc == old(self)@.machine.acc,
            final(self).emitted() == old(self).emitted(),
            match res {
                Ok(_) => can_enter(old(self)@.table, state_name@) && final(self)@.machine.state
                    == state_name@,
                Err(e) => !can_enter(old(self)@.table, state_name@) && e@
                    == FsmErrorView::UnknownState(state_name@) && final(self)@.machine.state == old(
                    self,
                )@.machine.state,
            },
    {
        proof {
            use_type_invariant(&*self);
        }
        let name = state_name.to_owned();
        if name != "End".to_owned() && self.parser.state(state_name).is_none() {
            return Err(FsmError::UnknownState(name));
        }
        self.curr_state = name;
        Ok(())
    }

    /// Whether the value `value_name` is declared with `Filldown`, if it is declared.
    pub fn is_filldown_value(&self, value_name: &str) -> (res: Option<bool>)
        ensures
            res == match find_value(self@.table.values, value_name@) {
                Some(value) => Some(value.is_filldown),
                None => None,
            },
    {
        match self.parser.value(value_name) {
            Some(value) => Some(value.is_filldown),
            None => None,
        }
    }

    /// Whether the value `value_name` is declared with `List`, if it is declared.
    pub fn is_list_value(&self, value_name: &str) -> (res: Option<bool>)
        ensures
            res == match find_value(self@.table.values, value_name@) {
                Some(value) => Some(value.is_list),
                None => None,
            },
    {
        match self.parser.value(value_name) {
            Some(value) => Some(value.is_list),
            None => None,
        }
    }

    /// Merges the text captured under `name` into `curr_record` and, for a value
    /// declared with `Filldown`, into `filldown_record`: as a list of one for a
    /// value declared as a list, as a scalar otherwise. For a group that took no
    /// part in the match, `maybe_value` is nothing, and the empty scalar or the
    /// list of the one item `None` is merged.
    pub fn insert_value(
        &self,
        curr_record: &mut DataRecord,
        filldown_record: &mut DataRecord,
        name: &str,
        maybe_value: Option<String>,
    )
        requires
            old(curr_record)@.contains_key(name@) ==> can_merge(
                old(curr_record)@[name@],
                wrapped(self@.table.values, name@, maybe_value.deep_view()),
            ),
            is_filldown_name(self@.table.values, name@) && old(filldown_record)@.contains_key(name@)
                ==> can_merge(
                old(filldown_record)@[name@],
                wrapped(self@.table.values, name@, maybe_value.deep_view()),
            ),
        ensures
            bound_of(final(curr_record)@, final(filldown_record)@) == bind(
                self@.table.values,
                bound_of(old(curr_record)@, old(filldown_record)@),
                name@,
                maybe_value.deep_view(),
            ),
    {
        bind_value(&self.parser, curr_record, filldown_record, &name.to_owned(), maybe_value);
    }

    /// Hands one line to the machine: the rules of its state are tried in order.
    /// Returns where the line sends the machine, if anywhere; the machine stays
    /// in its state. Fails if the table has no state of the machine's state's
    /// name, or if the backtracking engine gives a search up.
    pub fn parse_line(&mut self, aline: &str) -> (res: Result<Option<NextState>, FsmError>)
        ensures
            final(self)@.table == old(self)@.table,
            final(self)@.machine.state == old(self)@.machine.state,
            line_of(final(self)@.machine.acc, outcome_view(res)) == line_result(
                old(self)@.table,
                old(self)@.machine.state,
                old(self)@.machine.acc,
                aline@,
            ),
    {
        proof {
            use_type_invariant(&*self);
        }
        let mut current = DataRecord::new();
        let mut filldown = DataRecord::new();
        let mut records: Vec<DataRecord> = Vec::new();
        std::mem::swap(&mut current, &mut self.curr_record);
        std::mem::swap(&mut filldown, &mut self.filldown_record);
        std::mem::swap(&mut records, &mut self.records);
        let res = match self.parser.state(self.curr_state.as_str()) {
            Some(state) => try_rules(
                &self.parser,
                state,
                aline,
                &mut current,
                &mut filldown,
                &mut records,
            ),
            None => Err(FsmError::UnknownState(self.curr_state.clone())),
        };
        self.curr_record = current;
        self.filldown_record = filldown;
        self.records = records;
        res
    }

    /// Hands one line to the machine and sends the machine where the line sends it.
    pub fn advance(&mut self, line: &str) -> (res: Option<FsmError>)
        ensures
            final(self)@.table == old(self)@.table,
            run_of(final(self)@.machine, error_view(res)) == step(
                old(self)@.table,
                old(self)@.machine,
                line@,
            ),
    {
        match self.parse_line(line) {
            Err(e) => Some(e),
            Ok(None) => None,
            Ok(Some(NextState::Error(message))) => Some(FsmError::ErrorState(message)),
            Ok(Some(NextState::NamedState(name))) => {
                match self.set_curr_state(name.as_str()) {
                    Ok(_) => None,
                    Err(e) => Some(e),
                }
            },
        }
    }

    /// Ends the run: a machine that is not in the state `End` is given one empty
    /// line in the state `EOF`, and is in the state `End` after it.
    pub fn finish(&mut self) -> (res: Option<FsmError>)
        ensures
            final(self)@.table == old(self)@.table,
            run_of(final(self)@.machine, error_view(res)) == finish(
                old(self)@.table,
                old(self)@.machine,
            ),
    {
        proof {
            reveal_strlit("End");
            reveal_strlit("EOF");
            reveal_strlit("");
            assert(""@ =~= Seq::<char>::empty());
            assert("EOF"@ != "End"@) by {
                assert("EOF"@[1] == 'O');
            }
        }
        if self.curr_state == "End".to_owned() {
            return None;
        }
        match self.set_curr_state("EOF") {
            Err(e) => {
                return Some(e);
            },
            Ok(_) => {},
        }
        match self.parse_line("") {
            Err(e) => Some(e),
            Ok(_) => {
                match self.set_curr_state("End") {
                    Ok(_) => None,
                    Err(e) => Some(e),
                }
            },
        }
    }

    /// The records of `src` with every name made lowercase.
    pub fn lowercase_keys(src: &Vec<DataRecord>) -> (res: Vec<DataRecord>)
        ensures
            are_lowercased(res@, src@),
    {
        let mut out: Vec<DataRecord> = Vec::new();
        let mut i: usize = 0;
        while i < src.len()
            invariant
                i <= src.len(),
                out.len() == i,
                forall|j: int|
                    0 <= j < i ==> (#[trigger] out@[j])@ == lowercased(
                        src@[j].key_seq(),
                        src@[j]@,
                        src@[j].key_seq().len() as int,
                    ) && out@[j].key_seq() == lowercased_keys(
                        src@[j].key_seq(),
                        src@[j].key_seq().len() as int,
                    ),
            decreases src.len() - i,
        {
            let entries = src[i].iter();
            let ghost keys = src@[i as int].key_seq();
            let ghost record = src@[i as int]@;
            let mut lowered = DataRecord::new();
            let mut k: usize = 0;
            while k < entries.len()
                invariant
                    k <= entries.len(),
                    entries.len() == keys.len(),
                    forall|j: int|
                        0 <= j < entries.len() ==> (#[trigger] entries[j]).0@ == keys[j]
                            && entries[j].1@ == record[entries[j].0@],
                    lowered@ == lowercased(keys, record, k as int),
                    lowered.key_seq() == lowercased_keys(keys, k as int),
                decreases entries.len() - k,
            {
                lowered.set(entries[k].0.as_str().to_lowercase(), entries[k].1.clone());
                k += 1;
            }
            out.push(lowered);
            i += 1;
        }
        out
    }

    /// Runs the machine over the lines of an input, line by line, until a line
    /// fails or leaves the machine in the state `EOF` or `End`, and ends the
    /// run. Returns the records emitted, after the conversion asked for.
    pub fn parse_lines(
        &mut self,
        lines: &Vec<String>,
        conversion: Option<DataRecordConversion>,
    ) -> (res:
        Result<Vec<DataRecord>, FsmError>)
        ensures
            final(self)@.table == old(self)@.table,
            final(self)@.machine == run(
                old(self)@.table,
                old(self)@.machine,
                lines.deep_view(),
            ).machine,
            views(final(self).emitted()) == final(self)@.machine.acc.records,
            match res {
                Ok(records) => run(old(self)@.table, old(self)@.machine, lines.deep_view()).error
                    is None && are_converted(records@, final(self).emitted(), conversion),
                Err(e) => run(old(self)@.table, old(self)@.machine, lines.deep_view()).error
                    == Some(e@),
            },
    {
        let ghost table = self@.table;
        let ghost all = lines.deep_view();
        let mut i: usize = 0;
        while i < lines.len()
            invariant_except_break
                i <= lines.len(),
                table == old(self)@.table,
                all == lines.deep_view(),
                self@.table == table,
                run_from(table, old(self)@.machine, all, 0) == run_from(
                    table,
                    self@.machine,
                    all,
                    i as int,
                ),
            ensures
                self@.table == table,
                table == old(self)@.table,
                all == lines.deep_view(),
                run_from(table, old(self)@.machine, all, 0) == run_of(self@.machine, None),
            decreases lines.len() - i,
        {
            match self.advance(lines[i].as_str()) {
                Some(e) => {
                    return Err(e);
                },
                None => {},
            }
            if self.curr_state == "EOF".to_owned() || self.curr_state == "End".to_owned() {
                break ;
            }
            i += 1;
        }
        match self.finish() {
            Some(e) => {
                return Err(e);
            },
            None => {},
        }
        match conversion {
            None => {
                let mut out: Vec<DataRecord> = Vec::new();
                let mut k: usize = 0;
                while k < self.records.len()
                    invariant
                        k <= self.records.len(),
                        out.len() == k,
                        forall|j: int|
                            0 <= j < k ==> (#[trigger] out[j])@ == self.records[j]@
                                && out[j].key_seq() == self.records[j].key_seq(),
                    decreases self.records.len() - k,
                {
                    out.push(self.records[k].clone());
                    k += 1;
                }
                Ok(out)
            },
            Some(DataRecordConversion::LowercaseKeys) => Ok(Self::lowercase_keys(&self.records)),
        }
    }
}

impl Clone for TextFSM {
    fn clone(&self) -> (res: TextFSM)
        ensures
            res@ == self@,
    {
        proof {
            use_type_invariant(self);
        }
        let mut records: Vec<DataRecord> = Vec::new();
        let mut k: usize = 0;
        while k < self.records.len()
            invariant
                k <= self.records.len(),
                records.len() == k,
                forall|j: int| 0 <= j < k ==> records[j]@ == self.records[j]@,
            decreases self.records.len() - k,
        {
            records.push(self.records[k].clone());
            k += 1;
        }
        assert(views(records@) =~= views(self.records@));
        TextFSM {
            parser: self.parser.clone(),
            curr_state: self.curr_state.clone(),
            curr_record: self.curr_record.clone(),
            filldown_record: self.filldown_record.clone(),
            records,
        }
    }
}

/// What a fresh machine over `table` makes of an input: the machine at the end
/// of its run, or at the point where the run failed.
pub open spec fn interpreted(table: ParserView, lines: Seq<Seq<char>>) -> RunResult {
    run(table, machine_of(start_name(), nothing_gathered()), lines)
}

/// Runs a fresh machine over `table` and the lines of an input, and returns
/// the records that it emits. The table is left as it is, and any number of
/// machines may run over it.
pub fn interpret(table: &TextFSMParser, input_lines: &Vec<String>) -> (res: Result<
    Vec<DataRecord>,
    FsmError,
>)
    ensures
        match res {
            Ok(records) => interpreted(table@, input_lines.deep_view()).error is None && views(
                records@,
            ) == interpreted(table@, input_lines.deep_view()).machine.acc.records,
            Err(e) => interpreted(table@, input_lines.deep_view()).error == Some(e@),
        },
{
    let mut fsm = TextFSM::new(table.clone());
    match fsm.parse_lines(input_lines, None) {
        Ok(records) => {
            Ok(records)
        },
        Err(e) => Err(e),
    }
}

} // verus!
