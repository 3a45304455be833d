//! What holds of every template, every record and every run: the laws of the
//! merge algebra, of recording, of the values that carry over, and of the end
//! of the input.

use crate::compiler::{
    compile_rule, eof_rule, expanded, compiled, eof_name, find_state, find_value, state_names,
    table_wf, value_names, CompiledRuleView, ParserView, StateView,
};
use crate::text::{first_named, lemma_first_named};
use crate::engine::{occurrences_of, Bindings};
use crate::fsm::{
    interpreted, absorb, apply_match, apply_record_action, bind, bound_row, bound_rows, end_name,
    finish, is_filldown_name, is_list_name, line_result, run, run_from, run_rules, step, well_typed,
    Accumulator, Bound, Machine,
};
use crate::record::{RecordView, ValueView};
use crate::template::{
    CompileErrorView, LineActionView, NextStateView, RecordAction, ValueDefinitionView,
};
use crate::varsubst::{chunks_of, ChunkView};
use vstd::prelude::*;

verus! {

/// Compiling the same template twice gives tables on which every machine runs
/// alike over every input, a fresh machine too.
pub proof fn law_compiling_twice_runs_alike(
    template: Seq<char>,
    one: ParserView,
    two: ParserView,
    m: Machine,
    lines: Seq<Seq<char>>,
)
    requires
        compiled(template) == Ok::<ParserView, CompileErrorView>(one),
        compiled(template) == Ok::<ParserView, CompileErrorView>(two),
    ensures
        run(one, m, lines) == run(two, m, lines),
        interpreted(one, lines) == interpreted(two, lines),
{
}

/// The items that a record holds under `name`, if it holds a list there.
pub open spec fn items_under(record: RecordView, name: Seq<char>) -> Seq<Seq<char>> {
    if record.contains_key(name) {
        match record[name] {
            ValueView::List(items) => items,
            ValueView::Single(_) => Seq::empty(),
        }
    } else {
        Seq::empty()
    }
}

/// Under a name declared as a list, the text `x` and then the text `y` leave a
/// list that ends in `x`, `y`: the list `[x, y]` in a record that did not hold
/// the name.
pub proof fn law_list_values_gather(
    values: Seq<ValueDefinitionView>,
    b: Bound,
    name: Seq<char>,
    x: Seq<char>,
    y: Seq<char>,
)
    requires
        is_list_name(values, name),
        well_typed(values, b.record),
    ensures
        bind(values, bind(values, b, name, Some(x)), name, Some(y)).record[name]
            == ValueView::List(items_under(b.record, name) + seq![x, y]),
        !b.record.contains_key(name) ==> bind(
            values,
            bind(values, b, name, Some(x)),
            name,
            Some(y),
        ).record[name] == ValueView::List(seq![x, y]),
{
    assert((items_under(b.record, name) + seq![x]) + seq![y] =~= items_under(b.record, name)
        + seq![x, y]);
}

/// Under a name not declared as a list, the text `x` and then the text `y`
/// leave the scalar `y`: the last one counts.
pub proof fn law_scalar_values_overwrite(
    values: Seq<ValueDefinitionView>,
    b: Bound,
    name: Seq<char>,
    x: Seq<char>,
    y: Seq<char>,
)
    requires
        !is_list_name(values, name),
        well_typed(values, b.record),
    ensures
        bind(values, bind(values, b, name, Some(x)), name, Some(y)).record[name]
            == ValueView::Single(y),
{
}

/// `Record` with one of the names that a record must hold missing from the
/// record at hand emits nothing and leaves the record at hand, and all else, as
/// it is.
pub proof fn law_record_needs_mandatory_names(table: ParserView, acc: Accumulator, i: int)
    requires
        0 <= i < table.mandatory_values.len(),
        !acc.current.contains_key(table.mandatory_values[i]),
    ensures
        apply_record_action(table, acc, RecordAction::Record) == acc,
{
}

/// `Record` with a value declared with `Required` missing from the record at
/// hand emits nothing and leaves the record at hand, and all else, as it is.
pub proof fn law_record_needs_required_values(table: ParserView, acc: Accumulator, name: Seq<char>)
    requires
        table_wf(table),
        find_value(table.values, name) is Some,
        find_value(table.values, name)->0.is_required,
        !acc.current.contains_key(name),
    ensures
        apply_record_action(table, acc, RecordAction::Record) == acc,
{
    lemma_first_named(value_names(table.values), name, 0);
    let at = first_named(value_names(table.values), name, 0)->0;
    let i = choose|i: int| 0 <= i < table.mandatory_values.len() && table.mandatory_values[i] == name;
}

/// Whether the records of `after` are those of `before` and then records that
/// all hold `v` under `name`.
pub open spec fn new_records_hold(
    before: Accumulator,
    after: Accumulator,
    name: Seq<char>,
    v: ValueView,
) -> bool {
    &&& before.records.len() <= after.records.len()
    &&& forall|i: int| 0 <= i < before.records.len() ==> #[trigger] after.records[i] == before.records[i]
    &&& forall|i: int|
        before.records.len() <= i < after.records.len() ==> (#[trigger] after.records[i]).contains_key(
            name,
        ) && after.records[i][name] == v
}

/// Whether the record at hand and the values that carry over both hold `v` under `name`.
pub open spec fn carries(acc: Accumulator, name: Seq<char>, v: ValueView) -> bool {
    &&& acc.current.contains_key(name)
    &&& acc.current[name] == v
    &&& acc.filldown.contains_key(name)
    &&& acc.filldown[name] == v
}

/// A value declared with `Filldown` that the machine carries stays as it is
/// through every record action but `Clearall`, through `Clear` too, and is in
/// the record that the action emits.
pub proof fn law_filldown_survives_actions(
    table: ParserView,
    acc: Accumulator,
    action: RecordAction,
    name: Seq<char>,
    v: ValueView,
)
    requires
        is_filldown_name(table.values, name),
        carries(acc, name, v),
        action != RecordAction::Clearall,
    ensures
        carries(apply_record_action(table, acc, action), name, v),
        new_records_hold(acc, apply_record_action(table, acc, action), name, v),
{
}

/// What a rule binds is bound under the names that it captures.
proof fn lemma_bound_names(
    values: Seq<ValueDefinitionView>,
    names: Seq<Seq<char>>,
    rows: Seq<Bindings>,
    n: int,
    name: Seq<char>,
)
    requires
        !names.contains(name),
    ensures
        !bound_rows(values, names, rows, n).record.contains_key(name),
        !bound_rows(values, names, rows, n).filldown.contains_key(name),
    decreases n,
{
    if n > 0 {
        lemma_bound_names(values, names, rows, n - 1, name);
        lemma_bound_row_names(
            values,
            names,
            rows[n - 1],
            bound_rows(values, names, rows, n - 1),
            names.len() as int,
            name,
        );
    }
}

proof fn lemma_bound_row_names(
    values: Seq<ValueDefinitionView>,
    names: Seq<Seq<char>>,
    row: Bindings,
    b: Bound,
    n: int,
    name: Seq<char>,
)
    requires
        !names.contains(name),
        n <= names.len(),
        !b.record.contains_key(name),
        !b.filldown.contains_key(name),
    ensures
        !bound_row(values, names, row, b, n).record.contains_key(name),
        !bound_row(values, names, row, b, n).filldown.contains_key(name),
    decreases n,
{
    if n > 0 {
        lemma_bound_row_names(values, names, row, b, n - 1, name);
    }
}

/// A value declared with `Filldown` that the machine carries stays as it is
/// when a rule matches that neither captures it nor clears all, and is in the
/// record that the rule emits.
pub proof fn law_filldown_survives_matches(
    table: ParserView,
    acc: Accumulator,
    rule: CompiledRuleView,
    rows: Seq<Bindings>,
    name: Seq<char>,
    v: ValueView,
)
    requires
        is_filldown_name(table.values, name),
        carries(acc, name, v),
        !rule.match_variables.contains(name),
        rule.transition.record_action != RecordAction::Clearall,
    ensures
        carries(apply_match(table, acc, rule, rows), name, v),
        new_records_hold(acc, apply_match(table, acc, rule, rows), name, v),
{
    lemma_bound_names(table.values, rule.match_variables, rows, rows.len() as int, name);
}

/// Whether no rule of `rules` captures `name` or clears all.
pub open spec fn rules_keep(rules: Seq<CompiledRuleView>, name: Seq<char>) -> bool {
    forall|j: int|
        0 <= j < rules.len() ==> !(#[trigger] rules[j]).match_variables.contains(name)
            && rules[j].transition.record_action != RecordAction::Clearall
}

/// A value declared with `Filldown` that the machine carries stays as it is
/// through the rules that a line is tried on, and is in every record that they
/// emit, if none of them captures it or clears all.
pub proof fn law_filldown_survives_rules(
    table: ParserView,
    rules: Seq<CompiledRuleView>,
    line: Seq<char>,
    acc: Accumulator,
    from: int,
    name: Seq<char>,
    v: ValueView,
)
    requires
        is_filldown_name(table.values, name),
        carries(acc, name, v),
        rules_keep(rules, name),
        0 <= from,
    ensures
        carries(run_rules(table, rules, line, acc, from).acc, name, v),
        new_records_hold(acc, run_rules(table, rules, line, acc, from).acc, name, v),
    decreases rules.len() - from,
{
    if from < rules.len() {
        match occurrences_of(rules[from].regex, rules[from].match_variables, line) {
            None => {},
            Some(rows) => {
                if rows.len() == 0 {
                    law_filldown_survives_rules(table, rules, line, acc, from + 1, name, v);
                } else {
                    let next = apply_match(table, acc, rules[from], rows);
                    law_filldown_survives_matches(table, acc, rules[from], rows, name, v);
                    match rules[from].transition.line_action {
                        LineActionView::Continue => {
                            law_filldown_survives_rules(table, rules, line, next, from + 1, name, v);
                        },
                        LineActionView::Next(_) => {},
                    }
                }
            },
        }
    }
}

/// Whether no rule of the table captures `name` or clears all.
pub open spec fn table_keeps(table: ParserView, name: Seq<char>) -> bool {
    forall|i: int| 0 <= i < table.states.len() ==> rules_keep((#[trigger] table.states[i]).rules, name)
}

/// A value declared with `Filldown` that the machine carries stays as it is
/// through a line in whatever state, and is in every record that the line
/// emits, if no rule of the table captures it or clears all.
pub proof fn law_filldown_survives_lines(
    table: ParserView,
    state: Seq<char>,
    acc: Accumulator,
    line: Seq<char>,
    name: Seq<char>,
    v: ValueView,
)
    requires
        is_filldown_name(table.values, name),
        carries(acc, name, v),
        table_keeps(table, name),
    ensures
        carries(line_result(table, state, acc, line).acc, name, v),
        new_records_hold(acc, line_result(table, state, acc, line).acc, name, v),
{
    lemma_first_named(state_names(table.states), state, 0);
    match find_state(table.states, state) {
        None => {},
        Some(s) => {
            let at = first_named(state_names(table.states), state, 0)->0;
            law_filldown_survives_rules(table, s.rules, line, acc, 0, name, v);
        },
    }
}

/// A value declared with `Filldown` that the machine carries stays as it is
/// through the lines of an input, and is in every record that they emit, if
/// no rule of the table captures it or clears all.
pub proof fn law_filldown_survives_inputs(
    table: ParserView,
    m: Machine,
    lines: Seq<Seq<char>>,
    from: int,
    name: Seq<char>,
    v: ValueView,
)
    requires
        is_filldown_name(table.values, name),
        carries(m.acc, name, v),
        table_keeps(table, name),
        0 <= from,
    ensures
        carries(run_from(table, m, lines, from).machine.acc, name, v),
        new_records_hold(m.acc, run_from(table, m, lines, from).machine.acc, name, v),
    decreases lines.len() - from,
{
    if from < lines.len() {
        let r = step(table, m, lines[from]);
        law_filldown_survives_lines(table, m.state, m.acc, lines[from], name, v);
        if r.error is Some || r.machine.state == eof_name() || r.machine.state == end_name() {
        } else {
            law_filldown_survives_inputs(table, r.machine, lines, from + 1, name, v);
        }
    }
}

/// A value declared with `Filldown` that the machine carries is, unchanged,
/// in every record that a run emits from then on, the one at the end of the
/// input too, if no rule of the table captures it or clears all.
pub proof fn law_filldown_survives_runs(
    table: ParserView,
    m: Machine,
    lines: Seq<Seq<char>>,
    name: Seq<char>,
    v: ValueView,
)
    requires
        is_filldown_name(table.values, name),
        carries(m.acc, name, v),
        table_keeps(table, name),
    ensures
        carries(run(table, m, lines).machine.acc, name, v),
        new_records_hold(m.acc, run(table, m, lines).machine.acc, name, v),
{
    let r = run_from(table, m, lines, 0);
    law_filldown_survives_inputs(table, m, lines, 0, name, v);
    if r.error is None {
        law_filldown_survives_lines(table, eof_name(), r.machine.acc, Seq::empty(), name, v);
    }
}

/// What a rule binds under a name declared with `Filldown` is the same in its
/// two records.
proof fn lemma_bound_filldown(
    values: Seq<ValueDefinitionView>,
    names: Seq<Seq<char>>,
    rows: Seq<Bindings>,
    n: int,
    name: Seq<char>,
)
    requires
        is_filldown_name(values, name),
    ensures
        bound_rows(values, names, rows, n).record.contains_key(name) == bound_rows(
            values,
            names,
            rows,
            n,
        ).filldown.contains_key(name),
        bound_rows(values, names, rows, n).record.contains_key(name) ==> bound_rows(
            values,
            names,
            rows,
            n,
        ).record[name] == bound_rows(values, names, rows, n).filldown[name],
    decreases n,
{
    if n > 0 {
        lemma_bound_filldown(values, names, rows, n - 1, name);
        lemma_bound_row_filldown(
            values,
            names,
            rows[n - 1],
            bound_rows(values, names, rows, n - 1),
            names.len() as int,
            name,
        );
    }
}

proof fn lemma_bound_row_filldown(
    values: Seq<ValueDefinitionView>,
    names: Seq<Seq<char>>,
    row: Bindings,
    b: Bound,
    n: int,
    name: Seq<char>,
)
    requires
        is_filldown_name(values, name),
        b.record.contains_key(name) == b.filldown.contains_key(name),
        b.record.contains_key(name) ==> b.record[name] == b.filldown[name],
    ensures
        bound_row(values, names, row, b, n).record.contains_key(name) == bound_row(
            values,
            names,
            row,
            b,
            n,
        ).filldown.contains_key(name),
        bound_row(values, names, row, b, n).record.contains_key(name) ==> bound_row(
            values,
            names,
            row,
            b,
            n,
        ).record[name] == bound_row(values, names, row, b, n).filldown[name],
    decreases n,
{
    if n > 0 {
        lemma_bound_row_filldown(values, names, row, b, n - 1, name);
    }
}

/// A rule that binds a scalar value declared with `Filldown` leaves the same
/// value of it in the record at hand and among the values that carry over.
pub proof fn law_filldown_is_set(
    table: ParserView,
    acc: Accumulator,
    rule: CompiledRuleView,
    rows: Seq<Bindings>,
    name: Seq<char>,
)
    requires
        is_filldown_name(table.values, name),
        !is_list_name(table.values, name),
        well_typed(table.values, acc.current),
        bound_rows(
            table.values,
            rule.match_variables,
            rows,
            rows.len() as int,
        ).record.contains_key(name),
    ensures
        carries(
            absorb(
                acc,
                bound_rows(table.values, rule.match_variables, rows, rows.len() as int),
            ),
            name,
            bound_rows(table.values, rule.match_variables, rows, rows.len() as int).record[name],
        ),
{
    lemma_bound_filldown(table.values, rule.match_variables, rows, rows.len() as int, name);
}

/// At the end of its input, a machine over a table as the compiler makes it
/// that is not in the state `End` is given the empty line in the state `EOF`:
/// the table has that state.
pub proof fn law_end_of_input_is_handed_on(table: ParserView, m: Machine)
    requires
        table_wf(table),
        m.state != end_name(),
    ensures
        finish(table, m).machine.acc == line_result(table, eof_name(), m.acc, Seq::empty()).acc,
        finish(table, m).error is None ==> finish(table, m).machine.state == end_name(),
        finish(table, m).error is Some ==> line_result(
            table,
            eof_name(),
            m.acc,
            Seq::empty(),
        ).outcome is Err,
{
}

/// Whether the table ends a run with the state that every table starts with:
/// one rule, which captures nothing, records and goes to `End`.
pub open spec fn ends_with_a_record(table: ParserView, rule: CompiledRuleView) -> bool {
    &&& find_state(table.states, eof_name()) == Some(
        StateView { name: eof_name(), rules: seq![rule] },
    )
    &&& rule.match_variables.len() == 0
    &&& rule.transition.record_action == RecordAction::Record
    &&& rule.transition.line_action == LineActionView::Next(
        Some(NextStateView::NamedState(end_name())),
    )
}

/// The rule of the state that every table starts with captures nothing,
/// records and goes to `End`, whatever the values are.
pub proof fn law_last_rule_records(values: Seq<ValueDefinitionView>, rule: CompiledRuleView)
    requires
        compile_rule(eof_rule(), values) == Ok::<CompiledRuleView, CompileErrorView>(rule),
    ensures
        rule.match_variables.len() == 0,
        rule.transition.record_action == RecordAction::Record,
        rule.transition.line_action == LineActionView::Next(
            Some(NextStateView::NamedState(end_name())),
        ),
{
    reveal_strlit(".*");
    let text = ".*"@;
    reveal_with_fuel(crate::varsubst::text_end, 3);
    assert(chunks_of(text) == Ok::<Seq<ChunkView>, int>(
        seq![ChunkView::Text(text.subrange(0, 2))] + Seq::<ChunkView>::empty(),
    )) by {
        reveal_with_fuel(crate::varsubst::chunks_from, 3);
    }
    reveal_with_fuel(expanded, 3);
}

/// A run that goes through its input without failing and does not reach the
/// state `End` ends with one more `Record`, on what the machine has gathered
/// behind the last line, if the table ends a run with the state that every
/// table starts with and the rule of that state finds the empty line.
pub proof fn law_end_of_input_records(
    table: ParserView,
    m: Machine,
    lines: Seq<Seq<char>>,
    rule: CompiledRuleView,
    rows: Seq<Bindings>,
)
    requires
        ends_with_a_record(table, rule),
        occurrences_of(rule.regex, rule.match_variables, Seq::empty()) == Some(rows),
        rows.len() > 0,
        run_from(table, m, lines, 0).error is None,
        run_from(table, m, lines, 0).machine.state != end_name(),
    ensures
        run(table, m, lines).error is None,
        run(table, m, lines).machine.state == end_name(),
        run(table, m, lines).machine.acc == apply_record_action(
            table,
            run_from(table, m, lines, 0).machine.acc,
            RecordAction::Record,
        ),
{
    let before = run_from(table, m, lines, 0).machine;
    lemma_binds_nothing(table.values, rule.match_variables, rows, rows.len() as int);
    let b = bound_rows(table.values, rule.match_variables, rows, rows.len() as int);
    assert(absorb(before.acc, b).current =~= before.acc.current);
    assert(absorb(before.acc, b).filldown =~= before.acc.filldown);
}

/// A rule that captures no name binds nothing.
proof fn lemma_binds_nothing(
    values: Seq<ValueDefinitionView>,
    names: Seq<Seq<char>>,
    rows: Seq<Bindings>,
    n: int,
)
    requires
        names.len() == 0,
    ensures
        bound_rows(values, names, rows, n) == (Bound {
            record: Map::empty(),
            filldown: Map::empty(),
        }),
    decreases n,
{
    if n > 0 {
        lemma_binds_nothing(values, names, rows, n - 1);
    }
}

} // verus!
