//! The template compiler: from the lines of a template to the table of states
//! that the state machine runs.

use crate::engine::{select_backend, MultiRegex, MultiRegexView};
use crate::grammar::{is_value_line, state_rule_of, value_definition_of, value_line};
use crate::template::{
    views, CompileError, CompileErrorView, LineAction, LineActionView, NextState, NextStateView,
    RecordAction, RuleTransition, RuleTransitionView, StateRule, StateRuleView, ValueDefinition,
    ValueDefinitionView,
};
use crate::text::{
    after_blanks, before_blanks, blank, chars_of, first_named, is_blank, is_name,
    lemma_first_named, name_in, skip_blanks, string_from, string_of, trim_end,
};
use crate::varsubst::{chunks_of, ChunkView, ParseChunk, VariableParser};
use vstd::prelude::*;

verus! {

/// The names of a list of values, in order.
pub open spec fn value_names(values: Seq<ValueDefinitionView>) -> Seq<Seq<char>> {
    Seq::new(values.len(), |i: int| values[i].name)
}

/// The value that `values` declares under `name`: the first of that name.
pub open spec fn find_value(values: Seq<ValueDefinitionView>, name: Seq<char>) -> Option<
    ValueDefinitionView,
> {
    match first_named(value_names(values), name, 0) {
        Some(i) => Some(values[i]),
        None => None,
    }
}

/// Whether `values` declares a value under `name`.
pub open spec fn declares(values: Seq<ValueDefinitionView>, name: Seq<char>) -> bool {
    find_value(values, name) is Some
}

/// The place of the first value of `values` with the name `name`.
pub fn value_index(values: &Vec<ValueDefinition>, name: &String) -> (res: Option<usize>)
    ensures
        match res {
            Some(i) => first_named(value_names(views(values@)), name@, 0) == Some(i as int) && i
                < values.len(),
            None => first_named(value_names(views(values@)), name@, 0) is None,
        },
{
    let ghost names = value_names(views(values@));
    let mut i: usize = 0;
    while i < values.len()
        invariant
            i <= values.len(),
            names == value_names(views(values@)),
            first_named(names, name@, 0) == first_named(names, name@, i as int),
        decreases values.len() - i,
    {
        if values[i].name == *name {
            return Some(i);
        }
        i += 1;
    }
    None
}

/// The named group that captures a value: `(?P<name>pattern)`.
pub open spec fn group_for(name: Seq<char>, pattern: Seq<char>) -> Seq<char> {
    "(?P<"@ + name + ">"@ + pattern + ")"@
}

/// The text of a rule with its references written out, and the names referred to, in order.
pub struct Expansion {
    pub text: Seq<char>,
    pub variables: Seq<Seq<char>>,
}

/// The first `n` chunks of a rule written out against `values`: text stays, `$$`
/// becomes a dollar sign, and a reference becomes the named group that captures
/// the value; or the first name referred to that `values` does not declare.
pub open spec fn expanded(
    chunks: Seq<ChunkView>,
    values: Seq<ValueDefinitionView>,
    n: int,
) -> Result<
    Expansion,
    Seq<char>,
>
    decreases n,
{
    if n <= 0 {
        Ok(Expansion { text: Seq::empty(), variables: Seq::empty() })
    } else {
        match expanded(chunks, values, n - 1) {
            Err(variable) => Err(variable),
            Ok(e) => match chunks[n - 1] {
                ChunkView::DollarDollar => Ok(
                    Expansion { text: e.text.push('$'), variables: e.variables },
                ),
                ChunkView::Text(t) => Ok(Expansion { text: e.text + t, variables: e.variables }),
                ChunkView::Variable(v) => match find_value(values, v) {
                    Some(value) => Ok(
                        Expansion {
                            text: e.text + group_for(v, value.regex_pattern),
                            variables: e.variables.push(v),
                        },
                    ),
                    None => Err(v),
                },
            },
        }
    }
}

/// Once a reference has failed, the chunks behind it change nothing.
proof fn lemma_expanded_fails(
    chunks: Seq<ChunkView>,
    values: Seq<ValueDefinitionView>,
    n: int,
    m: int,
)
    requires
        0 <= n <= m,
        expanded(chunks, values, n) is Err,
    ensures
        expanded(chunks, values, m) == expanded(chunks, values, n),
    decreases m,
{
    if n < m {
        lemma_expanded_fails(chunks, values, n, m - 1);
    }
}

/// The mathematical content of a [`StateRuleCompiled`].
pub struct CompiledRuleView {
    pub rule_match: Seq<char>,
    pub expanded_rule_match: Seq<char>,
    pub match_variables: Seq<Seq<char>>,
    pub regex: MultiRegexView,
    pub transition: RuleTransitionView,
}

/// A rule that is ready to run: its pattern with the references written out
/// and compiled, and the names that the pattern captures.
#[derive(Debug)]
pub struct StateRuleCompiled {
    pub rule_match: String,
    pub expanded_rule_match: String,
    pub match_variables: Vec<String>,
    pub regex: MultiRegex,
    pub transition: RuleTransition,
}

impl View for StateRuleCompiled {
    type V = CompiledRuleView;

    open spec fn view(&self) -> CompiledRuleView {
        CompiledRuleView {
            rule_match: self.rule_match@,
            expanded_rule_match: self.expanded_rule_match@,
            match_variables: self.match_variables.deep_view(),
            regex: self.regex@,
            transition: self.transition@,
        }
    }
}

impl Clone for StateRuleCompiled {
    fn clone(&self) -> (res: StateRuleCompiled)
        ensures
            res@ == self@,
    {
        StateRuleCompiled {
            rule_match: self.rule_match.clone(),
            expanded_rule_match: self.expanded_rule_match.clone(),
            match_variables: crate::record::clone_strings(&self.match_variables),
            regex: self.regex.clone(),
            transition: self.transition.clone(),
        }
    }
}

/// The compiled form of `rule` against `values`: the references of its text are
/// written out, and the pattern that results goes to the engine that takes it.
pub open spec fn compile_rule(rule: StateRuleView, values: Seq<ValueDefinitionView>) -> Result<
    CompiledRuleView,
    CompileErrorView,
> {
    match chunks_of(rule.rule_match) {
        Err(position) => Err(
            CompileErrorView::BadSubstitution { text: rule.rule_match, position },
        ),
        Ok(chunks) => match expanded(chunks, values, chunks.len() as int) {
            Err(variable) => Err(
                CompileErrorView::UndefinedVariable { rule: rule.rule_match, variable },
            ),
            Ok(e) => match select_backend(e.text) {
                Err(error) => Err(error),
                Ok(regex) => Ok(
                    CompiledRuleView {
                        rule_match: rule.rule_match,
                        expanded_rule_match: regex.source(),
                        match_variables: e.variables,
                        regex,
                        transition: rule.transition,
                    },
                ),
            },
        },
    }
}

/// Every name that the rule captures is declared.
pub open spec fn rule_wf(values: Seq<ValueDefinitionView>, rule: CompiledRuleView) -> bool {
    forall|k: int|
        0 <= k < rule.match_variables.len() ==> declares(values, #[trigger] rule.match_variables[k])
}

/// Appends the characters of `piece` to `out`.
fn append_chars(out: &mut Vec<char>, piece: &str)
    ensures
        final(out)@ == old(out)@ + piece@,
{
    let chars = chars_of(piece);
    let mut i: usize = 0;
    while i < chars.len()
        invariant
            i <= chars.len(),
            chars@ == piece@,
            out@ == old(out)@ + chars@.take(i as int),
        decreases chars.len() - i,
    {
        out.push(chars[i]);
        i += 1;
    }
}

/// Writes the chunks of a rule out against `values`.
fn expand(chunks: &Vec<ParseChunk>, values: &Vec<ValueDefinition>) -> (res: Result<
    (String, Vec<String>),
    String,
>)
    ensures
        match res {
            Ok(e) => expanded(views(chunks@), views(values@), chunks.len() as int) == Ok::<
                Expansion,
                Seq<char>,
            >(Expansion { text: e.0@, variables: e.1.deep_view() }) && forall|k: int|
                0 <= k < e.1.len() ==> declares(views(values@), #[trigger] e.1.deep_view()[k]),
            Err(variable) => expanded(views(chunks@), views(values@), chunks.len() as int) == Err::<
                Expansion,
                Seq<char>,
            >(variable@),
        },
{
    let mut text: Vec<char> = Vec::new();
    let mut variables: Vec<String> = Vec::new();
    let mut i: usize = 0;
    assert(variables.deep_view() =~= Seq::<Seq<char>>::empty());
    while i < chunks.len()
        invariant
            i <= chunks.len(),
            expanded(views(chunks@), views(values@), i as int) == Ok::<Expansion, Seq<char>>(
                Expansion { text: text@, variables: variables.deep_view() },
            ),
            forall|k: int|
                0 <= k < variables.len() ==> declares(
                    views(values@),
                    #[trigger] variables.deep_view()[k],
                ),
        decreases chunks.len() - i,
    {
        match &chunks[i] {
            ParseChunk::DollarDollar => {
                text.push('$');
            },
            ParseChunk::Text(t) => {
                append_chars(&mut text, t.as_str());
            },
            ParseChunk::Variable(v) => {
                match value_index(values, v) {
                    Some(at) => {
                        let ghost before = text@;
                        let ghost names = variables.deep_view();
                        append_chars(&mut text, "(?P<");
                        append_chars(&mut text, v.as_str());
                        append_chars(&mut text, ">");
                        append_chars(&mut text, values[at].regex_pattern.as_str());
                        append_chars(&mut text, ")");
                        variables.push(v.clone());
                        proof {
                            assert(text@ =~= before + group_for(v@, values[at as int].regex_pattern@));
                            assert(variables.deep_view() =~= names.push(v@));
                        }
                    },
                    None => {
                        proof {
                            lemma_expanded_fails(
                                views(chunks@),
                                views(values@),
                                i + 1,
                                chunks.len() as int,
                            );
                        }
                        return Err(v.clone());
                    },
                }
            },
        }
        i += 1;
    }
    Ok((string_from(&text), variables))
}


/// The mathematical content of a [`StateCompiled`].
pub struct StateView {
    pub name: Seq<char>,
    pub rules: Seq<CompiledRuleView>,
}

/// A state: its name and its rules, in the order in which they are tried.
#[derive(Debug)]
pub struct StateCompiled {
    pub name: String,
    pub rules: Vec<StateRuleCompiled>,
}

impl View for StateCompiled {
    type V = StateView;

    open spec fn view(&self) -> StateView {
        StateView { name: self.name@, rules: views(self.rules@) }
    }
}

impl Clone for StateCompiled {
    fn clone(&self) -> (res: StateCompiled)
        ensures
            res@ == self@,
    {
        let mut rules: Vec<StateRuleCompiled> = Vec::new();
        let mut i: usize = 0;
        while i < self.rules.len()
            invariant
                i <= self.rules.len(),
                rules.len() == i,
                forall|j: int| 0 <= j < i ==> rules[j]@ == self.rules[j]@,
            decreases self.rules.len() - i,
        {
            rules.push(self.rules[i].clone());
            i += 1;
        }
        assert(views(rules@) =~= views(self.rules@));
        StateCompiled { name: self.name.clone(), rules }
    }
}

/// Every rule of the state captures declared names only.
pub open spec fn state_wf(values: Seq<ValueDefinitionView>, state: StateView) -> bool {
    forall|j: int| 0 <= j < state.rules.len() ==> rule_wf(values, #[trigger] state.rules[j])
}

/// A line that holds nothing for the compiler: blanks only, or a comment, which starts with `#`.
pub open spec fn is_skippable(s: Seq<char>) -> bool {
    skip_blanks(s, 0) >= s.len() || s[skip_blanks(s, 0)] == '#'
}

/// A line that starts with a blank.
pub open spec fn is_indented(s: Seq<char>) -> bool {
    s.len() > 0 && is_blank(s[0])
}

/// The rules that the lines from `from` on hold, behind the rules `done`:
/// lines that hold nothing are passed over, every other line is a rule.
pub open spec fn rules_from(
    lines: Seq<Seq<char>>,
    values: Seq<ValueDefinitionView>,
    from: int,
    done: Seq<CompiledRuleView>,
) -> Result<Seq<CompiledRuleView>, CompileErrorView>
    decreases lines.len() - from,
{
    if from < 0 || from >= lines.len() {
        Ok(done)
    } else if is_skippable(lines[from]) {
        rules_from(lines, values, from + 1, done)
    } else {
        match state_rule_of(lines[from]) {
            Err(e) => Err(e),
            Ok(rule) => match compile_rule(rule, values) {
                Err(e) => Err(e),
                Ok(compiled) => rules_from(lines, values, from + 1, done.push(compiled)),
            },
        }
    }
}

/// The name on the line that starts a state: the line less its trailing blanks.
pub open spec fn state_name_of(header: Seq<char>) -> Seq<char> {
    header.subrange(0, trim_end(header, 0, header.len() as int))
}

/// The state that a block of lines defines: the first line is its name, the
/// others hold its rules.
pub open spec fn state_definition_of(
    lines: Seq<Seq<char>>,
    values: Seq<ValueDefinitionView>,
) -> Result<
    StateView,
    CompileErrorView,
> {
    if lines.len() == 0 {
        Err(CompileErrorView::Syntax { line: Seq::empty() })
    } else if !is_name(state_name_of(lines[0])) {
        Err(CompileErrorView::Syntax { line: lines[0] })
    } else {
        match rules_from(lines, values, 1, Seq::empty()) {
            Err(e) => Err(e),
            Ok(rules) => Ok(StateView { name: state_name_of(lines[0]), rules }),
        }
    }
}

/// `values` with `value` declared: in the place of the value of the same name,
/// if there is one, and at the end if not.
pub open spec fn declare(values: Seq<ValueDefinitionView>, value: ValueDefinitionView) -> Seq<
    ValueDefinitionView,
> {
    match first_named(value_names(values), value.name, 0) {
        Some(i) => values.update(i, value),
        None => values.push(value),
    }
}

/// The values of a template, and the names of those that a record must hold.
pub struct Declarations {
    pub values: Seq<ValueDefinitionView>,
    pub mandatory_values: Seq<Seq<char>>,
}

/// `done` with the value `value` declared.
pub open spec fn declared(done: Declarations, value: ValueDefinitionView) -> Declarations {
    Declarations {
        values: declare(done.values, value),
        mandatory_values: if value.is_required {
            done.mandatory_values.push(value.name)
        } else {
            done.mandatory_values
        },
    }
}

/// The values that the lines from `from` on declare, behind those of `done`:
/// lines that hold nothing are passed over, every other line declares a value.
pub open spec fn value_defs_from(lines: Seq<Seq<char>>, from: int, done: Declarations) -> Result<
    Declarations,
    CompileErrorView,
>
    decreases lines.len() - from,
{
    if from < 0 || from >= lines.len() {
        Ok(done)
    } else if is_skippable(lines[from]) {
        value_defs_from(lines, from + 1, done)
    } else {
        match value_definition_of(lines[from]) {
            Err(e) => Err(e),
            Ok(value) => value_defs_from(lines, from + 1, declared(done, value)),
        }
    }
}

/// The values that a list of lines declares.
pub open spec fn value_defs_of(lines: Seq<Seq<char>>) -> Result<Declarations, CompileErrorView> {
    value_defs_from(
        lines,
        0,
        Declarations { values: Seq::empty(), mandatory_values: Seq::empty() },
    )
}

/// Whether a line holds nothing for the compiler.
pub fn skippable(v: &Vec<char>) -> (res: bool)
    ensures
        res == is_skippable(v@),
{
    let at = after_blanks(v, 0);
    at >= v.len() || v[at] == '#'
}

/// A copy of the strings `lines[from..to]`.
pub fn lines_between(lines: &Vec<String>, from: usize, to: usize) -> (res: Vec<String>)
    requires
        from <= to <= lines.len(),
    ensures
        res.deep_view() == lines.deep_view().subrange(from as int, to as int),
{
    let mut res: Vec<String> = Vec::new();
    let mut i: usize = from;
    while i < to
        invariant
            from <= i <= to <= lines.len(),
            res.len() == i - from,
            forall|j: int| 0 <= j < i - from ==> res[j]@ == lines[from + j]@,
        decreases to - i,
    {
        res.push(lines[i].clone());
        i += 1;
    }
    res
}

/// The compiled table of a template: its values, the names of the values that
/// a record must hold, and its states. Every rule of it captures declared
/// names only.
#[derive(Debug)]
pub struct TextFSMParser {
    values: Vec<ValueDefinition>,
    mandatory_values: Vec<String>,
    states: Vec<StateCompiled>,
}

/// The mathematical content of a [`TextFSMParser`].
pub struct ParserView {
    pub values: Seq<ValueDefinitionView>,
    pub mandatory_values: Seq<Seq<char>>,
    pub states: Seq<StateView>,
}

/// The name of every value declared with `Required` is among `mandatory`.
pub open spec fn required_listed(
    values: Seq<ValueDefinitionView>,
    mandatory: Seq<Seq<char>>,
) -> bool {
    forall|i: int|
        0 <= i < values.len() && (#[trigger] values[i]).is_required ==> mandatory.contains(
            values[i].name,
        )
}

/// Every rule of every state captures declared names only, the name of every
/// value declared with `Required` is among the names that a record must hold,
/// and the table has a state `EOF`.
pub open spec fn table_wf(table: ParserView) -> bool {
    &&& forall|i: int|
        0 <= i < table.states.len() ==> state_wf(table.values, #[trigger] table.states[i])
    &&& required_listed(table.values, table.mandatory_values)
    &&& find_state(table.states, eof_name()) is Some
}

/// A name that a list holds is still held when an item is put behind the list.
proof fn lemma_still_named(names: Seq<Seq<char>>, name: Seq<char>, more: Seq<char>)
    requires
        first_named(names, name, 0) is Some,
    ensures
        first_named(names.push(more), name, 0) is Some,
{
    lemma_first_named(names, name, 0);
    lemma_first_named(names.push(more), name, 0);
    let i = first_named(names, name, 0)->0;
    assert(names.push(more)[i] == name);
}

/// The names of a list of states, in order.
pub open spec fn state_names(states: Seq<StateView>) -> Seq<Seq<char>> {
    Seq::new(states.len(), |i: int| states[i].name)
}

/// The state that `states` holds under `name`: the first of that name.
pub open spec fn find_state(states: Seq<StateView>, name: Seq<char>) -> Option<StateView> {
    match first_named(state_names(states), name, 0) {
        Some(i) => Some(states[i]),
        None => None,
    }
}

/// `states` with `state` put in: in the place of the state of the same name, if
/// there is one, and at the end if not.
pub open spec fn put_state(states: Seq<StateView>, state: StateView) -> Seq<StateView> {
    match first_named(state_names(states), state.name, 0) {
        Some(i) => states.update(i, state),
        None => states.push(state),
    }
}

impl View for TextFSMParser {
    type V = ParserView;

    closed spec fn view(&self) -> ParserView {
        ParserView {
            values: views(self.values@),
            mandatory_values: self.mandatory_values.deep_view(),
            states: views(self.states@),
        }
    }
}

/// The place of the first state of `states` with the name `name`.
pub fn state_index(states: &Vec<StateCompiled>, name: &String) -> (res: Option<usize>)
    ensures
        match res {
            Some(i) => first_named(state_names(views(states@)), name@, 0) == Some(i as int) && i
                < states.len(),
            None => first_named(state_names(views(states@)), name@, 0) is None,
        },
{
    let ghost names = state_names(views(states@));
    let mut i: usize = 0;
    while i < states.len()
        invariant
            i <= states.len(),
            names == state_names(views(states@)),
            first_named(names, name@, 0) == first_named(names, name@, i as int),
        decreases states.len() - i,
    {
        if states[i].name == *name {
            return Some(i);
        }
        i += 1;
    }
    None
}

impl TextFSMParser {
    #[verifier::type_invariant]
    spec fn rules_capture_declared_names(self) -> bool {
        table_wf(self@)
    }

    /// Compiles a rule against the declared values: the references of its text
    /// are written out as named groups, and the pattern that results is compiled
    /// by the engine that takes it.
    pub fn compile_state_rule(rule: &StateRule, values: &Vec<ValueDefinition>) -> (res: Result<
        StateRuleCompiled,
        CompileError,
    >)
        ensures
            match res {
                Ok(compiled) => compile_rule(rule@, views(values@)) == Ok::<
                    CompiledRuleView,
                    CompileErrorView,
                >(compiled@) && rule_wf(views(values@), compiled@),
                Err(e) => compile_rule(rule@, views(values@)) == Err::<
                    CompiledRuleView,
                    CompileErrorView,
                >(e@),
            },
    {
        let chunks = match VariableParser::parse_dollar_string(rule.rule_match.as_str()) {
            Ok(chunks) => chunks,
            Err(position) => {
                return Err(
                    CompileError::BadSubstitution { text: rule.rule_match.clone(), position },
                );
            },
        };
        let (text, match_variables) = match expand(&chunks, values) {
            Ok(e) => e,
            Err(variable) => {
                return Err(
                    CompileError::UndefinedVariable { rule: rule.rule_match.clone(), variable },
                );
            },
        };
        let regex = match MultiRegex::compile(text.as_str()) {
            Ok(regex) => regex,
            Err(e) => {
                return Err(e);
            },
        };
        let expanded_rule_match = regex.as_str().to_owned();
        Ok(
            StateRuleCompiled {
                rule_match: rule.rule_match.clone(),
                expanded_rule_match,
                match_variables,
                regex,
                transition: rule.transition.clone(),
            },
        )
    }

    /// Reads and compiles a state from its block of lines: the first line holds
    /// the name, each of the others a rule, a comment or nothing.
    pub fn parse_and_compile_state_definition(
        lines: &Vec<String>,
        values: &Vec<ValueDefinition>,
    ) -> (res: Result<StateCompiled, CompileError>)
        ensures
            match res {
                Ok(state) => state_definition_of(lines.deep_view(), views(values@)) == Ok::<
                    StateView,
                    CompileErrorView,
                >(state@) && state_wf(views(values@), state@),
                Err(e) => state_definition_of(lines.deep_view(), views(values@)) == Err::<
                    StateView,
                    CompileErrorView,
                >(e@),
            },
    {
        if lines.len() == 0 {
            return Err(CompileError::Syntax { line: String::new() });
        }
        let header = chars_of(lines[0].as_str());
        let name_end = before_blanks(&header, 0, header.len());
        if !name_in(&header, 0, name_end) {
            return Err(CompileError::Syntax { line: lines[0].clone() });
        }
        let name = string_of(&header, 0, name_end);
        let mut rules: Vec<StateRuleCompiled> = Vec::new();
        let mut i: usize = 1;
        assert(views(rules@) =~= Seq::<CompiledRuleView>::empty());
        while i < lines.len()
            invariant
                1 <= i <= lines.len(),
                is_name(state_name_of(lines.deep_view()[0])),
                name@ == state_name_of(lines.deep_view()[0]),
                rules_from(lines.deep_view(), views(values@), 1, Seq::empty()) == rules_from(
                    lines.deep_view(),
                    views(values@),
                    i as int,
                    views(rules@),
                ),
                forall|j: int| 0 <= j < rules.len() ==> rule_wf(views(values@), (#[trigger] rules[j])@),
            decreases lines.len() - i,
        {
            let line = chars_of(lines[i].as_str());
            if !skippable(&line) {
                let rule = Self::parse_state_rule(lines[i].as_str())?;
                let compiled = Self::compile_state_rule(&rule, values)?;
                let ghost before = views(rules@);
                rules.push(compiled);
                assert(views(rules@) =~= before.push(compiled@));
            }
            i += 1;
        }
        let state = StateCompiled { name, rules };
        Ok(state)
    }

    /// Reads the values that a list of lines declares, and lists the names of
    /// those with the option `Required`. A value declared again takes the place
    /// of the earlier one of its name.
    pub fn parse_value_defs(lines: &Vec<String>) -> (res: Result<
        (Vec<ValueDefinition>, Vec<String>),
        CompileError,
    >)
        ensures
            match res {
                Ok(d) => value_defs_of(lines.deep_view()) == Ok::<Declarations, CompileErrorView>(
                    Declarations { values: views(d.0@), mandatory_values: d.1.deep_view() },
                ) && required_listed(views(d.0@), d.1.deep_view()),
                Err(e) => value_defs_of(lines.deep_view()) == Err::<Declarations, CompileErrorView>(
                    e@,
                ),
            },
    {
        let mut values: Vec<ValueDefinition> = Vec::new();
        let mut mandatory_values: Vec<String> = Vec::new();
        let mut i: usize = 0;
        assert(views(values@) =~= Seq::<ValueDefinitionView>::empty());
        assert(mandatory_values.deep_view() =~= Seq::<Seq<char>>::empty());
        while i < lines.len()
            invariant
                i <= lines.len(),
                value_defs_of(lines.deep_view()) == value_defs_from(
                    lines.deep_view(),
                    i as int,
                    Declarations {
                        values: views(values@),
                        mandatory_values: mandatory_values.deep_view(),
                    },
                ),
                required_listed(views(values@), mandatory_values.deep_view()),
            decreases lines.len() - i,
        {
            let line = chars_of(lines[i].as_str());
            if !skippable(&line) {
                let value = Self::parse_value_definition(lines[i].as_str())?;
                let ghost before = views(values@);
                let ghost names = mandatory_values.deep_view();
                if value.is_required {
                    mandatory_values.push(value.name.clone());
                    assert(mandatory_values.deep_view() =~= names.push(value.name@));
                    assert(mandatory_values.deep_view()[names.len() as int] == value.name@);
                }
                proof {
                    assert forall|k: int|
                        0 <= k < before.len() && (#[trigger] before[k]).is_required implies mandatory_values.deep_view().contains(
                        before[k].name,
                    ) by {
                        let at = choose|at: int| 0 <= at < names.len() && names[at] == before[k].name;
                        assert(mandatory_values.deep_view()[at] == before[k].name);
                    }
                }
                match value_index(&values, &value.name) {
                    Some(at) => {
                        values.set(at, value);
                        assert(views(values@) =~= before.update(at as int, value@));
                    },
                    None => {
                        values.push(value);
                        assert(views(values@) =~= before.push(value@));
                    },
                }
                proof {
                    let after = views(values@);
                }
            }
            i += 1;
        }
        Ok((values, mandatory_values))
    }
}


/// The first position at or after `from` that holds a line feed; the length of `s` if none does.
pub open spec fn line_end(s: Seq<char>, from: int) -> int
    decreases s.len() - from,
{
    if 0 <= from < s.len() && s[from] != '\n' {
        line_end(s, from + 1)
    } else {
        from
    }
}

proof fn lemma_line_end(s: Seq<char>, from: int)
    requires
        0 <= from <= s.len(),
    ensures
        from <= line_end(s, from) <= s.len(),
    decreases s.len() - from,
{
    if from < s.len() && s[from] != '\n' {
        lemma_line_end(s, from + 1);
    }
}

/// The lines of `s` from position `from` on: a line ends before a line feed, or
/// at the end of `s`.
pub open spec fn lines_from(s: Seq<char>, from: int) -> Seq<Seq<char>>
    decreases s.len() - from,
    via lines_from_decreases
{
    if from < 0 || from > s.len() {
        Seq::empty()
    } else if line_end(s, from) >= s.len() {
        seq![s.subrange(from, s.len() as int)]
    } else {
        seq![s.subrange(from, line_end(s, from))] + lines_from(s, line_end(s, from) + 1)
    }
}

#[via_fn]
proof fn lines_from_decreases(s: Seq<char>, from: int) {
    if 0 <= from <= s.len() {
        lemma_line_end(s, from);
    }
}

/// The first position at or after `from` whose line neither holds nothing nor
/// declares a value: the end of the part of a template that declares its values.
pub open spec fn values_end(lines: Seq<Seq<char>>, from: int) -> int
    decreases lines.len() - from,
{
    if 0 <= from < lines.len() && (is_skippable(lines[from]) || is_value_line(lines[from])) {
        values_end(lines, from + 1)
    } else {
        from
    }
}

/// The first position at or after `from` whose line holds something and starts
/// with no blank: the line that starts the next state.
pub open spec fn block_end(lines: Seq<Seq<char>>, from: int) -> int
    decreases lines.len() - from,
{
    if 0 <= from < lines.len() && (is_skippable(lines[from]) || is_indented(lines[from])) {
        block_end(lines, from + 1)
    } else {
        from
    }
}

proof fn lemma_block_end(lines: Seq<Seq<char>>, from: int)
    requires
        0 <= from <= lines.len(),
    ensures
        from <= block_end(lines, from) <= lines.len(),
    decreases lines.len() - from,
{
    if from < lines.len() && (is_skippable(lines[from]) || is_indented(lines[from])) {
        lemma_block_end(lines, from + 1);
    }
}

/// The name of the state that takes the last line of every input.
pub open spec fn eof_name() -> Seq<char> {
    "EOF"@
}

/// The states `states` with those that the lines from `from` on define. A state
/// starts at a line that holds something and starts with no blank, and runs up
/// to the next such line. A state named `EOF` takes the place of the one that is
/// there; any other name may be defined once.
pub open spec fn states_from(
    lines: Seq<Seq<char>>,
    values: Seq<ValueDefinitionView>,
    from: int,
    states: Seq<StateView>,
) -> Result<Seq<StateView>, CompileErrorView>
    decreases lines.len() - from,
    via states_from_decreases
{
    if from < 0 || from >= lines.len() {
        Ok(states)
    } else if is_skippable(lines[from]) {
        states_from(lines, values, from + 1, states)
    } else {
        match state_definition_of(lines.subrange(from, block_end(lines, from + 1)), values) {
            Err(e) => Err(e),
            Ok(state) => if state.name != eof_name() && find_state(states, state.name) is Some {
                Err(CompileErrorView::DuplicateState { name: state.name })
            } else {
                states_from(lines, values, block_end(lines, from + 1), put_state(states, state))
            },
        }
    }
}

#[via_fn]
proof fn states_from_decreases(
    lines: Seq<Seq<char>>,
    values: Seq<ValueDefinitionView>,
    from: int,
    states: Seq<StateView>,
) {
    if 0 <= from < lines.len() {
        lemma_block_end(lines, from + 1);
    }
}

/// The rule of the state that every template starts with under the name `EOF`:
/// it matches whatever the line holds, records, and goes to the state `End`.
pub open spec fn eof_rule() -> StateRuleView {
    StateRuleView {
        rule_match: ".*"@,
        transition: RuleTransitionView {
            line_action: LineActionView::Next(Some(NextStateView::NamedState("End"@))),
            record_action: RecordAction::Record,
        },
    }
}

/// The table of the declarations `d` and the states `states`, if there are any.
pub open spec fn table_of(
    d: Declarations,
    states: Result<Seq<StateView>, CompileErrorView>,
) -> Result<
    ParserView,
    CompileErrorView,
> {
    match states {
        Err(e) => Err(e),
        Ok(states) => Ok(
            ParserView { values: d.values, mandatory_values: d.mandatory_values, states },
        ),
    }
}

/// The table that a template compiles to: the values that its first lines
/// declare, and its states, behind the state `EOF` that every template starts with.
pub open spec fn compiled(template: Seq<char>) -> Result<ParserView, CompileErrorView> {
    let lines = lines_from(template, 0);
    let n = values_end(lines, 0);
    match value_defs_of(lines.take(n)) {
        Err(e) => Err(e),
        Ok(d) => match compile_rule(eof_rule(), d.values) {
            Err(e) => Err(e),
            Ok(rule) => table_of(
                d,
                states_from(
                    lines,
                    d.values,
                    n,
                    seq![StateView { name: eof_name(), rules: seq![rule] }],
                ),
            ),
        },
    }
}

/// The lines of a text.
pub fn split_lines(text: &Vec<char>) -> (res: Vec<String>)
    ensures
        res.deep_view() == lines_from(text@, 0),
{
    let mut res: Vec<String> = Vec::new();
    let mut from: usize = 0;
    loop
        invariant
            from <= text.len(),
            lines_from(text@, 0) == res.deep_view() + lines_from(text@, from as int),
        decreases text.len() - from,
    {
        let mut end: usize = from;
        while end < text.len() && text[end] != '\n'
            invariant
                from <= end <= text.len(),
                line_end(text@, from as int) == line_end(text@, end as int),
            decreases text.len() - end,
        {
            end += 1;
        }
        let line = string_of(text, from, end);
        res.push(line);
        if end >= text.len() {
            return res;
        }
        from = end + 1;
    }
}

impl TextFSMParser {
    /// Compiles a template. Its first lines declare the values; the states
    /// follow, each a line with its name and indented lines with its rules.
    /// Lines of blanks and lines that start with `#` hold nothing. Every table
    /// has a state `EOF` with one rule, which matches any line, records and goes
    /// to the state `End`, unless the template defines `EOF` itself.
    pub fn compile(template: &str) -> (res: Result<TextFSMParser, CompileError>)
        ensures
            match res {
                Ok(table) => compiled(template@) == Ok::<ParserView, CompileErrorView>(table@)
                    && table_wf(table@),
                Err(e) => compiled(template@) == Err::<ParserView, CompileErrorView>(e@),
            },
    {
        let text = chars_of(template);
        let lines = split_lines(&text);
        let ghost all = lines.deep_view();
        let mut n: usize = 0;
        while n < lines.len()
            invariant_except_break
                n <= lines.len(),
                all == lines.deep_view(),
                values_end(all, 0) == values_end(all, n as int),
            ensures
                n <= lines.len(),
                values_end(all, 0) == n,
            decreases lines.len() - n,
        {
            let line = chars_of(lines[n].as_str());
            if !(skippable(&line) || value_line(&line)) {
                break ;
            }
            n += 1;
        }
        let head = lines_between(&lines, 0, n);
        let (values, mandatory_values) = Self::parse_value_defs(&head)?;
        let end_rule = StateRule {
            rule_match: ".*".to_owned(),
            transition: RuleTransition {
                line_action: LineAction::Next(Some(NextState::NamedState("End".to_owned()))),
                record_action: RecordAction::Record,
            },
        };
        let compiled_end_rule = Self::compile_state_rule(&end_rule, &values)?;
        let mut end_rules: Vec<StateRuleCompiled> = Vec::new();
        end_rules.push(compiled_end_rule);
        let eof = "EOF".to_owned();
        let mut states: Vec<StateCompiled> = Vec::new();
        states.push(StateCompiled { name: eof.clone(), rules: end_rules });
        proof {
            assert(views(end_rules@) =~= seq![compiled_end_rule@]);
            assert(views(states@) =~= seq![
                StateView { name: eof_name(), rules: seq![compiled_end_rule@] },
            ]);
        }
        let mut from: usize = n;
        while from < lines.len()
            invariant
                from <= lines.len(),
                all == lines.deep_view(),
                eof@ == eof_name(),
                first_named(state_names(views(states@)), eof_name(), 0) is Some,
                compiled(template@) == table_of(
                    Declarations {
                        values: views(values@),
                        mandatory_values: mandatory_values.deep_view(),
                    },
                    states_from(all, views(values@), from as int, views(states@)),
                ),
                forall|i: int|
                    0 <= i < states.len() ==> state_wf(views(values@), (#[trigger] states[i])@),
            decreases lines.len() - from,
        {
            let line = chars_of(lines[from].as_str());
            if skippable(&line) {
                from += 1;
            } else {
                let mut end: usize = from + 1;
                while end < lines.len()
                    invariant_except_break
                        from < end <= lines.len(),
                        all == lines.deep_view(),
                        block_end(all, from + 1) == block_end(all, end as int),
                    ensures
                        from < end <= lines.len(),
                        block_end(all, from + 1) == end,
                    decreases lines.len() - end,
                {
                    let next = chars_of(lines[end].as_str());
                    if !(skippable(&next) || (next.len() > 0 && blank(next[0]))) {
                        break ;
                    }
                    end += 1;
                }
                let block = lines_between(&lines, from, end);
                let state = Self::parse_and_compile_state_definition(&block, &values)?;
                let ghost before = views(states@);
                match state_index(&states, &state.name) {
                    Some(at) => {
                        if state.name != eof {
                            return Err(CompileError::DuplicateState { name: state.name });
                        }
                        states.set(at, state);
                        assert(views(states@) =~= before.update(at as int, state@));
                        proof {
                            lemma_first_named(state_names(before), state@.name, 0);
                            assert(state_names(views(states@)) =~= state_names(before));
                        }
                    },
                    None => {
                        states.push(state);
                        assert(views(states@) =~= before.push(state@));
                        proof {
                            lemma_still_named(state_names(before), eof_name(), state@.name);
                            assert(state_names(views(states@)) =~= state_names(before).push(
                                state@.name,
                            ));
                        }
                    },
                }
                from = end;
            }
        }
        let table = TextFSMParser { values, mandatory_values, states };
        Ok(table)
    }

    /// The declared values, in the order of their first declaration.
    pub fn values(&self) -> (res: &Vec<ValueDefinition>)
        ensures
            views(res@) == self@.values,
            table_wf(self@),
    {
        proof {
            use_type_invariant(self);
        }
        &self.values
    }

    /// The names of the values that a record must hold.
    pub fn mandatory_values(&self) -> (res: &Vec<String>)
        ensures
            res.deep_view() == self@.mandatory_values,
    {
        &self.mandatory_values
    }

    /// The states, the state `EOF` first.
    pub fn states(&self) -> (res: &Vec<StateCompiled>)
        ensures
            views(res@) == self@.states,
            table_wf(self@),
    {
        proof {
            use_type_invariant(self);
        }
        &self.states
    }

    /// The state of the given name, if the table has one.
    pub fn state(&self, name: &str) -> (res: Option<&StateCompiled>)
        ensures
            match res {
                Some(state) => find_state(self@.states, name@) == Some(state@) && state_wf(
                    self@.values,
                    state@,
                ),
                None => find_state(self@.states, name@) is None,
            },
    {
        proof {
            use_type_invariant(self);
        }
        match state_index(&self.states, &name.to_owned()) {
            Some(at) => {
                Some(&self.states[at])
            },
            None => None,
        }
    }

    /// The value of the given name, if the table declares one.
    pub fn value(&self, name: &str) -> (res: Option<&ValueDefinition>)
        ensures
            match res {
                Some(value) => find_value(self@.values, name@) == Some(value@),
                None => find_value(self@.values, name@) is None,
            },
    {
        match value_index(&self.values, &name.to_owned()) {
            Some(at) => {
                Some(&self.values[at])
            },
            None => None,
        }
    }
}

impl Clone for TextFSMParser {
    fn clone(&self) -> (res: TextFSMParser)
        ensures
            res@ == self@,
    {
        proof {
            use_type_invariant(self);
        }
        let mut values: Vec<ValueDefinition> = Vec::new();
        let mut i: usize = 0;
        while i < self.values.len()
            invariant
                i <= self.values.len(),
                values.len() == i,
                forall|j: int| 0 <= j < i ==> values[j]@ == self.values[j]@,
            decreases self.values.len() - i,
        {
            values.push(self.values[i].clone());
            i += 1;
        }
        let mut states: Vec<StateCompiled> = Vec::new();
        let mut k: usize = 0;
        while k < self.states.len()
            invariant
                k <= self.states.len(),
                states.len() == k,
                forall|j: int| 0 <= j < k ==> states[j]@ == self.states[j]@,
            decreases self.states.len() - k,
        {
            states.push(self.states[k].clone());
            k += 1;
        }
        let mandatory_values = crate::record::clone_strings(&self.mandatory_values);
        assert(views(values@) =~= views(self.values@));
        assert(views(states@) =~= views(self.states@));
        TextFSMParser { values, mandatory_values, states }
    }
}

/// Compiles the text of a template into its table of states.
pub fn compile(template_text: &str) -> (res: Result<TextFSMParser, CompileError>)
    ensures
        match res {
            Ok(table) => compiled(template_text@) == Ok::<ParserView, CompileErrorView>(table@)
                && table_wf(table@),
            Err(e) => compiled(template_text@) == Err::<ParserView, CompileErrorView>(e@),
        },
{
    TextFSMParser::compile(template_text)
}

} // verus!
