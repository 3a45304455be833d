//! The lines of a template: value declarations, rules and their actions.

use crate::compiler::TextFSMParser;
use crate::template::{
    default_transition, CompileError, CompileErrorView, LineAction, LineActionView, NextState,
    NextStateView, RecordAction, RuleTransition, RuleTransitionView, StateRule, StateRuleView,
    ValueDefinition, ValueDefinitionView,
};
use crate::text::{
    after_blanks, after_word, before_blanks, blank, chars_of, is_blank, is_name,
    name_in, range_is, skip_blanks, string_from, string_of, trim_end, unescape_angles,
    without_angle_escapes, word_end,
};
use vstd::prelude::*;

verus! {

/// The options of a value, as flags.
pub struct Flags {
    pub filldown: bool,
    pub key: bool,
    pub required: bool,
    pub list: bool,
    pub fillup: bool,
}

/// No option.
pub open spec fn no_flags() -> Flags {
    Flags { filldown: false, key: false, required: false, list: false, fillup: false }
}

/// `flags` with the option that `word` names; nothing if `word` names no option.
pub open spec fn with_option(flags: Flags, word: Seq<char>) -> Option<Flags> {
    if word == "Filldown"@ {
        Some(Flags { filldown: true, ..flags })
    } else if word == "Key"@ {
        Some(Flags { key: true, ..flags })
    } else if word == "Required"@ {
        Some(Flags { required: true, ..flags })
    } else if word == "List"@ {
        Some(Flags { list: true, ..flags })
    } else if word == "Fillup"@ {
        Some(Flags { fillup: true, ..flags })
    } else {
        None
    }
}

/// The first position at or after `from` that holds a comma; the length of `s` if none does.
pub open spec fn comma_end(s: Seq<char>, from: int) -> int
    decreases s.len() - from,
{
    if 0 <= from < s.len() && s[from] != ',' {
        comma_end(s, from + 1)
    } else {
        from
    }
}

proof fn lemma_comma_end(s: Seq<char>, from: int)
    requires
        0 <= from <= s.len(),
    ensures
        from <= comma_end(s, from) <= s.len(),
    decreases s.len() - from,
{
    if from < s.len() && s[from] != ',' {
        lemma_comma_end(s, from + 1);
    }
}

/// `flags` with the options that `s` lists from position `from` on, separated
/// by commas; or the first word between commas that names no option.
pub open spec fn options_from(s: Seq<char>, from: int, flags: Flags) -> Result<Flags, Seq<char>>
    decreases s.len() - from,
    via options_from_decreases
{
    if from < 0 || from > s.len() {
        Ok(flags)
    } else {
        let end = comma_end(s, from);
        match with_option(flags, s.subrange(from, end)) {
            None => Err(s.subrange(from, end)),
            Some(f) => if end >= s.len() {
                Ok(f)
            } else {
                options_from(s, end + 1, f)
            },
        }
    }
}

#[via_fn]
proof fn options_from_decreases(s: Seq<char>, from: int, flags: Flags) {
    if 0 <= from <= s.len() {
        lemma_comma_end(s, from);
    }
}

/// The keyword that starts a value declaration.
pub open spec fn value_keyword() -> Seq<char> {
    "Value"@
}

/// Whether a line starts with the keyword of a value declaration, as a word of its own.
pub open spec fn is_value_line(s: Seq<char>) -> bool {
    s.len() >= 5 && s.take(5) == value_keyword() && (s.len() == 5 || is_blank(s[5]))
}

/// The value with the given name, pattern and options.
pub open spec fn value_with(
    name: Seq<char>,
    pattern: Seq<char>,
    options: Option<Seq<char>>,
    flags: Flags,
) -> ValueDefinitionView {
    ValueDefinitionView {
        name,
        is_filldown: flags.filldown,
        is_key: flags.key,
        is_required: flags.required,
        is_list: flags.list,
        is_fillup: flags.fillup,
        regex_pattern: unescape_angles(pattern),
        options,
    }
}

/// The value that is declared with the name `s[name.0..name.1]`, the options
/// `s[options.0..options.1]` if `listed`, and the pattern from `pattern` to
/// the end of the line, less its trailing blanks.
pub open spec fn value_from_parts(
    s: Seq<char>,
    listed: bool,
    options: (int, int),
    name: (int, int),
    pattern: int,
) -> Result<ValueDefinitionView, CompileErrorView> {
    let pattern_text = s.subrange(pattern, trim_end(s, pattern, s.len() as int));
    if !is_name(s.subrange(name.0, name.1)) {
        Err(CompileErrorView::BadValue { line: s })
    } else if listed {
        match options_from(s.subrange(options.0, options.1), 0, no_flags()) {
            Ok(flags) => Ok(
                value_with(
                    s.subrange(name.0, name.1),
                    pattern_text,
                    Some(s.subrange(options.0, options.1)),
                    flags,
                ),
            ),
            Err(option) => Err(CompileErrorView::UnknownOption { option }),
        }
    } else {
        Ok(value_with(s.subrange(name.0, name.1), pattern_text, None, no_flags()))
    }
}

/// The value that a line declares: the keyword, then the options if there are
/// any, the name, and the pattern, which starts with `(`; blanks stand between
/// them. In the pattern `\<` and `\>` lose their backslash.
pub open spec fn value_definition_of(
    s: Seq<char>,
) -> Result<ValueDefinitionView, CompileErrorView> {
    let first = skip_blanks(s, 5);
    let first_end = word_end(s, first);
    let second = skip_blanks(s, first_end);
    let second_end = word_end(s, second);
    let third = skip_blanks(s, second_end);
    if !is_value_line(s) || first == first_end {
        Err(CompileErrorView::BadValue { line: s })
    } else if second < s.len() && s[second] == '(' {
        value_from_parts(s, false, (first, first), (first, first_end), second)
    } else if third < s.len() && s[third] == '(' {
        value_from_parts(s, true, (first, first_end), (second, second_end), third)
    } else {
        Err(CompileErrorView::BadValue { line: s })
    }
}

/// The flags of the options that `text` lists, or the first word that names no option.
fn parse_options(text: &Vec<char>) -> (res: Result<[bool; 5], String>)
    ensures
        match res {
            Ok(f) => options_from(text@, 0, no_flags()) == Ok::<Flags, Seq<char>>(
                Flags { filldown: f[0], key: f[1], required: f[2], list: f[3], fillup: f[4] },
            ),
            Err(word) => options_from(text@, 0, no_flags()) == Err::<Flags, Seq<char>>(word@),
        },
{
    let mut flags: [bool; 5] = [false, false, false, false, false];
    let mut from: usize = 0;
    loop
        invariant
            from <= text.len(),
            options_from(text@, 0, no_flags()) == options_from(
                text@,
                from as int,
                Flags {
                    filldown: flags[0],
                    key: flags[1],
                    required: flags[2],
                    list: flags[3],
                    fillup: flags[4],
                },
            ),
        decreases text.len() - from,
    {
        let mut end: usize = from;
        while end < text.len() && text[end] != ','
            invariant
                from <= end <= text.len(),
                comma_end(text@, from as int) == comma_end(text@, end as int),
            decreases text.len() - end,
        {
            end += 1;
        }
        if range_is(text, from, end, "Filldown") {
            flags[0] = true;
        } else if range_is(text, from, end, "Key") {
            flags[1] = true;
        } else if range_is(text, from, end, "Required") {
            flags[2] = true;
        } else if range_is(text, from, end, "List") {
            flags[3] = true;
        } else if range_is(text, from, end, "Fillup") {
            flags[4] = true;
        } else {
            return Err(string_of(text, from, end));
        }
        if end >= text.len() {
            return Ok(flags);
        }
        from = end + 1;
    }
}

/// The sub-vector `v[from..to]`.
pub fn slice_of(v: &Vec<char>, from: usize, to: usize) -> (res: Vec<char>)
    requires
        from <= to <= v.len(),
    ensures
        res@ == v@.subrange(from as int, to as int),
{
    let mut res: Vec<char> = Vec::new();
    let mut i: usize = from;
    while i < to
        invariant
            from <= i <= to <= v.len(),
            res@ == v@.subrange(from as int, i as int),
        decreases to - i,
    {
        res.push(v[i]);
        i += 1;
        assert(v@.subrange(from as int, i as int) =~= v@.subrange(from as int, i - 1).push(
            v@[i - 1],
        ));
    }
    res
}

/// Builds the value of a declaration from the places of its parts in the line.
fn value_of_parts(
    v: &Vec<char>,
    listed: bool,
    options: (usize, usize),
    name: (usize, usize),
    pattern: usize,
) -> (res: Result<ValueDefinition, CompileError>)
    requires
        options.0 <= options.1 <= v.len(),
        name.0 <= name.1 <= v.len(),
        pattern <= v.len(),
    ensures
        match res {
            Ok(value) => value_from_parts(
                v@,
                listed,
                (options.0 as int, options.1 as int),
                (name.0 as int, name.1 as int),
                pattern as int,
            ) == Ok::<ValueDefinitionView, CompileErrorView>(value@),
            Err(e) => value_from_parts(
                v@,
                listed,
                (options.0 as int, options.1 as int),
                (name.0 as int, name.1 as int),
                pattern as int,
            ) == Err::<ValueDefinitionView, CompileErrorView>(e@),
        },
{
    if !name_in(v, name.0, name.1) {
        return Err(CompileError::BadValue { line: string_from(v) });
    }
    let pattern_end = before_blanks(v, pattern, v.len());
    let raw = slice_of(v, pattern, pattern_end);
    let regex_pattern = string_from(&without_angle_escapes(&raw));
    let name_text = string_of(v, name.0, name.1);
    if listed {
        let option_text = slice_of(v, options.0, options.1);
        match parse_options(&option_text) {
            Ok(flags) => Ok(
                ValueDefinition {
                    name: name_text,
                    is_filldown: flags[0],
                    is_key: flags[1],
                    is_required: flags[2],
                    is_list: flags[3],
                    is_fillup: flags[4],
                    regex_pattern,
                    options: Some(string_from(&option_text)),
                },
            ),
            Err(option) => Err(CompileError::UnknownOption { option }),
        }
    } else {
        Ok(
            ValueDefinition {
                name: name_text,
                is_filldown: false,
                is_key: false,
                is_required: false,
                is_list: false,
                is_fillup: false,
                regex_pattern,
                options: None,
            },
        )
    }
}

/// Whether a line starts with the keyword of a value declaration, as a word of its own.
pub fn value_line(v: &Vec<char>) -> (res: bool)
    ensures
        res == is_value_line(v@),
{
    if v.len() < 5 {
        return false;
    }
    assert(v@.take(5) =~= v@.subrange(0, 5));
    range_is(v, 0, 5, "Value") && (v.len() == 5 || blank(v[5]))
}

impl TextFSMParser {
    /// Reads a value declaration: the keyword `Value`, then the options if there
    /// are any, the name, and the pattern, which starts with `(`.
    pub fn parse_value_definition(line: &str) -> (res: Result<ValueDefinition, CompileError>)
        ensures
            match res {
                Ok(value) => value_definition_of(line@) == Ok::<ValueDefinitionView, CompileErrorView>(
                    value@,
                ),
                Err(e) => value_definition_of(line@) == Err::<ValueDefinitionView, CompileErrorView>(e@),
            },
    {
        let v = chars_of(line);
        if !value_line(&v) {
            return Err(CompileError::BadValue { line: string_from(&v) });
        }
        let first = after_blanks(&v, 5);
        let first_end = after_word(&v, first);
        let second = after_blanks(&v, first_end);
        let second_end = after_word(&v, second);
        let third = after_blanks(&v, second_end);
        if first == first_end {
            Err(CompileError::BadValue { line: string_from(&v) })
        } else if second < v.len() && v[second] == '(' {
            value_of_parts(&v, false, (first, first), (first, first_end), second)
        } else if third < v.len() && v[third] == '(' {
            value_of_parts(&v, true, (first, first_end), (second, second_end), third)
        } else {
            Err(CompileError::BadValue { line: string_from(&v) })
        }
    }
}


/// What separates the words of an action: a blank, a dot or a comma.
pub open spec fn is_separator(c: char) -> bool {
    is_blank(c) || c == '.' || c == ','
}

/// The first position at or after `from` that holds a separator; the length of `s` if none does.
pub open spec fn token_end(s: Seq<char>, from: int) -> int
    decreases s.len() - from,
{
    if 0 <= from < s.len() && !is_separator(s[from]) {
        token_end(s, from + 1)
    } else {
        from
    }
}

/// The first position at or after `from` that holds a double quote; the length of `s` if none does.
pub open spec fn quote_end(s: Seq<char>, from: int) -> int
    decreases s.len() - from,
{
    if 0 <= from < s.len() && s[from] != '"' {
        quote_end(s, from + 1)
    } else {
        from
    }
}

proof fn lemma_token_end(s: Seq<char>, from: int)
    requires
        0 <= from <= s.len(),
    ensures
        from <= token_end(s, from) <= s.len(),
    decreases s.len() - from,
{
    if from < s.len() && !is_separator(s[from]) {
        lemma_token_end(s, from + 1);
    }
}

proof fn lemma_quote_end(s: Seq<char>, from: int)
    requires
        0 <= from <= s.len(),
    ensures
        from <= quote_end(s, from) <= s.len(),
    decreases s.len() - from,
{
    if from < s.len() && s[from] != '"' {
        lemma_quote_end(s, from + 1);
    }
}

/// The record action that `word` names, if it names one.
pub open spec fn record_action_of(word: Seq<char>) -> Option<RecordAction> {
    if word == "Record"@ {
        Some(RecordAction::Record)
    } else if word == "NoRecord"@ {
        Some(RecordAction::NoRecord)
    } else if word == "Clear"@ {
        Some(RecordAction::Clear)
    } else if word == "Clearall"@ {
        Some(RecordAction::Clearall)
    } else {
        None
    }
}

/// `t` with another line action.
pub open spec fn with_line_action(
    t: RuleTransitionView,
    line_action: LineActionView,
) -> RuleTransitionView {
    RuleTransitionView { line_action, record_action: t.record_action }
}

/// The line action that fails with `message`.
pub open spec fn failing_with(message: Option<Seq<char>>) -> LineActionView {
    LineActionView::Next(Some(NextStateView::Error(message)))
}

/// The transition `t` after the word `word` of an action, and whether the message
/// of an `Error` may follow. A word that names a record action sets it.
/// Behind `Error`, any other word is the message. Otherwise `Continue`, `Next`
/// and `Error` set the line action, and another word names the state to go to,
/// which only a transition that so far takes the next line in the same state
/// can take. Nothing if the word has no such place.
pub open spec fn with_word(t: RuleTransitionView, expects_message: bool, word: Seq<char>) -> Option<
    (RuleTransitionView, bool),
> {
    match record_action_of(word) {
        Some(record_action) => Some(
            (RuleTransitionView { line_action: t.line_action, record_action }, expects_message),
        ),
        None => if expects_message {
            Some((with_line_action(t, failing_with(Some(word))), false))
        } else if word == "Continue"@ {
            Some((with_line_action(t, LineActionView::Continue), false))
        } else if word == "Next"@ {
            Some((with_line_action(t, LineActionView::Next(None)), false))
        } else if word == "Error"@ {
            Some((with_line_action(t, failing_with(None)), true))
        } else if t.line_action == LineActionView::Next(None) && is_name(word) {
            Some(
                (
                    with_line_action(
                        t,
                        LineActionView::Next(Some(NextStateView::NamedState(word))),
                    ),
                    false,
                ),
            )
        } else {
            None
        },
    }
}

/// The transition `t` after a quoted text of an action: the message of an
/// `Error`, and nothing anywhere else.
pub open spec fn with_quoted(
    t: RuleTransitionView,
    expects_message: bool,
    text: Seq<char>,
) -> Option<
    (RuleTransitionView, bool),
> {
    if expects_message {
        Some((with_line_action(t, failing_with(Some(text))), false))
    } else {
        None
    }
}

/// The transition `t` after the words of `s` from position `pos` on. Words are
/// separated by blanks, dots and commas; a text in double quotes is one word.
pub open spec fn transition_from(
    s: Seq<char>,
    pos: int,
    t: RuleTransitionView,
    expects_message: bool,
) -> Option<RuleTransitionView>
    decreases s.len() - pos,
    via transition_from_decreases
{
    if pos < 0 || pos >= s.len() {
        Some(t)
    } else if is_separator(s[pos]) {
        transition_from(s, pos + 1, t, expects_message)
    } else if s[pos] == '"' {
        if quote_end(s, pos + 1) >= s.len() {
            None
        } else {
            match with_quoted(t, expects_message, s.subrange(pos + 1, quote_end(s, pos + 1))) {
                Some(next) => transition_from(s, quote_end(s, pos + 1) + 1, next.0, next.1),
                None => None,
            }
        }
    } else {
        match with_word(t, expects_message, s.subrange(pos, token_end(s, pos + 1))) {
            Some(next) => transition_from(s, token_end(s, pos + 1), next.0, next.1),
            None => None,
        }
    }
}

#[via_fn]
proof fn transition_from_decreases(
    s: Seq<char>,
    pos: int,
    t: RuleTransitionView,
    expects_message: bool,
) {
    if 0 <= pos < s.len() {
        lemma_token_end(s, pos + 1);
        lemma_quote_end(s, pos + 1);
    }
}

/// The transition that the text behind `->` names.
pub open spec fn transition_of(s: Seq<char>) -> Result<RuleTransitionView, CompileErrorView> {
    match transition_from(s, 0, default_transition(), false) {
        Some(t) => Ok(t),
        None => Err(CompileErrorView::BadAction { action: s }),
    }
}

fn separator(c: char) -> (res: bool)
    ensures
        res == is_separator(c),
{
    blank(c) || c == '.' || c == ','
}

/// The record action that `v[from..to]` names, if it names one.
fn record_action_in(v: &Vec<char>, from: usize, to: usize) -> (res: Option<RecordAction>)
    requires
        from <= to <= v.len(),
    ensures
        res == record_action_of(v@.subrange(from as int, to as int)),
{
    if range_is(v, from, to, "Record") {
        Some(RecordAction::Record)
    } else if range_is(v, from, to, "NoRecord") {
        Some(RecordAction::NoRecord)
    } else if range_is(v, from, to, "Clear") {
        Some(RecordAction::Clear)
    } else if range_is(v, from, to, "Clearall") {
        Some(RecordAction::Clearall)
    } else {
        None
    }
}

/// The transition after the word `v[from..to]`.
fn apply_word(
    t: RuleTransition,
    expects_message: bool,
    v: &Vec<char>,
    from: usize,
    to: usize,
) -> (res:
    Option<(RuleTransition, bool)>)
    requires
        from <= to <= v.len(),
    ensures
        match res {
            Some(next) => with_word(t@, expects_message, v@.subrange(from as int, to as int))
                == Some((next.0@, next.1)),
            None => with_word(t@, expects_message, v@.subrange(from as int, to as int)) is None,
        },
{
    let record_action = t.record_action;
    match record_action_in(v, from, to) {
        Some(action) => {
            return Some(
                (RuleTransition { line_action: t.line_action, record_action: action }, expects_message),
            );
        },
        None => {},
    }
    if expects_message {
        let message = string_of(v, from, to);
        Some(
            (
                RuleTransition {
                    line_action: LineAction::Next(Some(NextState::Error(Some(message)))),
                    record_action,
                },
                false,
            ),
        )
    } else if range_is(v, from, to, "Continue") {
        Some((RuleTransition { line_action: LineAction::Continue, record_action }, false))
    } else if range_is(v, from, to, "Next") {
        Some((RuleTransition { line_action: LineAction::Next(None), record_action }, false))
    } else if range_is(v, from, to, "Error") {
        Some(
            (
                RuleTransition {
                    line_action: LineAction::Next(Some(NextState::Error(None))),
                    record_action,
                },
                true,
            ),
        )
    } else {
        let plain = match t.line_action {
            LineAction::Next(None) => true,
            _ => false,
        };
        if plain && name_in(v, from, to) {
            let name = string_of(v, from, to);
            Some(
                (
                    RuleTransition {
                        line_action: LineAction::Next(Some(NextState::NamedState(name))),
                        record_action,
                    },
                    false,
                ),
            )
        } else {
            None
        }
    }
}

impl TextFSMParser {
    /// Reads the transition of a rule from the text behind `->`: a record action
    /// (`Record`, `NoRecord`, `Clear`, `Clearall`), a line action (`Continue`,
    /// `Next`, `Error`), the state to go to, or the message of an `Error`, in
    /// double quotes or as one word. Blanks, dots and commas separate them.
    pub fn parse_state_rule_transition(action: &str) -> (res: Result<RuleTransition, CompileError>)
        ensures
            match res {
                Ok(t) => transition_of(action@) == Ok::<RuleTransitionView, CompileErrorView>(t@),
                Err(e) => transition_of(action@) == Err::<RuleTransitionView, CompileErrorView>(e@),
            },
    {
        let v = chars_of(action);
        let mut t = RuleTransition { line_action: LineAction::Next(None), record_action: RecordAction::NoRecord };
        let mut expects_message = false;
        let mut pos: usize = 0;
        while pos < v.len()
            invariant
                pos <= v.len(),
                v@ == action@,
                transition_from(v@, 0, default_transition(), false) == transition_from(
                    v@,
                    pos as int,
                    t@,
                    expects_message,
                ),
            decreases v.len() - pos,
        {
            if separator(v[pos]) {
                pos += 1;
            } else if v[pos] == '"' {
                let mut close: usize = pos + 1;
                while close < v.len() && v[close] != '"'
                    invariant
                        pos < close <= v.len(),
                        quote_end(v@, pos + 1) == quote_end(v@, close as int),
                    decreases v.len() - close,
                {
                    close += 1;
                }
                if close >= v.len() || !expects_message {
                    return Err(CompileError::BadAction { action: string_from(&v) });
                }
                let message = string_of(&v, pos + 1, close);
                t =
                RuleTransition {
                    line_action: LineAction::Next(Some(NextState::Error(Some(message)))),
                    record_action: t.record_action,
                };
                expects_message = false;
                pos = close + 1;
            } else {
                let mut end: usize = pos + 1;
                while end < v.len() && !separator(v[end])
                    invariant
                        pos < end <= v.len(),
                        token_end(v@, pos + 1) == token_end(v@, end as int),
                    decreases v.len() - end,
                {
                    end += 1;
                }
                match apply_word(t, expects_message, &v, pos, end) {
                    Some(next) => {
                        t = next.0;
                        expects_message = next.1;
                    },
                    None => {
                        return Err(CompileError::BadAction { action: string_from(&v) });
                    },
                }
                pos = end;
            }
        }
        Ok(t)
    }
}

/// Whether a blank and `->` stand at position `i` of `s`.
pub open spec fn arrow_at(s: Seq<char>, i: int) -> bool {
    0 <= i && i + 2 < s.len() && is_blank(s[i]) && s[i + 1] == '-' && s[i + 2] == '>'
}

/// The last position between `floor` and `i` at which a blank and `->` stand; -1 if there is none.
pub open spec fn last_arrow(s: Seq<char>, floor: int, i: int) -> int
    decreases i - floor + 1,
{
    if i < floor || i < 0 {
        -1
    } else if arrow_at(s, i) {
        i
    } else {
        last_arrow(s, floor, i - 1)
    }
}

/// The rule that a line of a state holds: blanks, then the text to match, then,
/// if the line holds a blank and `->`, the action behind the last of them. Without an action the text to match loses its
/// trailing blanks. In the text to match `\<` and `\>` lose their backslash.
pub open spec fn state_rule_of(s: Seq<char>) -> Result<StateRuleView, CompileErrorView> {
    let start = skip_blanks(s, 0);
    let arrow = last_arrow(s, start, s.len() - 1);
    if start == 0 || start >= s.len() {
        Err(CompileErrorView::Syntax { line: s })
    } else if arrow >= 0 {
        match transition_of(s.subrange(arrow + 3, s.len() as int)) {
            Ok(transition) => Ok(
                StateRuleView { rule_match: unescape_angles(s.subrange(start, arrow)), transition },
            ),
            Err(e) => Err(e),
        }
    } else {
        Ok(
            StateRuleView {
                rule_match: unescape_angles(s.subrange(start, trim_end(s, start, s.len() as int))),
                transition: default_transition(),
            },
        )
    }
}

impl TextFSMParser {
    /// Reads a rule from a line of a state.
    pub fn parse_state_rule(line: &str) -> (res: Result<StateRule, CompileError>)
        ensures
            match res {
                Ok(rule) => state_rule_of(line@) == Ok::<StateRuleView, CompileErrorView>(rule@),
                Err(e) => state_rule_of(line@) == Err::<StateRuleView, CompileErrorView>(e@),
            },
    {
        let v = chars_of(line);
        let start = after_blanks(&v, 0);
        if start == 0 || start >= v.len() {
            return Err(CompileError::Syntax { line: string_from(&v) });
        }
        let mut i: usize = v.len();
        let mut arrow: Option<usize> = None;
        while i > start
            invariant_except_break
                start <= i <= v.len(),
                arrow is None,
                last_arrow(v@, start as int, v.len() - 1) == last_arrow(v@, start as int, i - 1),
            ensures
                match arrow {
                    Some(a) => last_arrow(v@, start as int, v.len() - 1) == a && start <= a && a + 2
                        < v.len(),
                    None => last_arrow(v@, start as int, v.len() - 1) == -1,
                },
            decreases i,
        {
            let at = i - 1;
            if v.len() - at > 2 && blank(v[at]) && v[at + 1] == '-' && v[at + 2] == '>' {
                arrow = Some(at);
                break ;
            }
            i -= 1;
        }
        match arrow {
            Some(a) => {
                let action = string_of(&v, a + 3, v.len());
                let transition = Self::parse_state_rule_transition(action.as_str())?;
                let raw = slice_of(&v, start, a);
                Ok(StateRule { rule_match: string_from(&without_angle_escapes(&raw)), transition })
            },
            None => {
                let end = before_blanks(&v, start, v.len());
                let raw = slice_of(&v, start, end);
                Ok(
                    StateRule {
                        rule_match: string_from(&without_angle_escapes(&raw)),
                        transition: RuleTransition {
                            line_action: LineAction::Next(None),
                            record_action: RecordAction::NoRecord,
                        },
                    },
                )
            },
        }
    }
}

} // verus!
