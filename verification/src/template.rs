//! What a template declares: values, rules and their transitions, and the
//! errors that compiling a template or running its state machine can end in.

use vstd::prelude::*;

verus! {

/// The mathematical content of each item of a list, in order.
pub open spec fn views<T: View>(items: Seq<T>) -> Seq<T::V> {
    Seq::new(items.len(), |i: int| items[i]@)
}

/// A declared value: its name, the pattern that captures it and its options.
#[derive(Debug, PartialEq)]
pub struct ValueDefinition {
    pub name: String,
    pub is_filldown: bool,
    pub is_key: bool,
    pub is_required: bool,
    pub is_list: bool,
    pub is_fillup: bool,
    pub regex_pattern: String,
    pub options: Option<String>,
}

/// The mathematical content of a [`ValueDefinition`].
pub struct ValueDefinitionView {
    pub name: Seq<char>,
    pub is_filldown: bool,
    pub is_key: bool,
    pub is_required: bool,
    pub is_list: bool,
    pub is_fillup: bool,
    pub regex_pattern: Seq<char>,
    pub options: Option<Seq<char>>,
}

impl View for ValueDefinition {
    type V = ValueDefinitionView;

    open spec fn view(&self) -> ValueDefinitionView {
        ValueDefinitionView {
            name: self.name@,
            is_filldown: self.is_filldown,
            is_key: self.is_key,
            is_required: self.is_required,
            is_list: self.is_list,
            is_fillup: self.is_fillup,
            regex_pattern: self.regex_pattern@,
            options: self.options.deep_view(),
        }
    }
}

/// A copy of an optional string.
pub fn clone_optional(s: &Option<String>) -> (res: Option<String>)
    ensures
        res.deep_view() == s.deep_view(),
{
    match s {
        Some(text) => Some(text.clone()),
        None => None,
    }
}

impl Clone for ValueDefinition {
    fn clone(&self) -> (res: ValueDefinition)
        ensures
            res@ == self@,
    {
        ValueDefinition {
            name: self.name.clone(),
            is_filldown: self.is_filldown,
            is_key: self.is_key,
            is_required: self.is_required,
            is_list: self.is_list,
            is_fillup: self.is_fillup,
            regex_pattern: self.regex_pattern.clone(),
            options: clone_optional(&self.options),
        }
    }
}

/// Where a rule sends the machine: to a named state, or into failure with an
/// optional message.
#[derive(Debug, PartialEq)]
pub enum NextState {
    Error(Option<String>),
    NamedState(String),
}

/// The mathematical content of a [`NextState`].
pub enum NextStateView {
    Error(Option<Seq<char>>),
    NamedState(Seq<char>),
}

impl View for NextState {
    type V = NextStateView;

    open spec fn view(&self) -> NextStateView {
        match self {
            NextState::Error(m) => NextStateView::Error(m.deep_view()),
            NextState::NamedState(n) => NextStateView::NamedState(n@),
        }
    }
}

impl Clone for NextState {
    fn clone(&self) -> (res: NextState)
        ensures
            res@ == self@,
    {
        match self {
            NextState::Error(m) => NextState::Error(clone_optional(m)),
            NextState::NamedState(n) => NextState::NamedState(n.clone()),
        }
    }
}

/// What a rule that matched does with the line: `Continue` hands the same line
/// to the next rule; `Next(None)` takes the next line in the same state;
/// `Next(Some(..))` takes the next line in another state, or fails.
#[derive(Debug, PartialEq)]
pub enum LineAction {
    Continue,
    Next(Option<NextState>),
}

/// The mathematical content of a [`LineAction`].
pub enum LineActionView {
    Continue,
    Next(Option<NextStateView>),
}

/// The mathematical content of an optional [`NextState`].
pub open spec fn next_view(next: Option<NextState>) -> Option<NextStateView> {
    match next {
        Some(n) => Some(n@),
        None => None,
    }
}

impl View for LineAction {
    type V = LineActionView;

    open spec fn view(&self) -> LineActionView {
        match self {
            LineAction::Continue => LineActionView::Continue,
            LineAction::Next(n) => LineActionView::Next(next_view(*n)),
        }
    }
}

impl Clone for LineAction {
    fn clone(&self) -> (res: LineAction)
        ensures
            res@ == self@,
    {
        match self {
            LineAction::Continue => LineAction::Continue,
            LineAction::Next(None) => LineAction::Next(None),
            LineAction::Next(Some(n)) => LineAction::Next(Some(n.clone())),
        }
    }
}

impl Default for LineAction {
    fn default() -> (res: LineAction)
        ensures
            res@ == LineActionView::Next(None),
    {
        LineAction::Next(None)
    }
}

/// What a rule that matched does with the record that is being filled.
#[derive(Debug, Clone, Copy, PartialEq, Eq, Structural)]
pub enum RecordAction {
    NoRecord,
    Record,
    Clear,
    Clearall,
}

impl Default for RecordAction {
    fn default() -> (res: RecordAction)
        ensures
            res == RecordAction::NoRecord,
    {
        RecordAction::NoRecord
    }
}

/// The two actions of a rule.
#[derive(Debug, PartialEq)]
pub struct RuleTransition {
    pub line_action: LineAction,
    pub record_action: RecordAction,
}

/// The mathematical content of a [`RuleTransition`].
pub struct RuleTransitionView {
    pub line_action: LineActionView,
    pub record_action: RecordAction,
}

impl View for RuleTransition {
    type V = RuleTransitionView;

    open spec fn view(&self) -> RuleTransitionView {
        RuleTransitionView { line_action: self.line_action@, record_action: self.record_action }
    }
}

/// The transition of a rule that names no action: no record action, and the next line.
pub open spec fn default_transition() -> RuleTransitionView {
    RuleTransitionView {
        line_action: LineActionView::Next(None),
        record_action: RecordAction::NoRecord,
    }
}

impl Clone for RuleTransition {
    fn clone(&self) -> (res: RuleTransition)
        ensures
            res@ == self@,
    {
        RuleTransition {
            line_action: self.line_action.clone(),
            record_action: self.record_action,
        }
    }
}

impl Default for RuleTransition {
    fn default() -> (res: RuleTransition)
        ensures
            res@ == default_transition(),
    {
        RuleTransition { line_action: LineAction::Next(None), record_action: RecordAction::NoRecord }
    }
}

/// A rule as the template states it: the text to match, with its references to
/// values still in it, and the transition.
#[derive(Debug, PartialEq)]
pub struct StateRule {
    pub rule_match: String,
    pub transition: RuleTransition,
}

/// The mathematical content of a [`StateRule`].
pub struct StateRuleView {
    pub rule_match: Seq<char>,
    pub transition: RuleTransitionView,
}

impl View for StateRule {
    type V = StateRuleView;

    open spec fn view(&self) -> StateRuleView {
        StateRuleView { rule_match: self.rule_match@, transition: self.transition@ }
    }
}

impl Clone for StateRule {
    fn clone(&self) -> (res: StateRule)
        ensures
            res@ == self@,
    {
        StateRule { rule_match: self.rule_match.clone(), transition: self.transition.clone() }
    }
}

/// Why a template was refused.
#[derive(Debug, PartialEq)]
pub enum CompileError {
    /// A line that fits no form of the template, or stands where its form may not.
    Syntax { line: String },
    /// A value declaration without a name or a pattern.
    BadValue { line: String },
    /// A value declaration with an option that does not exist.
    UnknownOption { option: String },
    /// The part of a rule behind `->` that names no transition.
    BadAction { action: String },
    /// A `$` in a rule, at `position`, that starts no reference to a value.
    BadSubstitution { text: String, position: usize },
    /// A rule that refers to a value which the template does not declare.
    UndefinedVariable { rule: String, variable: String },
    /// A pattern that neither engine compiles: its text up to the place of the fault.
    BadPattern { fragment: String, position: usize },
    /// A state that the template defines twice.
    DuplicateState { name: String },
}

/// The mathematical content of a [`CompileError`].
pub enum CompileErrorView {
    Syntax { line: Seq<char> },
    BadValue { line: Seq<char> },
    UnknownOption { option: Seq<char> },
    BadAction { action: Seq<char> },
    BadSubstitution { text: Seq<char>, position: int },
    UndefinedVariable { rule: Seq<char>, variable: Seq<char> },
    BadPattern { fragment: Seq<char>, position: int },
    DuplicateState { name: Seq<char> },
}

impl View for CompileError {
    type V = CompileErrorView;

    open spec fn view(&self) -> CompileErrorView {
        match self {
            CompileError::Syntax { line } => CompileErrorView::Syntax { line: line@ },
            CompileError::BadValue { line } => CompileErrorView::BadValue { line: line@ },
            CompileError::UnknownOption { option } => CompileErrorView::UnknownOption {
                option: option@,
            },
            CompileError::BadAction { action } => CompileErrorView::BadAction { action: action@ },
            CompileError::BadSubstitution { text, position } => CompileErrorView::BadSubstitution {
                text: text@,
                position: *position as int,
            },
            CompileError::UndefinedVariable { rule, variable } => {
                CompileErrorView::UndefinedVariable { rule: rule@, variable: variable@ }
            },
            CompileError::BadPattern { fragment, position } => CompileErrorView::BadPattern {
                fragment: fragment@,
                position: *position as int,
            },
            CompileError::DuplicateState { name } => CompileErrorView::DuplicateState {
                name: name@,
            },
        }
    }
}

/// Why a run of the state machine was given up.
#[derive(Debug, PartialEq)]
pub enum FsmError {
    /// A rule whose line action is `Error` matched; its message, if it has one.
    ErrorState(Option<String>),
    /// The machine is in, or was sent to, a state that the template does not define.
    UnknownState(String),
    /// The backtracking engine gave up on a line; the pattern that it ran.
    MatchFailed(String),
}

/// The mathematical content of an [`FsmError`].
pub enum FsmErrorView {
    ErrorState(Option<Seq<char>>),
    UnknownState(Seq<char>),
    MatchFailed(Seq<char>),
}

impl View for FsmError {
    type V = FsmErrorView;

    open spec fn view(&self) -> FsmErrorView {
        match self {
            FsmError::ErrorState(m) => FsmErrorView::ErrorState(m.deep_view()),
            FsmError::UnknownState(n) => FsmErrorView::UnknownState(n@),
            FsmError::MatchFailed(p) => FsmErrorView::MatchFailed(p@),
        }
    }
}

} // verus!
