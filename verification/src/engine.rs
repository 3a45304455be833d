//! The two pattern engines behind a rule: the linear-time engine of the `regex`
//! crate, and the backtracking engine of the `fancy-regex` crate for patterns
//! with lookaround or backreferences. Neither engine is verified: what this
//! module states of them is believed.
//!
//! A compiled pattern is held as the text that its engine has taken, and a
//! search hands that text to the engine again. What an engine does is so a
//! function of texts alone, and two tables made from one template search alike.

use crate::template::{CompileError, CompileErrorView};
use crate::text::{chars_of, string_from, string_of};
use vstd::prelude::*;

verus! {

/// What the backtracking engine says of a pattern.
#[derive(Debug, Clone, Copy, PartialEq, Eq, Structural)]
pub enum FancyOutcome {
    /// The pattern compiles.
    Accepted,
    /// A repeat operator at this offset stands behind something that cannot be repeated.
    NotRepeatable(usize),
    /// The pattern does not parse, for another reason, at this offset.
    Rejected(usize),
    /// The pattern parses and does not compile.
    Failed,
}

/// The bindings of one occurrence of a pattern: for each name asked for, the
/// text that the group of that name captured, if it took part in the match.
pub type Bindings = Seq<Option<Seq<char>>>;

/// Whether `regex::Regex::new` compiles `pattern`.
pub uninterp spec fn classic_accepts(pattern: Seq<char>) -> bool;

/// What `fancy_regex::Regex::new` says of `pattern`.
pub uninterp spec fn fancy_outcome(pattern: Seq<char>) -> FancyOutcome;

/// The bindings of `names` in each of the non-overlapping occurrences of
/// `pattern` in `line`, from left to right, as the `regex` crate finds them.
pub uninterp spec fn classic_occurrences(
    pattern: Seq<char>,
    names: Seq<Seq<char>>,
    line: Seq<char>,
) -> Seq<Bindings>;

/// The bindings of `names` in each of the non-overlapping occurrences of
/// `pattern` in `line`, from left to right, as the `fancy-regex` crate finds
/// them; nothing if the engine gives the search up.
pub uninterp spec fn fancy_occurrences(
    pattern: Seq<char>,
    names: Seq<Seq<char>>,
    line: Seq<char>,
) -> Option<Seq<Bindings>>;

/// Whether `pattern` occurs in `text`, as the `fancy-regex` crate finds it;
/// nothing if the engine gives the search up.
pub uninterp spec fn fancy_matches(pattern: Seq<char>, text: Seq<char>) -> Option<bool>;

/// Every row has one place for each name.
pub open spec fn rows_fit(rows: Seq<Vec<Option<String>>>, names: Seq<String>) -> bool {
    forall|i: int| 0 <= i < rows.len() ==> (#[trigger] rows[i]).len() == names.len()
}

/// Calls `regex::Regex::new` on `pattern` and says whether it returned a
/// regex. The contract gives that answer its name, [`classic_accepts`].
#[verifier::external_body]
fn classic_check(pattern: &str) -> (res: bool)
    ensures
        res == classic_accepts(pattern@),
{
    regex::Regex::new(pattern).is_ok()
}

/// Runs `regex::Regex::captures_iter` over `line`, on the regex that
/// `regex::Regex::new` makes of `pattern`, and looks each name up in each
/// occurrence with `regex::Captures::name`. The contract gives the result its
/// name, [`classic_occurrences`], and says that each row has a place for each name.
#[verifier::external_body]
fn classic_search(pattern: &str, names: &Vec<String>, line: &str) -> (res: Vec<
    Vec<Option<String>>,
>)
    requires
        classic_accepts(pattern@),
    ensures
        res.deep_view() == classic_occurrences(pattern@, names.deep_view(), line@),
        rows_fit(res@, names@),
{
    let rx = regex::Regex::new(pattern).unwrap();
    rx.captures_iter(line).map(
        |caps| names.iter().map(|n| caps.name(n).map(|m| m.as_str().to_string())).collect(),
    ).collect()
}

/// Calls `fancy_regex::Regex::new` on `pattern` and tells its outcomes apart:
/// a regex, a parse error for a repeat operator behind something that cannot
/// be repeated, another parse error, any other error. The offset is the one
/// that the error carries. The contract gives the result its name, [`fancy_outcome`].
#[verifier::external_body]
fn fancy_check(pattern: &str) -> (res: FancyOutcome)
    ensures
        res == fancy_outcome(pattern@),
{
    match fancy_regex::Regex::new(pattern) {
        Ok(_) => FancyOutcome::Accepted,
        Err(fancy_regex::Error::ParseError(at, fancy_regex::ParseError::TargetNotRepeatable)) => {
            FancyOutcome::NotRepeatable(at)
        },
        Err(fancy_regex::Error::ParseError(at, _)) => FancyOutcome::Rejected(at),
        Err(_) => FancyOutcome::Failed,
    }
}

/// Runs `fancy_regex::Regex::captures_iter` over `line`, on the regex that
/// `fancy_regex::Regex::new` makes of `pattern`, and looks each name up in each
/// occurrence with `fancy_regex::Captures::name`; nothing if the iterator
/// yields an error. The contract gives the result its name,
/// [`fancy_occurrences`], and says that each row has a place for each name.
#[verifier::external_body]
fn fancy_search(pattern: &str, names: &Vec<String>, line: &str) -> (res: Option<
    Vec<Vec<Option<String>>>,
>)
    requires
        fancy_outcome(pattern@) == FancyOutcome::Accepted,
    ensures
        res.deep_view() == fancy_occurrences(pattern@, names.deep_view(), line@),
        res matches Some(rows) ==> rows_fit(rows@, names@),
{
    let rx = fancy_regex::Regex::new(pattern).unwrap();
    let mut rows = Vec::new();
    for found in rx.captures_iter(line) {
        let caps = found.ok()?;
        rows.push(names.iter().map(|n| caps.name(n).map(|m| m.as_str().to_string())).collect());
    }
    Some(rows)
}

/// Calls `fancy_regex::Regex::is_match` on `text`, on the regex that
/// `fancy_regex::Regex::new` makes of `pattern`; nothing if it returns an
/// error. The contract gives the result its name, [`fancy_matches`].
#[verifier::external_body]
fn fancy_test(pattern: &str, text: &str) -> (res: Option<bool>)
    requires
        fancy_outcome(pattern@) == FancyOutcome::Accepted,
    ensures
        res == fancy_matches(pattern@, text@),
{
    fancy_regex::Regex::new(pattern).unwrap().is_match(text).ok()
}

/// A pattern that the linear-time engine compiles.
#[derive(Debug)]
pub struct ClassicPattern {
    source: String,
}

impl View for ClassicPattern {
    type V = Seq<char>;

    closed spec fn view(&self) -> Seq<char> {
        self.source@
    }
}

impl ClassicPattern {
    #[verifier::type_invariant]
    spec fn compiles(self) -> bool {
        classic_accepts(self.source@)
    }

    /// The pattern, if the linear-time engine compiles it.
    pub fn new(pattern: String) -> (res: Option<ClassicPattern>)
        ensures
            res is Some <==> classic_accepts(pattern@),
            res matches Some(p) ==> p@ == pattern@,
    {
        if classic_check(pattern.as_str()) {
            Some(ClassicPattern { source: pattern })
        } else {
            None
        }
    }

    /// The text of the pattern.
    pub fn as_str(&self) -> (res: &str)
        ensures
            res@ == self@,
            classic_accepts(self@),
    {
        proof {
            use_type_invariant(self);
        }
        self.source.as_str()
    }

    /// The bindings of `names` in each occurrence of the pattern in `line`.
    pub fn occurrences(&self, names: &Vec<String>, line: &str) -> (res: Vec<Vec<Option<String>>>)
        ensures
            res.deep_view() == classic_occurrences(self@, names.deep_view(), line@),
            rows_fit(res@, names@),
    {
        proof {
            use_type_invariant(self);
        }
        classic_search(self.source.as_str(), names, line)
    }
}

impl Clone for ClassicPattern {
    fn clone(&self) -> (res: ClassicPattern)
        ensures
            res@ == self@,
    {
        proof {
            use_type_invariant(self);
        }
        ClassicPattern { source: self.source.clone() }
    }
}

/// A pattern that the backtracking engine compiles.
#[derive(Debug)]
pub struct FancyPattern {
    source: String,
}

impl View for FancyPattern {
    type V = Seq<char>;

    closed spec fn view(&self) -> Seq<char> {
        self.source@
    }
}

impl FancyPattern {
    #[verifier::type_invariant]
    spec fn compiles(self) -> bool {
        fancy_outcome(self.source@) == FancyOutcome::Accepted
    }

    /// The pattern, if the backtracking engine compiles it; else what the engine said.
    pub fn new(pattern: String) -> (res: Result<FancyPattern, FancyOutcome>)
        ensures
            match res {
                Ok(p) => fancy_outcome(pattern@) == FancyOutcome::Accepted && p@ == pattern@,
                Err(outcome) => outcome != FancyOutcome::Accepted && fancy_outcome(pattern@)
                    == outcome,
            },
    {
        match fancy_check(pattern.as_str()) {
            FancyOutcome::Accepted => Ok(FancyPattern { source: pattern }),
            outcome => Err(outcome),
        }
    }

    /// The text of the pattern.
    pub fn as_str(&self) -> (res: &str)
        ensures
            res@ == self@,
            fancy_outcome(self@) == FancyOutcome::Accepted,
    {
        proof {
            use_type_invariant(self);
        }
        self.source.as_str()
    }

    /// Whether the pattern occurs in `text`; nothing if the engine gives the search up.
    pub fn is_match(&self, text: &str) -> (res: Option<bool>)
        ensures
            res == fancy_matches(self@, text@),
    {
        proof {
            use_type_invariant(self);
        }
        fancy_test(self.source.as_str(), text)
    }

    /// The bindings of `names` in each occurrence of the pattern in `line`;
    /// nothing if the engine gives the search up.
    pub fn occurrences(&self, names: &Vec<String>, line: &str) -> (res: Option<
        Vec<Vec<Option<String>>>,
    >)
        ensures
            res.deep_view() == fancy_occurrences(self@, names.deep_view(), line@),
            res matches Some(rows) ==> rows_fit(rows@, names@),
    {
        proof {
            use_type_invariant(self);
        }
        fancy_search(self.source.as_str(), names, line)
    }
}

impl Clone for FancyPattern {
    fn clone(&self) -> (res: FancyPattern)
        ensures
            res@ == self@,
    {
        proof {
            use_type_invariant(self);
        }
        FancyPattern { source: self.source.clone() }
    }
}

/// A compiled pattern, tagged by the engine that runs it.
#[derive(Debug)]
pub enum MultiRegex {
    Classic(ClassicPattern),
    Fancy(FancyPattern),
}

/// The mathematical content of a [`MultiRegex`]: the engine, and the text of the pattern.
pub enum MultiRegexView {
    Classic(Seq<char>),
    Fancy(Seq<char>),
}

impl View for MultiRegex {
    type V = MultiRegexView;

    open spec fn view(&self) -> MultiRegexView {
        match self {
            MultiRegex::Classic(p) => MultiRegexView::Classic(p@),
            MultiRegex::Fancy(p) => MultiRegexView::Fancy(p@),
        }
    }
}

impl MultiRegexView {
    /// The text of the pattern.
    pub open spec fn source(self) -> Seq<char> {
        match self {
            MultiRegexView::Classic(p) => p,
            MultiRegexView::Fancy(p) => p,
        }
    }
}

/// The bindings of `names` in each occurrence of a compiled pattern in `line`;
/// nothing if the backtracking engine gives the search up.
pub open spec fn occurrences_of(
    regex: MultiRegexView,
    names: Seq<Seq<char>>,
    line: Seq<char>,
) -> Option<
    Seq<Bindings>,
> {
    match regex {
        MultiRegexView::Classic(p) => Some(classic_occurrences(p, names, line)),
        MultiRegexView::Fancy(p) => fancy_occurrences(p, names, line),
    }
}

/// The error for a pattern that no engine compiles: the pattern up to and with
/// the character at `position`, or the whole of it.
pub open spec fn bad_pattern(pattern: Seq<char>, position: int) -> CompileErrorView {
    CompileErrorView::BadPattern {
        fragment: if 0 <= position < pattern.len() {
            pattern.take(position + 1)
        } else {
            pattern
        },
        position,
    }
}

/// What the backtracking engine makes of `pattern` once every repeat operator
/// that it refuses, because what stands before it cannot be repeated, is taken
/// out: the pattern that it compiles, or the error of the first other refusal.
/// The offset that the engine reports is taken as a place among the characters
/// of the pattern, and the character at that place is taken out.
pub open spec fn repaired(pattern: Seq<char>) -> Result<Seq<char>, CompileErrorView>
    decreases pattern.len(),
{
    match fancy_outcome(pattern) {
        FancyOutcome::Accepted => Ok(pattern),
        FancyOutcome::NotRepeatable(at) => if at < pattern.len() {
            repaired(pattern.remove(at as int))
        } else {
            Err(bad_pattern(pattern, at as int))
        },
        FancyOutcome::Rejected(at) => Err(bad_pattern(pattern, at as int)),
        FancyOutcome::Failed => Err(bad_pattern(pattern, pattern.len() as int)),
    }
}

/// The engine for `pattern`: the linear-time engine if it compiles the pattern,
/// else the backtracking engine on the repaired pattern.
pub open spec fn select_backend(pattern: Seq<char>) -> Result<MultiRegexView, CompileErrorView> {
    if classic_accepts(pattern) {
        Ok(MultiRegexView::Classic(pattern))
    } else {
        match repaired(pattern) {
            Ok(p) => Ok(MultiRegexView::Fancy(p)),
            Err(e) => Err(e),
        }
    }
}

/// The error for a pattern that the backtracking engine refuses with `outcome`.
pub open spec fn refusal(pattern: Seq<char>, outcome: FancyOutcome) -> CompileErrorView {
    match outcome {
        FancyOutcome::NotRepeatable(at) => bad_pattern(pattern, at as int),
        FancyOutcome::Rejected(at) => bad_pattern(pattern, at as int),
        _ => bad_pattern(pattern, pattern.len() as int),
    }
}

/// The error for `pattern`, which no engine compiles, with the fault at `position`.
pub fn pattern_error(pattern: &Vec<char>, position: usize) -> (res: CompileError)
    ensures
        res@ == bad_pattern(pattern@, position as int),
{
    let fragment = if position < pattern.len() {
        string_of(pattern, 0, position + 1)
    } else {
        string_from(pattern)
    };
    CompileError::BadPattern { fragment, position }
}

impl MultiRegex {
    /// Compiles `pattern` with the linear-time engine or, if that engine refuses
    /// it, with the backtracking engine, from which each repeat operator that
    /// the engine cannot apply is taken out first.
    pub fn compile(pattern: &str) -> (res: Result<MultiRegex, CompileError>)
        ensures
            match res {
                Ok(regex) => select_backend(pattern@) == Ok::<MultiRegexView, CompileErrorView>(
                    regex@,
                ),
                Err(e) => select_backend(pattern@) == Err::<MultiRegexView, CompileErrorView>(e@),
            },
    {
        match ClassicPattern::new(pattern.to_owned()) {
            Some(p) => return Ok(MultiRegex::Classic(p)),
            None => {},
        }
        let mut current = chars_of(pattern);
        loop
            invariant
                repaired(pattern@) == repaired(current@),
                !classic_accepts(pattern@),
            decreases current.len(),
        {
            match FancyPattern::new(string_from(&current)) {
                Ok(p) => {
                    return Ok(MultiRegex::Fancy(p));
                },
                Err(FancyOutcome::NotRepeatable(at)) => {
                    if at < current.len() {
                        current.remove(at);
                    } else {
                        return Err(pattern_error(&current, at));
                    }
                },
                Err(FancyOutcome::Rejected(at)) => {
                    return Err(pattern_error(&current, at));
                },
                Err(_) => {
                    return Err(pattern_error(&current, current.len()));
                },
            }
        }
    }

    /// The text of the pattern.
    pub fn as_str(&self) -> (res: &str)
        ensures
            res@ == self@.source(),
    {
        match self {
            MultiRegex::Classic(p) => p.as_str(),
            MultiRegex::Fancy(p) => p.as_str(),
        }
    }

    /// The bindings of `names` in each occurrence of the pattern in `line`;
    /// nothing if the backtracking engine gives the search up.
    pub fn occurrences(&self, names: &Vec<String>, line: &str) -> (res: Option<
        Vec<Vec<Option<String>>>,
    >)
        ensures
            res.deep_view() == occurrences_of(self@, names.deep_view(), line@),
            res matches Some(rows) ==> rows_fit(rows@, names@),
    {
        match self {
            MultiRegex::Classic(p) => Some(p.occurrences(names, line)),
            MultiRegex::Fancy(p) => p.occurrences(names, line),
        }
    }
}

impl Clone for MultiRegex {
    fn clone(&self) -> (res: MultiRegex)
        ensures
            res@ == self@,
    {
        match self {
            MultiRegex::Classic(p) => MultiRegex::Classic(p.clone()),
            MultiRegex::Fancy(p) => MultiRegex::Fancy(p.clone()),
        }
    }
}

} // verus!
