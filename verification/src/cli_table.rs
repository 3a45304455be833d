//! The index of templates: a table that says, for each platform, which template
//! reads the output of which command. A command may be written with optional
//! endings, as in `sh[[ow]] ver[[sion]]`.

use crate::engine::{
    fancy_matches, fancy_outcome, pattern_error, refusal, FancyOutcome, FancyPattern,
};
use crate::record::clone_strings;
use crate::template::{clone_optional, views, CompileError, CompileErrorView};
use crate::text::{chars_of, first_named, lemma_first_named, string_from, string_of};
use vstd::prelude::*;

verus! {

/// A row of the index: the templates for a command, and the host and the
/// platform that the row is for, where the index has such columns.
#[derive(Debug, PartialEq)]
pub struct CliTableRow {
    pub templates: Vec<String>,
    pub hostname: Option<String>,
    pub platform: Option<String>,
    pub command: String,
}

/// The mathematical content of a [`CliTableRow`].
pub struct CliTableRowView {
    pub templates: Seq<Seq<char>>,
    pub hostname: Option<Seq<char>>,
    pub platform: Option<Seq<char>>,
    pub command: Seq<char>,
}

impl View for CliTableRow {
    type V = CliTableRowView;

    open spec fn view(&self) -> CliTableRowView {
        CliTableRowView {
            templates: self.templates.deep_view(),
            hostname: self.hostname.deep_view(),
            platform: self.platform.deep_view(),
            command: self.command@,
        }
    }
}

impl Clone for CliTableRow {
    fn clone(&self) -> (res: CliTableRow)
        ensures
            res@ == self@,
    {
        CliTableRow {
            templates: clone_strings(&self.templates),
            hostname: clone_optional(&self.hostname),
            platform: clone_optional(&self.platform),
            command: self.command.clone(),
        }
    }
}

/// An index as it was read: the name of its file, and its rows.
#[derive(Debug, PartialEq)]
pub struct ParsedCliTable {
    pub fname: String,
    pub rows: Vec<CliTableRow>,
}

/// Why an index was refused, or a look-up in it failed.
#[derive(Debug, PartialEq)]
pub enum CliTableError {
    /// The index has no column `Template`.
    NoTemplate,
    /// The index has no column `Command`.
    NoCommand,
    /// The record at this place is shorter than the header.
    ShortRecord(usize),
    /// The command of a row, written out, is no pattern.
    BadCommand(CompileError),
    /// The index has no row for the platform.
    UnknownPlatform(String),
    /// The engine gave up on the pattern of the rule at this place of the platform's rules.
    MatchFailed(usize),
}

/// The first position at which `items` holds `item`.
fn position(items: &Vec<String>, item: &str) -> (res: Option<usize>)
    ensures
        match res {
            Some(i) => first_named(items.deep_view(), item@, 0) == Some(i as int) && i < items.len(),
            None => first_named(items.deep_view(), item@, 0) is None,
        },
{
    let wanted = item.to_owned();
    let mut i: usize = 0;
    while i < items.len()
        invariant
            i <= items.len(),
            wanted@ == item@,
            first_named(items.deep_view(), item@, 0) == first_named(
                items.deep_view(),
                item@,
                i as int,
            ),
        decreases items.len() - i,
    {
        if items[i] == wanted {
            return Some(i);
        }
        i += 1;
    }
    None
}

/// The first position at or after `from` that holds a colon; the length of `s` if none does.
pub open spec fn colon_end(s: Seq<char>, from: int) -> int
    decreases s.len() - from,
{
    if 0 <= from < s.len() && s[from] != ':' {
        colon_end(s, from + 1)
    } else {
        from
    }
}

proof fn lemma_colon_end(s: Seq<char>, from: int)
    requires
        0 <= from <= s.len(),
    ensures
        from <= colon_end(s, from) <= s.len(),
    decreases s.len() - from,
{
    if from < s.len() && s[from] != ':' {
        lemma_colon_end(s, from + 1);
    }
}

/// The parts of `s` from position `from` on that colons separate.
pub open spec fn colon_parts_from(s: Seq<char>, from: int) -> Seq<Seq<char>>
    decreases s.len() - from,
    via colon_parts_decreases
{
    if from < 0 || from > s.len() {
        Seq::empty()
    } else if colon_end(s, from) >= s.len() {
        seq![s.subrange(from, s.len() as int)]
    } else {
        seq![s.subrange(from, colon_end(s, from))] + colon_parts_from(s, colon_end(s, from) + 1)
    }
}

#[via_fn]
proof fn colon_parts_decreases(s: Seq<char>, from: int) {
    if 0 <= from <= s.len() {
        lemma_colon_end(s, from);
    }
}

/// The parts of `text` that colons separate.
fn colon_parts(text: &str) -> (res: Vec<String>)
    ensures
        res.deep_view() == colon_parts_from(text@, 0),
{
    let v = chars_of(text);
    let mut res: Vec<String> = Vec::new();
    let mut from: usize = 0;
    loop
        invariant
            from <= v.len(),
            v@ == text@,
            colon_parts_from(v@, 0) == res.deep_view() + colon_parts_from(v@, from as int),
        decreases v.len() - from,
    {
        let mut end: usize = from;
        while end < v.len() && v[end] != ':'
            invariant
                from <= end <= v.len(),
                colon_end(v@, from as int) == colon_end(v@, end as int),
            decreases v.len() - end,
        {
            end += 1;
        }
        res.push(string_of(&v, from, end));
        if end >= v.len() {
            return res;
        }
        from = end + 1;
    }
}

/// The field of `record` in the column at `at`, if the header has the column.
pub open spec fn field_at(record: Seq<Seq<char>>, at: Option<int>) -> Option<Seq<char>> {
    match at {
        Some(i) => Some(record[i]),
        None => None,
    }
}

/// The row that `record` stands for under the header `headers`.
pub open spec fn row_of(headers: Seq<Seq<char>>, record: Seq<Seq<char>>) -> CliTableRowView {
    CliTableRowView {
        templates: colon_parts_from(record[first_named(headers, "Template"@, 0)->0], 0),
        hostname: field_at(record, first_named(headers, "Hostname"@, 0)),
        platform: field_at(record, first_named(headers, "Platform"@, 0)),
        command: record[first_named(headers, "Command"@, 0)->0],
    }
}

/// Whether `rows` holds the row of each record, in order.
pub open spec fn rows_of(
    rows: Seq<CliTableRow>,
    headers: Seq<Seq<char>>,
    records: Seq<Vec<String>>,
) -> bool {
    &&& rows.len() == records.len()
    &&& forall|i: int|
        0 <= i < rows.len() ==> (#[trigger] rows[i])@ == row_of(headers, records[i].deep_view())
}

/// The place of the first record that is shorter than `width`, from `from` on.
pub open spec fn first_short(records: Seq<Vec<String>>, width: int, from: int) -> Option<int>
    decreases records.len() - from,
{
    if from < 0 || from >= records.len() {
        None
    } else if records[from].len() < width {
        Some(from)
    } else {
        first_short(records, width, from + 1)
    }
}

/// A copy of the field at `at`, if there is such a column.
fn field(record: &Vec<String>, at: Option<usize>) -> (res: Option<String>)
    requires
        at matches Some(i) ==> i < record.len(),
    ensures
        res.deep_view() == field_at(
            record.deep_view(),
            match at {
                Some(i) => Some(i as int),
                None => None,
            },
        ),
{
    match at {
        Some(i) => Some(record[i].clone()),
        None => None,
    }
}

impl ParsedCliTable {
    /// The index of the file `fname`, from its header and its records. The
    /// header must name the columns `Template` and `Command`, and may name
    /// `Platform` and `Hostname`. The templates of a row are the parts of its
    /// field `Template` that colons separate. No record may be shorter than the
    /// header.
    pub fn from_records(fname: &str, headers: &Vec<String>, records: &Vec<Vec<String>>) -> (res:
        Result<ParsedCliTable, CliTableError>)
        ensures
            match res {
                Ok(table) => {
                    &&& first_named(headers.deep_view(), "Template"@, 0) is Some
                    &&& first_named(headers.deep_view(), "Command"@, 0) is Some
                    &&& first_short(records@, headers.len() as int, 0) is None
                    &&& table.fname@ == fname@
                    &&& rows_of(table.rows@, headers.deep_view(), records@)
                },
                Err(CliTableError::NoTemplate) => first_named(headers.deep_view(), "Template"@, 0)
                    is None,
                Err(CliTableError::NoCommand) => first_named(headers.deep_view(), "Template"@, 0)
                    is Some && first_named(headers.deep_view(), "Command"@, 0) is None,
                Err(CliTableError::ShortRecord(i)) => {
                    &&& first_named(headers.deep_view(), "Template"@, 0) is Some
                    &&& first_named(headers.deep_view(), "Command"@, 0) is Some
                    &&& first_short(records@, headers.len() as int, 0) == Some(i as int)
                },
                Err(_) => false,
            },
    {
        let template_at = match position(headers, "Template") {
            Some(i) => i,
            None => {
                return Err(CliTableError::NoTemplate);
            },
        };
        let command_at = match position(headers, "Command") {
            Some(i) => i,
            None => {
                return Err(CliTableError::NoCommand);
            },
        };
        let platform_at = position(headers, "Platform");
        let hostname_at = position(headers, "Hostname");
        let mut rows: Vec<CliTableRow> = Vec::new();
        let mut i: usize = 0;
        while i < records.len()
            invariant
                i <= records.len(),
                rows.len() == i,
                template_at < headers.len(),
                command_at < headers.len(),
                first_named(headers.deep_view(), "Template"@, 0) == Some(template_at as int),
                first_named(headers.deep_view(), "Command"@, 0) == Some(command_at as int),
                match platform_at {
                    Some(p) => first_named(headers.deep_view(), "Platform"@, 0) == Some(p as int) && p
                        < headers.len(),
                    None => first_named(headers.deep_view(), "Platform"@, 0) is None,
                },
                match hostname_at {
                    Some(p) => first_named(headers.deep_view(), "Hostname"@, 0) == Some(p as int) && p
                        < headers.len(),
                    None => first_named(headers.deep_view(), "Hostname"@, 0) is None,
                },
                first_short(records@, headers.len() as int, 0) == first_short(
                    records@,
                    headers.len() as int,
                    i as int,
                ),
                forall|j: int|
                    0 <= j < i ==> (#[trigger] rows[j])@ == row_of(
                        headers.deep_view(),
                        records[j].deep_view(),
                    ),
            decreases records.len() - i,
        {
            let record = &records[i];
            if record.len() < headers.len() {
                return Err(CliTableError::ShortRecord(i));
            }
            let row = CliTableRow {
                templates: colon_parts(record[template_at].as_str()),
                hostname: field(record, hostname_at),
                platform: field(record, platform_at),
                command: record[command_at].clone(),
            };
            rows.push(row);
            i += 1;
        }
        Ok(ParsedCliTable { fname: fname.to_owned(), rows })
    }
}

/// The first `n` characters of `s`, each behind an opening bracket.
pub open spec fn opened(s: Seq<char>, n: int) -> Seq<char>
    decreases n,
{
    if n <= 0 {
        Seq::empty()
    } else {
        opened(s, n - 1) + seq!['(', s[n - 1]]
    }
}

/// `n` times a closing bracket and a question mark.
pub open spec fn closed(n: int) -> Seq<char>
    decreases n,
{
    if n <= 0 {
        Seq::empty()
    } else {
        closed(n - 1) + seq![')', '?']
    }
}

/// The pattern for any start of `s`: `abc` becomes `(a(b(c)?)?)?`.
pub open spec fn expanded_string(s: Seq<char>) -> Seq<char> {
    opened(s, s.len() as int) + closed(s.len() as int)
}

/// The first position at or after `from` at which `a` stands twice in a row;
/// the length of `s` if there is none.
pub open spec fn double_at(s: Seq<char>, a: char, from: int) -> int
    decreases s.len() - from,
{
    if 0 <= from < s.len() && !(from + 1 < s.len() && s[from] == a && s[from + 1] == a) {
        double_at(s, a, from + 1)
    } else {
        from
    }
}

proof fn lemma_double_at(s: Seq<char>, a: char, from: int)
    requires
        0 <= from <= s.len(),
    ensures
        from <= double_at(s, a, from) <= s.len(),
        double_at(s, a, from) < s.len() ==> double_at(s, a, from) + 1 < s.len(),
    decreases s.len() - from,
{
    if from < s.len() && !(from + 1 < s.len() && s[from] == a && s[from + 1] == a) {
        lemma_double_at(s, a, from + 1);
    }
}

/// `s` from position `pos` on, with each `[[text]]` written out as the pattern
/// for any start of `text`; a `[[` without a `]]` behind it stays as it is.
pub open spec fn expanded_brackets_from(s: Seq<char>, pos: int) -> Seq<char>
    decreases s.len() - pos,
    via expanded_brackets_decreases
{
    if pos < 0 || pos > s.len() {
        Seq::empty()
    } else if double_at(s, '[', pos) >= s.len() {
        s.subrange(pos, s.len() as int)
    } else if double_at(s, ']', double_at(s, '[', pos) + 2) >= s.len() {
        s.subrange(pos, double_at(s, '[', pos) + 2) + expanded_brackets_from(
            s,
            double_at(s, '[', pos) + 2,
        )
    } else {
        s.subrange(pos, double_at(s, '[', pos)) + expanded_string(
            s.subrange(double_at(s, '[', pos) + 2, double_at(s, ']', double_at(s, '[', pos) + 2)),
        ) + expanded_brackets_from(s, double_at(s, ']', double_at(s, '[', pos) + 2) + 2)
    }
}

#[via_fn]
proof fn expanded_brackets_decreases(s: Seq<char>, pos: int) {
    if 0 <= pos <= s.len() {
        lemma_double_at(s, '[', pos);
        if double_at(s, '[', pos) < s.len() {
            lemma_double_at(s, ']', double_at(s, '[', pos) + 2);
        }
    }
}

/// A command with its optional endings written out as a pattern.
pub open spec fn expanded_brackets(s: Seq<char>) -> Seq<char> {
    expanded_brackets_from(s, 0)
}

/// The first position at or after `from` at which `a` stands twice in a row.
fn find_double(v: &Vec<char>, a: char, from: usize) -> (res: usize)
    requires
        from <= v.len(),
    ensures
        res == double_at(v@, a, from as int),
        from <= res <= v.len(),
        res < v.len() ==> res + 1 < v.len(),
{
    let mut i: usize = from;
    while i < v.len() && !(v.len() - i > 1 && v[i] == a && v[i + 1] == a)
        invariant
            from <= i <= v.len(),
            double_at(v@, a, from as int) == double_at(v@, a, i as int),
        decreases v.len() - i,
    {
        i += 1;
    }
    i
}

/// Appends the pattern for any start of `v[from..to]` to `out`.
fn push_expanded(out: &mut Vec<char>, v: &Vec<char>, from: usize, to: usize)
    requires
        from <= to <= v.len(),
    ensures
        final(out)@ == old(out)@ + expanded_string(v@.subrange(from as int, to as int)),
{
    let ghost s = v@.subrange(from as int, to as int);
    let ghost start = out@;
    let mut i: usize = from;
    while i < to
        invariant
            from <= i <= to <= v.len(),
            s == v@.subrange(from as int, to as int),
            out@ == start + opened(s, i - from),
        decreases to - i,
    {
        out.push('(');
        out.push(v[i]);
        assert(start + opened(s, i - from + 1) =~= (start + opened(s, i - from)).push('(').push(
            s[i - from],
        ));
        i += 1;
    }
    let ghost middle = out@;
    let mut k: usize = 0;
    while k < to - from
        invariant
            k <= to - from,
            out@ == middle + closed(k as int),
        decreases to - from - k,
    {
        out.push(')');
        out.push('?');
        assert(middle + closed(k + 1) =~= (middle + closed(k as int)).push(')').push('?'));
        k += 1;
    }
}

/// Appends `v[from..to]` to `out`.
fn push_range(out: &mut Vec<char>, v: &Vec<char>, from: usize, to: usize)
    requires
        from <= to <= v.len(),
    ensures
        final(out)@ == old(out)@ + v@.subrange(from as int, to as int),
{
    let mut i: usize = from;
    while i < to
        invariant
            from <= i <= to <= v.len(),
            out@ == old(out)@ + v@.subrange(from as int, i as int),
        decreases to - i,
    {
        out.push(v[i]);
        i += 1;
    }
}

/// A rule of the index: the row at `row_index` of the table at `table_index`
/// is for the commands that `command_regex` finds.
#[derive(Debug)]
pub struct CliTableRegexRule {
    pub table_index: usize,
    pub row_index: usize,
    pub command_regex: FancyPattern,
}

/// The rules of one platform.
#[derive(Debug)]
pub struct PlatformRules {
    pub platform: String,
    pub rules: Vec<CliTableRegexRule>,
}

/// The indexes that were read, and their rules by platform. Every rule points
/// at a row of one of the indexes.
#[derive(Debug)]
pub struct CliTable {
    tables: Vec<ParsedCliTable>,
    platform_regex_rules: Vec<PlatformRules>,
}

/// The platform of the rows that name none.
pub open spec fn no_platform() -> Seq<char> {
    "no-platform"@
}

/// Whether the rule points at a row of one of the tables, and its pattern is
/// the command of that row, written out.
pub open spec fn rule_fits(rule: CliTableRegexRule, tables: Seq<ParsedCliTable>) -> bool {
    &&& rule.table_index < tables.len()
    &&& rule.row_index < tables[rule.table_index as int].rows.len()
    &&& rule.command_regex@ == expanded_brackets(
        tables[rule.table_index as int].rows[rule.row_index as int].command@,
    )
}

/// Whether every rule fits the tables.
pub open spec fn rules_fit(groups: Seq<PlatformRules>, tables: Seq<ParsedCliTable>) -> bool {
    forall|g: int, r: int|
        0 <= g < groups.len() && 0 <= r < groups[g].rules.len() ==> rule_fits(
            #[trigger] groups[g].rules[r],
            tables,
        )
}

/// The names of the platforms, in order.
pub open spec fn platform_names(groups: Seq<PlatformRules>) -> Seq<Seq<char>> {
    Seq::new(groups.len(), |i: int| groups[i].platform@)
}

/// The mathematical content of a [`CliTableRegexRule`].
pub struct RuleView {
    pub table_index: int,
    pub row_index: int,
    pub pattern: Seq<char>,
}

impl View for CliTableRegexRule {
    type V = RuleView;

    open spec fn view(&self) -> RuleView {
        RuleView {
            table_index: self.table_index as int,
            row_index: self.row_index as int,
            pattern: self.command_regex@,
        }
    }
}

/// The mathematical content of a [`PlatformRules`].
pub struct GroupView {
    pub platform: Seq<char>,
    pub rules: Seq<RuleView>,
}

impl View for PlatformRules {
    type V = GroupView;

    open spec fn view(&self) -> GroupView {
        GroupView { platform: self.platform@, rules: views(self.rules@) }
    }
}

/// The names of the platforms, in order.
pub open spec fn group_names(groups: Seq<GroupView>) -> Seq<Seq<char>> {
    Seq::new(groups.len(), |i: int| groups[i].platform)
}

/// `groups` with `rule` behind the rules of `platform`, which come last if
/// the platform is new.
pub open spec fn add_rule(
    groups: Seq<GroupView>,
    platform: Seq<char>,
    rule: RuleView,
) -> Seq<GroupView> {
    match first_named(group_names(groups), platform, 0) {
        Some(i) => groups.update(i, GroupView { platform, rules: groups[i].rules.push(rule) }),
        None => groups.push(GroupView { platform, rules: seq![rule] }),
    }
}

/// The platform that a row is for.
pub open spec fn platform_of(row: CliTableRowView) -> Seq<char> {
    match row.platform {
        Some(p) => p,
        None => no_platform(),
    }
}

/// `groups` with the rule of the row at `r` of the table at `t`, or the error
/// for its command, if that, written out, is no pattern.
pub open spec fn add_row(groups: Seq<GroupView>, row: CliTableRowView, t: int, r: int) -> Result<
    Seq<GroupView>,
    CompileErrorView,
> {
    let pattern = expanded_brackets(row.command);
    if fancy_outcome(pattern) == FancyOutcome::Accepted {
        Ok(add_rule(groups, platform_of(row), RuleView { table_index: t, row_index: r, pattern }))
    } else {
        Err(refusal(pattern, fancy_outcome(pattern)))
    }
}

/// The rules of the first `t` tables and of the first `r` rows of the table
/// behind them, by platform; or the error for the first command among them
/// that is no pattern.
pub open spec fn rules_upto(tables: Seq<ParsedCliTable>, t: int, r: int) -> Result<
    Seq<GroupView>,
    CompileErrorView,
>
    decreases t, r,
{
    if t < 0 {
        Ok(Seq::empty())
    } else if r > 0 {
        match rules_upto(tables, t, r - 1) {
            Err(e) => Err(e),
            Ok(groups) => add_row(groups, tables[t].rows[r - 1]@, t, r - 1),
        }
    } else if t > 0 {
        rules_upto(tables, t - 1, tables[t - 1].rows.len() as int)
    } else {
        Ok(Seq::empty())
    }
}

/// The rules of all rows of `tables`, by platform.
pub open spec fn rules_of(tables: Seq<ParsedCliTable>) -> Result<Seq<GroupView>, CompileErrorView> {
    rules_upto(tables, tables.len() as int, 0)
}

/// Once a command has failed, the rows behind it change nothing.
proof fn lemma_rules_fail(tables: Seq<ParsedCliTable>, t: int, r: int, t2: int, r2: int)
    requires
        0 <= t <= t2,
        0 <= r,
        0 <= r2,
        t == t2 ==> r <= r2,
        t < t2 ==> r <= tables[t].rows.len(),
        rules_upto(tables, t, r) is Err,
    ensures
        rules_upto(tables, t2, r2) == rules_upto(tables, t, r),
    decreases t2, r2,
{
    if t == t2 && r == r2 {
    } else if r2 > 0 {
        lemma_rules_fail(tables, t, r, t2, r2 - 1);
    } else {
        if t == t2 - 1 {
            lemma_rules_fail(tables, t, r, t, tables[t].rows.len() as int);
        } else {
            lemma_rules_fail(tables, t, r, t2 - 1, tables[t2 - 1].rows.len() as int);
        }
    }
}

/// The first rule at or after `from` whose pattern finds `cmd`, or whose search
/// the engine gives up.
pub open spec fn first_match(
    rules: Seq<CliTableRegexRule>,
    cmd: Seq<char>,
    from: int,
) -> Option<int>
    decreases rules.len() - from,
{
    if from < 0 || from >= rules.len() {
        None
    } else if fancy_matches(rules[from].command_regex@, cmd) == Some(false) {
        first_match(rules, cmd, from + 1)
    } else {
        Some(from)
    }
}

impl CliTable {
    #[verifier::type_invariant]
    spec fn rules_point_at_rows(self) -> bool {
        rules_fit(self.platform_regex_rules@, self.tables@)
    }

    /// The indexes that were read.
    pub closed spec fn tables_of(&self) -> Seq<ParsedCliTable> {
        self.tables@
    }

    /// The rules, by platform.
    pub closed spec fn groups_of(&self) -> Seq<PlatformRules> {
        self.platform_regex_rules@
    }

    /// The names of the platforms are those of the mathematical content.
    proof fn lemma_names(groups: Seq<PlatformRules>)
        ensures
            group_names(views(groups)) == platform_names(groups),
    {
    }

    /// The pattern for any start of `input`: `abc` becomes `(a(b(c)?)?)?`.
    pub fn expand_string(input: &str) -> (res: String)
        ensures
            res@ == expanded_string(input@),
    {
        let v = chars_of(input);
        let mut out: Vec<char> = Vec::new();
        push_expanded(&mut out, &v, 0, v.len());
        assert(v@.subrange(0, v.len() as int) =~= v@);
        string_from(&out)
    }

    /// `input` with each `[[text]]` written out as the pattern for any start of
    /// `text`, so that `sh[[ow]]` finds `sh`, `sho` and `show`; a `[[` without a
    /// `]]` behind it stays as it is.
    pub fn expand_brackets(input: &str) -> (res: String)
        ensures
            res@ == expanded_brackets(input@),
    {
        let v = chars_of(input);
        let mut out: Vec<char> = Vec::new();
        let mut pos: usize = 0;
        loop
            invariant
                pos <= v.len(),
                v@ == input@,
                expanded_brackets(v@) == out@ + expanded_brackets_from(v@, pos as int),
            decreases v.len() - pos,
        {
            let open = find_double(&v, '[', pos);
            if open >= v.len() {
                push_range(&mut out, &v, pos, v.len());
                return string_from(&out);
            }
            let close = find_double(&v, ']', open + 2);
            if close >= v.len() {
                push_range(&mut out, &v, pos, open + 2);
                pos = open + 2;
            } else {
                push_range(&mut out, &v, pos, open);
                push_expanded(&mut out, &v, open + 2, close);
                pos = close + 2;
            }
        }
    }

    /// The place of the rules of `platform`.
    fn platform_index(groups: &Vec<PlatformRules>, platform: &String) -> (res: Option<usize>)
        ensures
            match res {
                Some(i) => first_named(platform_names(groups@), platform@, 0) == Some(i as int) && i
                    < groups.len(),
                None => first_named(platform_names(groups@), platform@, 0) is None,
            },
    {
        let ghost names = platform_names(groups@);
        let mut i: usize = 0;
        while i < groups.len()
            invariant
                i <= groups.len(),
                names == platform_names(groups@),
                first_named(names, platform@, 0) == first_named(names, platform@, i as int),
            decreases groups.len() - i,
        {
            if groups[i].platform == *platform {
                return Some(i);
            }
            i += 1;
        }
        None
    }

    /// The index of all rows of `tables`: each row becomes a rule of its
    /// platform, or of the platform `no-platform` if it names none, with its
    /// command written out as a pattern. Fails on the first command that is no
    /// pattern.
    pub fn from_tables(tables: Vec<ParsedCliTable>) -> (res: Result<CliTable, CliTableError>)
        ensures
            match res {
                Ok(index) => index.tables_of() == tables@ && rules_of(tables@) == Ok::<
                    Seq<GroupView>,
                    CompileErrorView,
                >(views(index.groups_of())),
                Err(CliTableError::BadCommand(e)) => rules_of(tables@) == Err::<
                    Seq<GroupView>,
                    CompileErrorView,
                >(e@),
                Err(_) => false,
            },
    {
        let mut groups: Vec<PlatformRules> = Vec::new();
        let mut t: usize = 0;
        assert(views(groups@) =~= Seq::<GroupView>::empty());
        while t < tables.len()
            invariant
                t <= tables.len(),
                rules_fit(groups@, tables@),
                rules_upto(tables@, t as int, 0) == Ok::<Seq<GroupView>, CompileErrorView>(
                    views(groups@),
                ),
            decreases tables.len() - t,
        {
            let mut r: usize = 0;
            while r < tables[t].rows.len()
                invariant
                    t < tables.len(),
                    r <= tables[t as int].rows.len(),
                    rules_fit(groups@, tables@),
                    rules_upto(tables@, t as int, r as int) == Ok::<
                        Seq<GroupView>,
                        CompileErrorView,
                    >(views(groups@)),
                decreases tables[t as int].rows.len() - r,
            {
                let row = &tables[t].rows[r];
                let pattern = Self::expand_brackets(row.command.as_str());
                let chars = chars_of(pattern.as_str());
                let command_regex = match FancyPattern::new(pattern) {
                    Ok(p) => p,
                    Err(outcome) => {
                        let place = match outcome {
                            FancyOutcome::NotRepeatable(at) => at,
                            FancyOutcome::Rejected(at) => at,
                            _ => chars.len(),
                        };
                        proof {
                            lemma_rules_fail(tables@, t as int, r + 1, tables.len() as int, 0);
                        }
                        return Err(CliTableError::BadCommand(pattern_error(&chars, place)));
                    },
                };
                let rule = CliTableRegexRule { table_index: t, row_index: r, command_regex };
                let platform = match &row.platform {
                    Some(p) => p.clone(),
                    None => "no-platform".to_owned(),
                };
                let ghost before = groups@;
                proof {
                    Self::lemma_names(before);
                }
                match Self::platform_index(&groups, &platform) {
                    Some(at) => {
                        let mut group = groups.remove(at);
                        let ghost old_rules = views(group.rules@);
                        group.rules.push(rule);
                        assert(views(group.rules@) =~= old_rules.push(rule@));
                        groups.insert(at, group);
                        proof {
                            lemma_first_named(platform_names(before), platform@, 0);
                            assert(views(groups@) =~= add_rule(views(before), platform@, rule@));
                        }
                    },
                    None => {
                        let mut rules: Vec<CliTableRegexRule> = Vec::new();
                        rules.push(rule);
                        assert(views(rules@) =~= seq![rule@]);
                        groups.push(PlatformRules { platform, rules });
                        proof {
                            assert(views(groups@) =~= add_rule(views(before), platform@, rule@));
                        }
                    },
                }
                r += 1;
            }
            t += 1;
        }
        Ok(CliTable { tables, platform_regex_rules: groups })
    }

    /// The indexes that were read.
    pub fn tables(&self) -> (res: &Vec<ParsedCliTable>)
        ensures
            res@ == self.tables_of(),
    {
        &self.tables
    }

    /// The rules, by platform, in the order in which the platforms first came.
    pub fn platform_regex_rules(&self) -> (res: &Vec<PlatformRules>)
        ensures
            res@ == self.groups_of(),
            rules_fit(self.groups_of(), self.tables_of()),
    {
        proof {
            use_type_invariant(self);
        }
        &self.platform_regex_rules
    }

    /// The file of the index and the row for the command `cmd` on `platform`:
    /// those of the first rule of the platform whose pattern finds the command.
    /// Fails if the index has no rule for the platform, or if the engine gives
    /// the search up before a rule has found the command.
    pub fn get_template_for_command(&self, platform: &str, cmd: &str) -> (res: Result<
        Option<(String, CliTableRow)>,
        CliTableError,
    >)
        ensures
            match first_named(platform_names(self.groups_of()), platform@, 0) {
                None => res matches Err(CliTableError::UnknownPlatform(p)) && p@ == platform@,
                Some(g) => match first_match(self.groups_of()[g].rules@, cmd@, 0) {
                    None => res matches Ok(None),
                    Some(k) => {
                        let rule = self.groups_of()[g].rules@[k];
                        if fancy_matches(rule.command_regex@, cmd@) is None {
                            res matches Err(CliTableError::MatchFailed(at)) && at == k
                        } else {
                            res matches Ok(Some(found)) && found.0@ == self.tables_of()[rule.table_index as int].fname@
                                && found.1@ == self.tables_of()[rule.table_index as int].rows[rule.row_index as int]@
                        }
                    },
                },
            },
    {
        proof {
            use_type_invariant(self);
        }
        let wanted = platform.to_owned();
        let g = match Self::platform_index(&self.platform_regex_rules, &wanted) {
            Some(g) => g,
            None => {
                return Err(CliTableError::UnknownPlatform(wanted));
            },
        };
        let group = &self.platform_regex_rules[g];
        let mut k: usize = 0;
        while k < group.rules.len()
            invariant
                k <= group.rules.len(),
                rules_fit(self.platform_regex_rules@, self.tables@),
                g < self.platform_regex_rules.len(),
                first_named(platform_names(self.groups_of()), platform@, 0) == Some(g as int),
                group == self.platform_regex_rules@[g as int],
                first_match(group.rules@, cmd@, 0) == first_match(group.rules@, cmd@, k as int),
            decreases group.rules.len() - k,
        {
            let rule = &group.rules[k];
            match rule.command_regex.is_match(cmd) {
                None => {
                    return Err(CliTableError::MatchFailed(k));
                },
                Some(true) => {
                    let table = &self.tables[rule.table_index];
                    return Ok(Some((table.fname.clone(), table.rows[rule.row_index].clone())));
                },
                Some(false) => {},
            }
            k += 1;
        }
        Ok(None)
    }
}

} // verus!
