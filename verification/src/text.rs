//! Character-level helpers shared by the template front end and the rule compiler.

use vstd::prelude::*;

verus! {

/// `String::push` appends one character to the end of the string.
pub assume_specification[ String::push ](s: &mut String, c: char)
    ensures
        final(s)@ == old(s)@.push(c),
;

/// What `str::to_lowercase` makes of a text.
pub uninterp spec fn lowercase(s: Seq<char>) -> Seq<char>;

/// `str::to_lowercase` returns the lowercase equivalent of the text as a new
/// string. The contract gives that string its name, [`lowercase`].
pub assume_specification[ str::to_lowercase ](s: &str) -> (res: String)
    ensures
        res@ == lowercase(s@),
;

/// The characters of `s`, in order.
pub fn chars_of(s: &str) -> (v: Vec<char>)
    ensures
        v@ == s@,
{
    let mut v: Vec<char> = Vec::new();
    for c in it: s.chars()
        invariant
            it.seq() == s@,
            v@ == it.seq().take(it.index() as int),
    {
        v.push(c);
    }
    v
}

/// The string made of the characters `v[from..to]`.
pub fn string_of(v: &Vec<char>, from: usize, to: usize) -> (s: String)
    requires
        from <= to <= v.len(),
    ensures
        s@ == v@.subrange(from as int, to as int),
{
    let mut s = String::new();
    let mut i: usize = from;
    while i < to
        invariant
            from <= i <= to <= v.len(),
            s@ == v@.subrange(from as int, i as int),
        decreases to - i,
    {
        s.push(v[i]);
        i += 1;
    }
    s
}


/// The string made of all the characters of `v`.
pub fn string_from(v: &Vec<char>) -> (s: String)
    ensures
        s@ == v@,
{
    let s = string_of(v, 0, v.len());
    s
}

/// A blank: a space, a tab or a carriage return.
pub open spec fn is_blank(c: char) -> bool {
    c == ' ' || c == '\t' || c == '\r'
}

/// A letter of a name: an ASCII letter or an underscore.
pub open spec fn is_name_start(c: char) -> bool {
    c == '_' || ('a' <= c && c <= 'z') || ('A' <= c && c <= 'Z')
}

/// A character of a name: a letter of a name or an ASCII digit.
pub open spec fn is_name_char(c: char) -> bool {
    is_name_start(c) || ('0' <= c && c <= '9')
}

/// A name: a letter of a name followed by characters of a name.
pub open spec fn is_name(s: Seq<char>) -> bool {
    &&& s.len() > 0
    &&& is_name_start(s[0])
    &&& forall|i: int| 0 <= i < s.len() ==> is_name_char(#[trigger] s[i])
}

/// The first position at or after `from` that holds no blank; the length of `s` if there is none.
pub open spec fn skip_blanks(s: Seq<char>, from: int) -> int
    decreases s.len() - from,
{
    if 0 <= from < s.len() && is_blank(s[from]) {
        skip_blanks(s, from + 1)
    } else {
        from
    }
}

/// The first position at or after `from` that holds a blank; the length of `s` if there is none.
pub open spec fn word_end(s: Seq<char>, from: int) -> int
    decreases s.len() - from,
{
    if 0 <= from < s.len() && !is_blank(s[from]) {
        word_end(s, from + 1)
    } else {
        from
    }
}

/// The first position at or after `from` that holds no character of a name.
pub open spec fn name_end(s: Seq<char>, from: int) -> int
    decreases s.len() - from,
{
    if 0 <= from < s.len() && is_name_char(s[from]) {
        name_end(s, from + 1)
    } else {
        from
    }
}

/// The end of `s[floor..to]` without its trailing blanks.
pub open spec fn trim_end(s: Seq<char>, floor: int, to: int) -> int
    decreases to,
{
    if 0 <= floor < to <= s.len() && is_blank(s[to - 1]) {
        trim_end(s, floor, to - 1)
    } else {
        to
    }
}

/// `s` without the backslash of each `\<` and `\>`, read from position `from` on.
pub open spec fn unescape_angles_from(s: Seq<char>, from: int) -> Seq<char>
    decreases s.len() - from,
{
    if from < 0 || from >= s.len() {
        Seq::empty()
    } else if s[from] == '\\' && from + 1 < s.len() && (s[from + 1] == '<' || s[from + 1] == '>') {
        seq![s[from + 1]] + unescape_angles_from(s, from + 2)
    } else {
        seq![s[from]] + unescape_angles_from(s, from + 1)
    }
}

/// `s` without the backslash of each `\<` and `\>`.
pub open spec fn unescape_angles(s: Seq<char>) -> Seq<char> {
    unescape_angles_from(s, 0)
}

pub fn blank(c: char) -> (res: bool)
    ensures
        res == is_blank(c),
{
    c == ' ' || c == '\t' || c == '\r'
}

pub fn name_start(c: char) -> (res: bool)
    ensures
        res == is_name_start(c),
{
    c == '_' || ('a' <= c && c <= 'z') || ('A' <= c && c <= 'Z')
}

pub fn name_char(c: char) -> (res: bool)
    ensures
        res == is_name_char(c),
{
    name_start(c) || ('0' <= c && c <= '9')
}

pub proof fn lemma_name_end(s: Seq<char>, from: int)
    requires
        0 <= from <= s.len(),
    ensures
        from <= name_end(s, from) <= s.len(),
        forall|i: int| from <= i < name_end(s, from) ==> is_name_char(#[trigger] s[i]),
        name_end(s, from) < s.len() ==> !is_name_char(s[name_end(s, from)]),
    decreases s.len() - from,
{
    if from < s.len() && is_name_char(s[from]) {
        lemma_name_end(s, from + 1);
    }
}

/// The position after the blanks that start at `from`.
pub fn after_blanks(v: &Vec<char>, from: usize) -> (res: usize)
    requires
        from <= v.len(),
    ensures
        res == skip_blanks(v@, from as int),
        from <= res <= v.len(),
{
    let mut i: usize = from;
    while i < v.len() && blank(v[i])
        invariant
            from <= i <= v.len(),
            skip_blanks(v@, from as int) == skip_blanks(v@, i as int),
        decreases v.len() - i,
    {
        i += 1;
    }
    i
}

/// The position after the word that starts at `from`.
pub fn after_word(v: &Vec<char>, from: usize) -> (res: usize)
    requires
        from <= v.len(),
    ensures
        res == word_end(v@, from as int),
        from <= res <= v.len(),
{
    let mut i: usize = from;
    while i < v.len() && !blank(v[i])
        invariant
            from <= i <= v.len(),
            word_end(v@, from as int) == word_end(v@, i as int),
        decreases v.len() - i,
    {
        i += 1;
    }
    i
}

/// The position after the characters of a name that start at `from`.
pub fn after_name(v: &Vec<char>, from: usize) -> (res: usize)
    requires
        from <= v.len(),
    ensures
        res == name_end(v@, from as int),
        from <= res <= v.len(),
{
    let mut i: usize = from;
    while i < v.len() && name_char(v[i])
        invariant
            from <= i <= v.len(),
            name_end(v@, from as int) == name_end(v@, i as int),
        decreases v.len() - i,
    {
        i += 1;
    }
    i
}

/// The end of `v[floor..to]` without its trailing blanks.
pub fn before_blanks(v: &Vec<char>, floor: usize, to: usize) -> (res: usize)
    requires
        floor <= to <= v.len(),
    ensures
        res == trim_end(v@, floor as int, to as int),
        floor <= res <= to,
{
    let mut i: usize = to;
    while i > floor && blank(v[i - 1])
        invariant
            floor <= i <= to <= v.len(),
            trim_end(v@, floor as int, to as int) == trim_end(v@, floor as int, i as int),
        decreases i,
    {
        i -= 1;
    }
    i
}

/// Whether `v[from..to]` is a name.
pub fn name_in(v: &Vec<char>, from: usize, to: usize) -> (res: bool)
    requires
        from <= to <= v.len(),
    ensures
        res == is_name(v@.subrange(from as int, to as int)),
{
    let ghost s = v@.subrange(from as int, to as int);
    if from == to || !name_start(v[from]) {
        return false;
    }
    let mut i: usize = from;
    while i < to
        invariant
            from <= i <= to <= v.len(),
            s == v@.subrange(from as int, to as int),
            forall|j: int| 0 <= j < i - from ==> is_name_char(#[trigger] s[j]),
        decreases to - i,
    {
        if !name_char(v[i]) {
            assert(!is_name_char(s[i - from]));
            return false;
        }
        i += 1;
    }
    true
}

/// `v` without the backslash of each `\<` and `\>`.
pub fn without_angle_escapes(v: &Vec<char>) -> (res: Vec<char>)
    ensures
        res@ == unescape_angles(v@),
{
    let mut res: Vec<char> = Vec::new();
    let mut i: usize = 0;
    while i < v.len()
        invariant
            i <= v.len(),
            unescape_angles(v@) == res@ + unescape_angles_from(v@, i as int),
        decreases v.len() - i,
    {
        if v[i] == '\\' && i + 1 < v.len() && (v[i + 1] == '<' || v[i + 1] == '>') {
            res.push(v[i + 1]);
            i += 2;
        } else {
            res.push(v[i]);
            i += 1;
        }
    }
    res
}

/// Whether `v[from..]` starts with the characters of `word`.
pub fn starts_with_at(v: &Vec<char>, from: usize, word: &Vec<char>) -> (res: bool)
    requires
        from <= v.len(),
    ensures
        res == (from + word.len() <= v.len() && v@.subrange(from as int, from + word.len())
            == word@),
{
    if word.len() > v.len() - from {
        return false;
    }
    let mut i: usize = 0;
    while i < word.len()
        invariant
            i <= word.len(),
            from + word.len() <= v.len(),
            forall|j: int| 0 <= j < i ==> v@[from + j] == word@[j],
        decreases word.len() - i,
    {
        if v[from + i] != word[i] {
            return false;
        }
        i += 1;
    }
    assert(v@.subrange(from as int, from + word.len()) =~= word@);
    true
}

/// Whether `v[from..to]` holds the characters of `word`.
pub fn range_is(v: &Vec<char>, from: usize, to: usize, word: &str) -> (res: bool)
    requires
        from <= to <= v.len(),
    ensures
        res == (v@.subrange(from as int, to as int) == word@),
{
    let w = chars_of(word);
    if w.len() != to - from {
        return false;
    }
    starts_with_at(v, from, &w)
}

/// The first position at or after `from` at which `names` holds `name`.
pub open spec fn first_named(names: Seq<Seq<char>>, name: Seq<char>, from: int) -> Option<int>
    decreases names.len() - from,
{
    if from < 0 || from >= names.len() {
        None
    } else if names[from] == name {
        Some(from)
    } else {
        first_named(names, name, from + 1)
    }
}

pub proof fn lemma_first_named(names: Seq<Seq<char>>, name: Seq<char>, from: int)
    requires
        0 <= from,
    ensures
        match first_named(names, name, from) {
            Some(i) => from <= i < names.len() && names[i] == name,
            None => forall|i: int| from <= i < names.len() ==> names[i] != name,
        },
    decreases names.len() - from,
{
    if from < names.len() && names[from] != name {
        lemma_first_named(names, name, from + 1);
    }
}

} // verus!
