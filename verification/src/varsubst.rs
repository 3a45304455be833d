//! References to values in the text of a rule: `$name`, `${name}`, and `$$`
//! for a dollar sign.

use crate::template::views;
use crate::text::{
    after_name, chars_of, is_name_start, lemma_name_end, name_end, name_start, string_of,
};
use vstd::prelude::*;

verus! {

/// A piece of the text of a rule.
#[derive(Debug, PartialEq)]
pub enum ParseChunk {
    /// `$$`, which stands for one dollar sign.
    DollarDollar,
    /// A reference to the value of this name.
    Variable(String),
    /// Text without a dollar sign.
    Text(String),
}

/// The mathematical content of a [`ParseChunk`].
pub enum ChunkView {
    DollarDollar,
    Variable(Seq<char>),
    Text(Seq<char>),
}

impl View for ParseChunk {
    type V = ChunkView;

    open spec fn view(&self) -> ChunkView {
        match self {
            ParseChunk::DollarDollar => ChunkView::DollarDollar,
            ParseChunk::Variable(n) => ChunkView::Variable(n@),
            ParseChunk::Text(t) => ChunkView::Text(t@),
        }
    }
}

/// The first position at or after `from` that holds a dollar sign; the length of `s` if none does.
pub open spec fn text_end(s: Seq<char>, from: int) -> int
    decreases s.len() - from,
{
    if 0 <= from < s.len() && s[from] != '$' {
        text_end(s, from + 1)
    } else {
        from
    }
}

/// `first` put before the chunks of `rest`, if there are any.
pub open spec fn chunk_then(first: ChunkView, rest: Result<Seq<ChunkView>, int>) -> Result<
    Seq<ChunkView>,
    int,
> {
    match rest {
        Ok(chunks) => Ok(seq![first] + chunks),
        Err(position) => Err(position),
    }
}

/// The chunks of `s` from position `pos` on; or the position of the first dollar
/// sign that starts neither `$$`, `$name` nor `${name}`. A text chunk runs up to
/// the next dollar sign, and a name as far as its characters go.
pub open spec fn chunks_from(s: Seq<char>, pos: int) -> Result<Seq<ChunkView>, int>
    decreases s.len() - pos,
    via chunks_from_decreases
{
    if pos < 0 || pos >= s.len() {
        Ok(Seq::empty())
    } else if s[pos] != '$' {
        chunk_then(
            ChunkView::Text(s.subrange(pos, text_end(s, pos + 1))),
            chunks_from(s, text_end(s, pos + 1)),
        )
    } else if pos + 1 < s.len() && s[pos + 1] == '$' {
        chunk_then(ChunkView::DollarDollar, chunks_from(s, pos + 2))
    } else if pos + 1 < s.len() && is_name_start(s[pos + 1]) {
        chunk_then(
            ChunkView::Variable(s.subrange(pos + 1, name_end(s, pos + 2))),
            chunks_from(s, name_end(s, pos + 2)),
        )
    } else if pos + 2 < s.len() && s[pos + 1] == '{' && is_name_start(s[pos + 2]) && name_end(
        s,
        pos + 3,
    ) < s.len() && s[name_end(s, pos + 3)] == '}' {
        chunk_then(
            ChunkView::Variable(s.subrange(pos + 2, name_end(s, pos + 3))),
            chunks_from(s, name_end(s, pos + 3) + 1),
        )
    } else {
        Err(pos)
    }
}

#[via_fn]
proof fn chunks_from_decreases(s: Seq<char>, pos: int) {
    if 0 <= pos < s.len() {
        lemma_text_end(s, pos + 1);
        if pos + 1 < s.len() {
            lemma_name_end(s, pos + 2);
        }
    }
}

/// The chunks of the text of a rule.
pub open spec fn chunks_of(s: Seq<char>) -> Result<Seq<ChunkView>, int> {
    chunks_from(s, 0)
}

/// The chunks `done`, followed by those of `rest`.
pub open spec fn chunks_after(done: Seq<ChunkView>, rest: Result<Seq<ChunkView>, int>) -> Result<
    Seq<ChunkView>,
    int,
> {
    match rest {
        Ok(chunks) => Ok(done + chunks),
        Err(position) => Err(position),
    }
}

proof fn lemma_text_end(s: Seq<char>, from: int)
    requires
        0 <= from <= s.len(),
    ensures
        from <= text_end(s, from) <= s.len(),
        forall|i: int| from <= i < text_end(s, from) ==> #[trigger] s[i] != '$',
        text_end(s, from) < s.len() ==> s[text_end(s, from)] == '$',
    decreases s.len() - from,
{
    if from < s.len() && s[from] != '$' {
        lemma_text_end(s, from + 1);
    }
}

/// The position after the text without a dollar sign that starts at `from`.
fn after_text(v: &Vec<char>, from: usize) -> (res: usize)
    requires
        from <= v.len(),
    ensures
        res == text_end(v@, from as int),
        from <= res <= v.len(),
{
    let mut i: usize = from;
    while i < v.len() && v[i] != '$'
        invariant
            from <= i <= v.len(),
            text_end(v@, from as int) == text_end(v@, i as int),
        decreases v.len() - i,
    {
        i += 1;
    }
    i
}

/// The reader of references to values.
#[derive(Debug, Clone, Copy, PartialEq, Eq)]
pub struct VariableParser;

impl VariableParser {
    /// Splits the text of a rule into its chunks. Fails with the position of the
    /// first dollar sign that starts neither `$$`, `$name` nor `${name}`.
    pub fn parse_dollar_string(input: &str) -> (res: Result<Vec<ParseChunk>, usize>)
        ensures
            match res {
                Ok(chunks) => chunks_of(input@) == Ok::<Seq<ChunkView>, int>(views(chunks@)),
                Err(position) => chunks_of(input@) == Err::<Seq<ChunkView>, int>(position as int),
            },
    {
        let v = chars_of(input);
        let ghost s = v@;
        let mut out: Vec<ParseChunk> = Vec::new();
        let mut pos: usize = 0;
        while pos < v.len()
            invariant
                pos <= v.len(),
                s == v@,
                s == input@,
                chunks_of(s) == chunks_after(views(out@), chunks_from(s, pos as int)),
            decreases v.len() - pos,
        {
            let ghost done = views(out@);
            let next: usize;
            let chunk: ParseChunk;
            if v[pos] != '$' {
                next = after_text(&v, pos + 1);
                chunk = ParseChunk::Text(string_of(&v, pos, next));
            } else if pos + 1 < v.len() && v[pos + 1] == '$' {
                next = pos + 2;
                chunk = ParseChunk::DollarDollar;
            } else if pos + 1 < v.len() && name_start(v[pos + 1]) {
                next = after_name(&v, pos + 2);
                chunk = ParseChunk::Variable(string_of(&v, pos + 1, next));
            } else if v.len() - pos > 2 && v[pos + 1] == '{' && name_start(v[pos + 2]) {
                let close = after_name(&v, pos + 3);
                if close < v.len() && v[close] == '}' {
                    next = close + 1;
                    chunk = ParseChunk::Variable(string_of(&v, pos + 2, close));
                } else {
                    return Err(pos);
                }
            } else {
                return Err(pos);
            }
            proof {
                assert(views(out@.push(chunk)) =~= done.push(chunk@));
                match chunks_from(s, next as int) {
                    Ok(rest) => {
                        assert(done.push(chunk@) + rest =~= done + (seq![chunk@] + rest));
                    },
                    Err(_) => {},
                }
            }
            out.push(chunk);
            pos = next;
        }
        Ok(out)
    }
}

} // verus!
