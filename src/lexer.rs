use vstd::prelude::*;

use crate::scan::{
    is_space, lemma_trivia_unit, lemma_unit_bounds, run_len, scan_unit, unit, white_space, CharClass,
};
use crate::token::Token;

verus! {

/// A position in the text: `offset` counts characters from the start (from 0),
/// `line` and `col` count from 1.
#[derive(Debug, Clone, Copy, PartialEq, Eq, Structural)]
pub struct Loc {
    pub offset: usize,
    pub line: usize,
    pub col: usize,
}

/// The span from `start` up to, not including, `end`.
#[derive(Debug, Clone, Copy, PartialEq, Eq, Structural)]
pub struct Range {
    pub start: Loc,
    pub end: Loc,
}

/// A classified, positioned span of the source text.
#[derive(Debug, Clone)]
pub struct LexerToken {
    pub value: String,
    pub kind: Token,
    pub range: Range,
}

/// A position as plain numbers.
pub struct Pos {
    pub offset: int,
    pub line: int,
    pub col: int,
}

/// A token as plain values.
pub struct Span {
    pub text: Seq<char>,
    pub kind: Token,
    pub start: Pos,
    pub end: Pos,
}

impl View for Loc {
    type V = Pos;

    open spec fn view(&self) -> Pos {
        Pos { offset: self.offset as int, line: self.line as int, col: self.col as int }
    }
}

impl View for LexerToken {
    type V = Span;

    open spec fn view(&self) -> Span {
        Span { text: self.value@, kind: self.kind, start: self.range.start@, end: self.range.end@ }
    }
}

pub open spec fn views(ts: Seq<LexerToken>) -> Seq<Span> {
    ts.map_values(|x: LexerToken| x@)
}

/// `s` without its trailing whitespace.
pub open spec fn trim_end(s: Seq<char>) -> Seq<char>
    decreases s.len(),
{
    if s.len() > 0 && white_space(s.last()) {
        trim_end(s.drop_last())
    } else {
        s
    }
}

/// The tokens of `t` from index `p` on, where the unit at `p` stands at
/// `line` and `col`. A line terminator moves to the next line and resets the
/// column; whitespace only advances the column; every other unit is emitted.
pub open spec fn lex_from(t: Seq<char>, p: int, line: int, col: int) -> Seq<Span>
    decreases t.len() - p,
{
    if p < 0 || p >= t.len() {
        seq![]
    } else {
        let (k, e) = unit(t, p);
        if e <= p || e > t.len() {
            seq![]
        } else if k == Token::LineTerminator {
            lex_from(t, e, line + 1, 1)
        } else if k == Token::Whitespace {
            lex_from(t, e, line, col + (e - p))
        } else {
            seq![
                Span {
                    text: t.subrange(p, e),
                    kind: k,
                    start: Pos { offset: p, line, col },
                    end: Pos { offset: e, line, col: col + (e - p) },
                },
            ] + lex_from(t, e, line, col + (e - p))
        }
    }
}

/// The token stream of `input`: its trailing whitespace removed, then lexed
/// from the first line and column.
pub open spec fn tokenize(input: Seq<char>) -> Seq<Span> {
    lex_from(trim_end(input), 0, 1, 1)
}

/// `trim_end(s)` is a prefix of `s`, and what it leaves out is whitespace.
pub proof fn lemma_trim_end_prefix(s: Seq<char>)
    ensures
        trim_end(s).len() <= s.len(),
        trim_end(s) == s.subrange(0, trim_end(s).len() as int),
        forall|q: int| trim_end(s).len() <= q < s.len() ==> white_space(#[trigger] s[q]),
    decreases s.len(),
{
    if s.len() > 0 && white_space(s.last()) {
        lemma_trim_end_prefix(s.drop_last());
        assert(s.drop_last().subrange(0, trim_end(s).len() as int) =~= s.subrange(
            0,
            trim_end(s).len() as int,
        ));
        assert forall|q: int| trim_end(s).len() <= q < s.len() implies white_space(
            #[trigger] s[q],
        ) by {
            if q < s.len() - 1 {
                assert(s[q] == s.drop_last()[q]);
            }
        }
    } else {
        assert(s.subrange(0, s.len() as int) =~= s);
    }
}

/// A character that only ever stands in skipped trivia.
pub open spec fn is_trivia(c: char) -> bool {
    white_space(c) || c == '\r' || c == '\n'
}

/// Where the first token of `ts` starts, or the end of `t` if there is none.
pub open spec fn first_start(ts: Seq<Span>, t: Seq<char>) -> int {
    if ts.len() > 0 {
        ts[0].start.offset
    } else {
        t.len() as int
    }
}

/// The shape of a token stream over `t` from `p` on: each token is the text
/// between its offsets, tokens are non-empty and come in increasing,
/// non-overlapping order, and everything between them is trivia.
pub open spec fn well_placed(ts: Seq<Span>, t: Seq<char>, p: int) -> bool {
    &&& forall|k: int|
        0 <= k < ts.len() ==> p <= #[trigger] ts[k].start.offset < ts[k].end.offset <= t.len()
            && ts[k].text == t.subrange(ts[k].start.offset, ts[k].end.offset)
    &&& forall|k: int|
        0 <= k && k + 1 < ts.len() ==> #[trigger] ts[k].end.offset <= ts[k + 1].start.offset
    &&& forall|q: int| p <= q < first_start(ts, t) ==> is_trivia(#[trigger] t[q])
    &&& forall|k: int, q: int|
        #![trigger ts[k], t[q]]
        0 <= k && k + 1 < ts.len() && ts[k].end.offset <= q < ts[k + 1].start.offset
            ==> is_trivia(t[q])
    &&& ts.len() > 0 ==> forall|q: int| ts.last().end.offset <= q < t.len() ==> is_trivia(#[trigger] t[q])
}

proof fn lemma_space_run(t: Seq<char>, p: int, q: int)
    requires
        0 <= p <= q < p + run_len(t, p, CharClass::Space),
    ensures
        white_space(t[q]),
    decreases q - p,
{
    if q > p {
        lemma_space_run(t, p + 1, q);
    }
}

/// The characters of a skipped unit are trivia.
proof fn lemma_skipped_unit(t: Seq<char>, p: int, q: int)
    requires
        0 <= p < t.len(),
        unit(t, p).0 == Token::LineTerminator || unit(t, p).0 == Token::Whitespace,
        p <= q < unit(t, p).1,
    ensures
        is_trivia(t[q]),
{
    lemma_trivia_unit(t, p);
    if unit(t, p).0 == Token::Whitespace {
        lemma_space_run(t, p, q);
    }
}

proof fn lemma_placed_skip(t: Seq<char>, p: int, e: int, ts: Seq<Span>)
    requires
        0 <= p <= e,
        well_placed(ts, t, e),
        forall|q: int| p <= q < e ==> is_trivia(#[trigger] t[q]),
    ensures
        well_placed(ts, t, p),
{
    assert forall|q: int| p <= q < first_start(ts, t) implies is_trivia(#[trigger] t[q]) by {
        if q >= e {
        }
    }
}

#[verifier::rlimit(60)]
proof fn lemma_placed_cons(t: Seq<char>, p: int, e: int, tok: Span, rest: Seq<Span>)
    requires
        0 <= p < e <= t.len(),
        tok.start.offset == p,
        tok.end.offset == e,
        tok.text == t.subrange(p, e),
        well_placed(rest, t, e),
    ensures
        well_placed(seq![tok] + rest, t, p),
{
    let ts = seq![tok] + rest;
    assert forall|j: int| 0 <= j < rest.len() implies ts[j + 1] == rest[j] by {}
    assert(ts[0] == tok);
    assert forall|k: int| 0 <= k < ts.len() implies p <= #[trigger] ts[k].start.offset
        < ts[k].end.offset <= t.len() && ts[k].text == t.subrange(
        ts[k].start.offset,
        ts[k].end.offset,
    ) by {
        if k > 0 {
            assert(ts[k] == rest[k - 1]);
        }
    }
    assert forall|k: int| 0 <= k && k + 1 < ts.len() implies #[trigger] ts[k].end.offset
        <= ts[k + 1].start.offset by {
        assert(ts[k + 1] == rest[k]);
        if k > 0 {
            assert(ts[k] == rest[k - 1]);
        }
    }
    assert forall|k: int, q: int|
        #![trigger ts[k], t[q]]
        0 <= k && k + 1 < ts.len() && ts[k].end.offset <= q < ts[k + 1].start.offset implies is_trivia(
        t[q],
    ) by {
        assert(ts[k + 1] == rest[k]);
        if k > 0 {
            assert(ts[k] == rest[k - 1]);
            assert(rest[k - 1] == rest[k - 1]);
        }
    }
    if rest.len() > 0 {
        assert(ts.last() == rest.last());
    }
}

proof fn lemma_lex_from_placed(t: Seq<char>, p: int, line: int, col: int)
    requires
        0 <= p <= t.len(),
    ensures
        well_placed(lex_from(t, p, line, col), t, p),
    decreases t.len() - p,
{
    if p < t.len() {
        lemma_unit_bounds(t, p);
        let (k, e) = unit(t, p);
        if k == Token::LineTerminator {
            lemma_lex_from_placed(t, e, line + 1, 1);
            assert forall|q: int| p <= q < e implies is_trivia(#[trigger] t[q]) by {
                lemma_skipped_unit(t, p, q);
            }
            lemma_placed_skip(t, p, e, lex_from(t, e, line + 1, 1));
        } else {
            let c2 = col + (e - p);
            lemma_lex_from_placed(t, e, line, c2);
            if k == Token::Whitespace {
                assert forall|q: int| p <= q < e implies is_trivia(#[trigger] t[q]) by {
                    lemma_skipped_unit(t, p, q);
                }
                lemma_placed_skip(t, p, e, lex_from(t, e, line, c2));
            } else {
                let tok = Span {
                    text: t.subrange(p, e),
                    kind: k,
                    start: Pos { offset: p, line, col },
                    end: Pos { offset: e, line, col: c2 },
                };
                lemma_placed_cons(t, p, e, tok, lex_from(t, e, line, c2));
                assert(lex_from(t, p, line, col) == seq![tok] + lex_from(t, e, line, c2));
            }
        }
    }
}

/// Reconstruction: the lexed text is the input without its trailing
/// whitespace; every token is exactly the text between its offsets, and all
/// text outside the tokens (before the first, between two, after the last)
/// is whitespace or line terminators. So the tokens with the trivia between
/// them spell the input without its trailing whitespace.
pub proof fn lemma_reconstruction(input: Seq<char>)
    ensures
        ({
            let t = trim_end(input);
            let ts = tokenize(input);
            &&& t == input.subrange(0, t.len() as int)
            &&& forall|q: int| t.len() <= q < input.len() ==> white_space(#[trigger] input[q])
            &&& forall|k: int|
                0 <= k < ts.len() ==> #[trigger] ts[k].text == t.subrange(
                    ts[k].start.offset,
                    ts[k].end.offset,
                )
            &&& forall|q: int| 0 <= q < first_start(ts, t) ==> is_trivia(#[trigger] t[q])
            &&& forall|k: int, q: int|
                #![trigger ts[k], t[q]]
                0 <= k && k + 1 < ts.len() && ts[k].end.offset <= q < ts[k + 1].start.offset
                    ==> is_trivia(t[q])
            &&& ts.len() > 0 ==> forall|q: int|
                ts.last().end.offset <= q < t.len() ==> is_trivia(#[trigger] t[q])
        }),
{
    lemma_trim_end_prefix(input);
    lemma_lex_from_placed(trim_end(input), 0, 1, 1);
}

/// Order and non-overlap: every token is non-empty, lies inside the text,
/// and ends no later than the next one starts, so offsets strictly increase.
pub proof fn lemma_tokens_ordered(input: Seq<char>)
    ensures
        ({
            let ts = tokenize(input);
            &&& forall|k: int|
                0 <= k < ts.len() ==> 0 <= #[trigger] ts[k].start.offset < ts[k].end.offset
                    <= trim_end(input).len()
            &&& forall|k: int|
                0 <= k && k + 1 < ts.len() ==> #[trigger] ts[k].end.offset <= ts[k
                    + 1].start.offset
        }),
{
    lemma_lex_from_placed(trim_end(input), 0, 1, 1);
}

/// Line and column of offset `target`, recounted by walking the units of `t`
/// from `p` (standing at `line` and `col`): each line terminator starts a new
/// line at column 1, every other unit advances the column by its length.
pub open spec fn recount(t: Seq<char>, p: int, line: int, col: int, target: int) -> (int, int)
    decreases t.len() - p,
{
    if p < 0 || p >= target || p >= t.len() {
        (line, col)
    } else {
        let (k, e) = unit(t, p);
        if e <= p || e > t.len() {
            (line, col)
        } else if k == Token::LineTerminator {
            recount(t, e, line + 1, 1, target)
        } else {
            recount(t, e, line, col + (e - p), target)
        }
    }
}

pub open spec fn positions_agree(ts: Seq<Span>, t: Seq<char>, p: int, line: int, col: int) -> bool {
    forall|k: int|
        0 <= k < ts.len() ==> {
            &&& (#[trigger] ts[k].start.line, ts[k].start.col) == recount(
                t,
                p,
                line,
                col,
                ts[k].start.offset,
            )
            &&& ts[k].end.line == ts[k].start.line
            &&& ts[k].end.col == ts[k].start.col + (ts[k].end.offset - ts[k].start.offset)
        }
}

#[verifier::rlimit(40)]
proof fn lemma_lex_from_positions(t: Seq<char>, p: int, line: int, col: int)
    requires
        0 <= p <= t.len(),
    ensures
        positions_agree(lex_from(t, p, line, col), t, p, line, col),
    decreases t.len() - p,
{
    let ts = lex_from(t, p, line, col);
    if p < t.len() {
        lemma_unit_bounds(t, p);
        let (k, e) = unit(t, p);
        let (l2, c2) = if k == Token::LineTerminator {
            (line + 1, 1)
        } else {
            (line, col + (e - p))
        };
        let rest = lex_from(t, e, l2, c2);
        lemma_lex_from_positions(t, e, l2, c2);
        lemma_lex_from_placed(t, e, l2, c2);
        assert forall|j: int| 0 <= j < rest.len() implies recount(
            t,
            p,
            line,
            col,
            rest[j].start.offset,
        ) == recount(t, e, l2, c2, rest[j].start.offset) by {
            assert(e <= rest[j].start.offset);
        }
        if k == Token::LineTerminator || k == Token::Whitespace {
            assert(ts == rest);
        } else {
            assert(ts == seq![ts[0]] + rest);
            assert forall|kk: int| 0 <= kk < ts.len() implies {
                &&& (#[trigger] ts[kk].start.line, ts[kk].start.col) == recount(
                    t,
                    p,
                    line,
                    col,
                    ts[kk].start.offset,
                )
                &&& ts[kk].end.line == ts[kk].start.line
                &&& ts[kk].end.col == ts[kk].start.col + (ts[kk].end.offset - ts[kk].start.offset)
            } by {
                if kk > 0 {
                    assert(ts[kk] == rest[kk - 1]);
                }
            }
        }
    }
}

/// Position consistency: the line and column of every token's start are
/// what a recount from the start of the text gives for its offset, and a
/// token ends on the line it starts on, its length further along.
pub proof fn lemma_positions(input: Seq<char>)
    ensures
        ({
            let ts = tokenize(input);
            forall|k: int|
                0 <= k < ts.len() ==> {
                    &&& (#[trigger] ts[k].start.line, ts[k].start.col) == recount(
                        trim_end(input),
                        0,
                        1,
                        1,
                        ts[k].start.offset,
                    )
                    &&& ts[k].end.line == ts[k].start.line
                    &&& ts[k].end.col == ts[k].start.col + (ts[k].end.offset - ts[k].start.offset)
                }
        }),
{
    lemma_lex_from_positions(trim_end(input), 0, 1, 1);
}

/// Lexing is repeatable: two results of `lex` on the same input hold the
/// same tokens.
pub proof fn lemma_lex_repeatable(input: Seq<char>, first: Seq<LexerToken>, second: Seq<LexerToken>)
    requires
        views(first) == tokenize(input),
        views(second) == tokenize(input),
    ensures
        views(first) == views(second),
        first.len() == second.len(),
{
    assert(views(first).len() == first.len());
    assert(views(second).len() == second.len());
}

/// Splits `input` into tokens. Never fails: a character that starts no
/// token becomes an `InvalidToken`, and an unterminated literal or comment
/// runs to the end of the text.
pub fn lex(input: &str) -> (r: Vec<LexerToken>)
    requires
        input@.len() < usize::MAX,
    ensures
        views(r@) == tokenize(input@),
{
    let size = input.unicode_len();
    let mut t: Vec<char> = Vec::new();
    let mut i: usize = 0;
    while i < size
        invariant
            i <= size,
            size == input@.len(),
            t@ == input@.subrange(0, i as int),
        decreases size - i,
    {
        t.push(input.get_char(i));
        i = i + 1;
        assert(t@ =~= input@.subrange(0, i as int));
    }
    assert(t@ =~= input@);
    while t.len() > 0 && is_space(t[t.len() - 1])
        invariant
            trim_end(t@) == trim_end(input@),
            t@.len() <= input@.len(),
            t@ == input@.subrange(0, t@.len() as int),
        decreases t@.len(),
    {
        assert(t@.drop_last() =~= input@.subrange(0, t@.len() - 1));
        t.pop();
    }
    assert(trim_end(t@) == t@);
    let n = t.len();
    let mut tokens: Vec<LexerToken> = Vec::new();
    let mut p: usize = 0;
    let mut line: usize = 1;
    let mut col: usize = 1;
    assert(views(tokens@) + lex_from(t@, 0, 1, 1) =~= tokenize(input@));
    while p < n
        invariant
            n == t@.len(),
            t@ == trim_end(input@),
            n <= input@.len() < usize::MAX,
            t@ == input@.subrange(0, n as int),
            p <= n,
            1 <= line <= p + 1,
            1 <= col <= p + 1,
            views(tokens@) + lex_from(t@, p as int, line as int, col as int) == tokenize(input@),
        decreases n - p,
    {
        let (k, e) = scan_unit(&t, p);
        let ghost rest = lex_from(t@, e as int, line as int, col + (e - p));
        if k == Token::LineTerminator {
            line = line + 1;
            col = 1;
        } else if k == Token::Whitespace {
            col = col + (e - p);
        } else {
            let value = input.substring_char(p, e).to_owned();
            let end_col = col + (e - p);
            let tok = LexerToken {
                value,
                kind: k,
                range: Range {
                    start: Loc { offset: p, line, col },
                    end: Loc { offset: e, line, col: end_col },
                },
            };
            proof {
                assert(t@.subrange(p as int, e as int) =~= input@.subrange(p as int, e as int));
                assert(views(tokens@.push(tok)) =~= views(tokens@).push(tok@));
                assert(views(tokens@) + lex_from(t@, p as int, line as int, col as int) =~= views(
                    tokens@.push(tok),
                ) + rest);
            }
            tokens.push(tok);
            col = end_col;
        }
        p = e;
    }
    assert(views(tokens@) =~= views(tokens@) + lex_from(t@, p as int, line as int, col as int));
    tokens
}

} // verus!
