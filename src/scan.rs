use vstd::prelude::*;

use crate::token::{keyword_kind, keyword_lookup, punct_kind, punct_lookup, Token};

verus! {

/// Whether `c` has the Unicode `White_Space` property.
pub uninterp spec fn white_space(c: char) -> bool;

/// Relies on `char::is_whitespace`, which reports the Unicode `White_Space`
/// property of a single character.
#[verifier::external_body]
pub(crate) fn is_space(c: char) -> (r: bool)
    ensures
        r == white_space(c),
{
    c.is_whitespace()
}

/// The character classes that the scanner measures runs of.
#[derive(Clone, Copy, PartialEq, Eq, Structural)]
pub enum CharClass {
    /// `[_$a-zA-Z0-9]`
    Word,
    /// `[0-9_.]`
    Number,
    /// Unicode whitespace
    Space,
}

pub open spec fn is_word_start(c: char) -> bool {
    c == '_' || c == '$' || ('a' <= c && c <= 'z') || ('A' <= c && c <= 'Z')
}

pub open spec fn is_digit(c: char) -> bool {
    '0' <= c && c <= '9'
}

pub open spec fn in_class(c: char, cls: CharClass) -> bool {
    match cls {
        CharClass::Word => is_word_start(c) || is_digit(c),
        CharClass::Number => is_digit(c) || c == '_' || c == '.',
        CharClass::Space => white_space(c),
    }
}

/// Length of the longest run of `cls` characters starting at `p`.
pub open spec fn run_len(t: Seq<char>, p: int, cls: CharClass) -> int
    decreases t.len() - p,
{
    if 0 <= p < t.len() && in_class(t[p], cls) {
        1 + run_len(t, p + 1, cls)
    } else {
        0
    }
}

/// Length of the identifier that starts at `p` (0 if none does).
pub open spec fn word_len(t: Seq<char>, p: int) -> int {
    if 0 <= p < t.len() && is_word_start(t[p]) {
        1 + run_len(t, p + 1, CharClass::Word)
    } else {
        0
    }
}

/// Length of the line terminator (`\r\n` or `\n`) that starts at `p`.
pub open spec fn newline_len(t: Seq<char>, p: int) -> int {
    if 0 <= p && p + 1 < t.len() && t[p] == '\r' && t[p + 1] == '\n' {
        2
    } else if 0 <= p < t.len() && t[p] == '\n' {
        1
    } else {
        0
    }
}

/// The longest punctuator of at most `l` characters that starts at `p`.
pub open spec fn punct_len_upto(t: Seq<char>, p: int, l: int) -> int
    decreases l,
{
    if l <= 0 {
        0
    } else if 0 <= p && p + l <= t.len() && punct_kind(t.subrange(p, p + l)) is Some {
        l
    } else {
        punct_len_upto(t, p, l - 1)
    }
}

/// No punctuator is longer than four characters.
pub open spec fn punct_len(t: Seq<char>, p: int) -> int {
    punct_len_upto(t, p, 4)
}

pub open spec fn max2(a: int, b: int) -> int {
    if a >= b { a } else { b }
}

/// Maximal munch at `p`: the kind and length of the longest candidate; among
/// candidates of equal length a fixed spelling (punctuator, then reserved word)
/// wins, then a line terminator, a number, an identifier, and whitespace last.
/// Where nothing matches, one character is an invalid token.
pub open spec fn base_unit(t: Seq<char>, p: int) -> (Token, int) {
    let q = punct_len(t, p);
    let w = word_len(t, p);
    let l = newline_len(t, p);
    let n = run_len(t, p, CharClass::Number);
    let s = run_len(t, p, CharClass::Space);
    let m = max2(max2(max2(q, w), max2(l, n)), s);
    if m == 0 {
        (Token::InvalidToken, 1)
    } else if q == m {
        (punct_kind(t.subrange(p, p + q))->Some_0, q)
    } else if w == m && keyword_kind(t.subrange(p, p + w)) is Some {
        (keyword_kind(t.subrange(p, p + w))->Some_0, w)
    } else if l == m {
        (Token::LineTerminator, l)
    } else if n == m {
        (Token::NumericLiteral, n)
    } else if w == m {
        (Token::Identifier, w)
    } else {
        (Token::Whitespace, s)
    }
}

/// End of a quoted literal whose body starts at `k`: a backslash skips the
/// character after it, the closing `quote` is included, and an unterminated
/// literal runs to the end of the text.
pub open spec fn quoted_end(t: Seq<char>, k: int, quote: char) -> int
    decreases t.len() - k,
{
    if k < 0 || k >= t.len() {
        t.len() as int
    } else if t[k] == '\\' {
        if k + 1 >= t.len() {
            t.len() as int
        } else {
            quoted_end(t, k + 2, quote)
        }
    } else if t[k] == quote {
        k + 1
    } else {
        quoted_end(t, k + 1, quote)
    }
}

/// End of a line comment whose body starts at `k`: just before the next line
/// terminator, or the end of the text.
pub open spec fn line_comment_end(t: Seq<char>, k: int) -> int
    decreases t.len() - k,
{
    if k < 0 || k >= t.len() {
        t.len() as int
    } else if newline_len(t, k) > 0 {
        k
    } else {
        line_comment_end(t, k + 1)
    }
}

/// End of a block comment whose body starts at `k`: just after the closing
/// `*/`, where a backslash skips the character after it; an unterminated
/// comment runs to the end of the text.
pub open spec fn block_comment_end(t: Seq<char>, k: int) -> int
    decreases t.len() - k,
{
    if k < 0 || k >= t.len() {
        t.len() as int
    } else if t[k] == '\\' {
        if k + 1 >= t.len() {
            t.len() as int
        } else {
            block_comment_end(t, k + 2)
        }
    } else if t[k] == '*' && k + 1 < t.len() && t[k + 1] == '/' {
        k + 2
    } else {
        block_comment_end(t, k + 1)
    }
}

/// The lexical unit at `p`, after the rewrite rules: a quote extends to its
/// closing quote, and `/` followed by `/` or `*` becomes a comment.
/// Returns the kind and the end index.
pub open spec fn unit(t: Seq<char>, p: int) -> (Token, int) {
    let (k, len) = base_unit(t, p);
    let e = p + len;
    if k == Token::SingleQuote {
        (k, quoted_end(t, e, '\''))
    } else if k == Token::DoubleQuote {
        (k, quoted_end(t, e, '"'))
    } else if k == Token::Divide && e < t.len() && t[e] == '/' {
        (Token::Comment, line_comment_end(t, e + 1))
    } else if k == Token::Divide && e < t.len() && t[e] == '*' {
        (Token::Comment, block_comment_end(t, e + 1))
    } else {
        (k, e)
    }
}

pub proof fn lemma_run_len_bounds(t: Seq<char>, p: int, cls: CharClass)
    requires
        0 <= p <= t.len(),
    ensures
        0 <= run_len(t, p, cls) <= t.len() - p,
    decreases t.len() - p,
{
    if p < t.len() {
        lemma_run_len_bounds(t, p + 1, cls);
    }
}

pub proof fn lemma_punct_len_bounds(t: Seq<char>, p: int, l: int)
    requires
        0 <= p <= t.len(),
    ensures
        0 <= punct_len_upto(t, p, l) <= t.len() - p,
        punct_len_upto(t, p, l) > 0 ==> punct_kind(
            t.subrange(p, p + punct_len_upto(t, p, l)),
        ) is Some,
    decreases l,
{
    if l > 0 {
        lemma_punct_len_bounds(t, p, l - 1);
    }
}

pub proof fn lemma_quoted_end_bounds(t: Seq<char>, k: int, quote: char)
    requires
        0 <= k,
    ensures
        k <= t.len() ==> k <= quoted_end(t, k, quote),
        quoted_end(t, k, quote) <= t.len(),
    decreases t.len() - k,
{
    if k < t.len() {
        if t[k] == '\\' && k + 1 < t.len() {
            lemma_quoted_end_bounds(t, k + 2, quote);
        } else if t[k] != '\\' && t[k] != quote {
            lemma_quoted_end_bounds(t, k + 1, quote);
        }
    }
}

pub proof fn lemma_line_comment_end_bounds(t: Seq<char>, k: int)
    requires
        0 <= k,
    ensures
        k <= t.len() ==> k <= line_comment_end(t, k),
        line_comment_end(t, k) <= t.len(),
    decreases t.len() - k,
{
    if k < t.len() && newline_len(t, k) == 0 {
        lemma_line_comment_end_bounds(t, k + 1);
    }
}

pub proof fn lemma_block_comment_end_bounds(t: Seq<char>, k: int)
    requires
        0 <= k,
    ensures
        k <= t.len() ==> k <= block_comment_end(t, k),
        block_comment_end(t, k) <= t.len(),
    decreases t.len() - k,
{
    if k < t.len() {
        if t[k] == '\\' && k + 1 < t.len() {
            lemma_block_comment_end_bounds(t, k + 2);
        } else if t[k] != '\\' && !(t[k] == '*' && k + 1 < t.len() && t[k + 1] == '/') {
            lemma_block_comment_end_bounds(t, k + 1);
        }
    }
}

/// A fixed spelling never classifies a unit as trivia or as a comment.
proof fn lemma_spelled_kinds(s: Seq<char>)
    ensures
        punct_kind(s) != Some(Token::LineTerminator),
        punct_kind(s) != Some(Token::Whitespace),
        keyword_kind(s) != Some(Token::LineTerminator),
        keyword_kind(s) != Some(Token::Whitespace),
{
}

/// A line terminator unit is exactly `\r\n` or `\n`, and a whitespace unit
/// is exactly a run of whitespace.
pub proof fn lemma_trivia_unit(t: Seq<char>, p: int)
    requires
        0 <= p < t.len(),
    ensures
        unit(t, p).0 == Token::LineTerminator ==> newline_len(t, p) > 0 && unit(t, p).1 == p
            + newline_len(t, p),
        unit(t, p).0 == Token::Whitespace ==> unit(t, p).1 == p + run_len(t, p, CharClass::Space),
{
    lemma_unit_bounds(t, p);
    lemma_run_len_bounds(t, p, CharClass::Number);
    lemma_run_len_bounds(t, p, CharClass::Space);
    lemma_run_len_bounds(t, p + 1, CharClass::Word);
    lemma_punct_len_bounds(t, p, 4);
    lemma_spelled_kinds(t.subrange(p, p + punct_len(t, p)));
    lemma_spelled_kinds(t.subrange(p, p + word_len(t, p)));
}

/// Every unit is at least one character long and ends inside the text.
pub proof fn lemma_unit_bounds(t: Seq<char>, p: int)
    requires
        0 <= p < t.len(),
    ensures
        0 < base_unit(t, p).1 <= t.len() - p,
        p < unit(t, p).1 <= t.len(),
{
    lemma_run_len_bounds(t, p, CharClass::Number);
    lemma_run_len_bounds(t, p, CharClass::Space);
    lemma_run_len_bounds(t, p + 1, CharClass::Word);
    lemma_punct_len_bounds(t, p, 4);
    let e = p + base_unit(t, p).1;
    assert(p < e <= t.len());
    lemma_quoted_end_bounds(t, e, '\'');
    lemma_quoted_end_bounds(t, e, '"');
    lemma_line_comment_end_bounds(t, e + 1);
    lemma_block_comment_end_bounds(t, e + 1);
}

/// Length of the run of `cls` characters at `p`.
fn measure_run(t: &Vec<char>, p: usize, cls: CharClass) -> (r: usize)
    requires
        p <= t@.len(),
    ensures
        r == run_len(t@, p as int, cls),
{
    let mut k: usize = p;
    while k < t.len()
        invariant
            p <= k <= t@.len(),
            run_len(t@, p as int, cls) == (k - p) + run_len(t@, k as int, cls),
        decreases t@.len() - k,
    {
        let c = t[k];
        let hit = match cls {
            CharClass::Word => (c == '_' || c == '$' || ('a' <= c && c <= 'z') || ('A' <= c
                && c <= 'Z') || ('0' <= c && c <= '9')),
            CharClass::Number => ('0' <= c && c <= '9') || c == '_' || c == '.',
            CharClass::Space => is_space(c),
        };
        if !hit {
            return k - p;
        }
        k = k + 1;
    }
    k - p
}

fn measure_word(t: &Vec<char>, p: usize) -> (r: usize)
    requires
        p < t@.len(),
    ensures
        r == word_len(t@, p as int),
{
    let size = t.len();
    assert(size == t@.len());
    let c = t[p];
    if c == '_' || c == '$' || ('a' <= c && c <= 'z') || ('A' <= c && c <= 'Z') {
        proof {
            lemma_run_len_bounds(t@, p + 1, CharClass::Word);
        }
        1 + measure_run(t, p + 1, CharClass::Word)
    } else {
        0
    }
}

fn measure_newline(t: &Vec<char>, p: usize) -> (r: usize)
    requires
        p < t@.len(),
    ensures
        r == newline_len(t@, p as int),
{
    let size = t.len();
    assert(size == t@.len());
    if p + 1 < t.len() && t[p] == '\r' && t[p + 1] == '\n' {
        2
    } else if t[p] == '\n' {
        1
    } else {
        0
    }
}

fn measure_punct(t: &Vec<char>, p: usize) -> (r: usize)
    requires
        p < t@.len(),
    ensures
        r == punct_len(t@, p as int),
{
    let mut l: usize = 4;
    while l > 0
        invariant
            l <= 4,
            p < t@.len(),
            punct_len(t@, p as int) == punct_len_upto(t@, p as int, l as int),
        decreases l,
    {
        if l <= t.len() - p && punct_lookup(t, p, p + l).is_some() {
            return l;
        }
        l = l - 1;
    }
    0
}

fn scan_base(t: &Vec<char>, p: usize) -> (r: (Token, usize))
    requires
        p < t@.len(),
    ensures
        r.0 == base_unit(t@, p as int).0,
        r.1 == base_unit(t@, p as int).1,
{
    let size = t.len();
    assert(size == t@.len());
    proof {
        lemma_run_len_bounds(t@, p as int, CharClass::Number);
        lemma_run_len_bounds(t@, p as int, CharClass::Space);
        lemma_run_len_bounds(t@, p + 1, CharClass::Word);
        lemma_punct_len_bounds(t@, p as int, 4);
    }
    let q = measure_punct(t, p);
    let w = measure_word(t, p);
    let l = measure_newline(t, p);
    let n = measure_run(t, p, CharClass::Number);
    let s = measure_run(t, p, CharClass::Space);
    let mut m = q;
    if w > m {
        m = w;
    }
    if l > m {
        m = l;
    }
    if n > m {
        m = n;
    }
    if s > m {
        m = s;
    }
    if m == 0 {
        return (Token::InvalidToken, 1);
    }
    if q == m {
        match punct_lookup(t, p, p + q) {
            Some(k) => {
                return (k, q);
            },
            None => {
                return (Token::InvalidToken, 1);
            },
        }
    }
    if w == m {
        match keyword_lookup(t, p, p + w) {
            Some(k) => {
                return (k, w);
            },
            None => {},
        }
    }
    if l == m {
        (Token::LineTerminator, l)
    } else if n == m {
        (Token::NumericLiteral, n)
    } else if w == m {
        (Token::Identifier, w)
    } else {
        (Token::Whitespace, s)
    }
}

fn scan_quoted(t: &Vec<char>, k0: usize, quote: char) -> (r: usize)
    requires
        k0 <= t@.len(),
    ensures
        r == quoted_end(t@, k0 as int, quote),
{
    let mut k: usize = k0;
    while k < t.len()
        invariant
            k <= t@.len(),
            quoted_end(t@, k0 as int, quote) == quoted_end(t@, k as int, quote),
        decreases t@.len() - k,
    {
        if t[k] == '\\' {
            if k + 1 >= t.len() {
                return t.len();
            }
            k = k + 2;
        } else if t[k] == quote {
            return k + 1;
        } else {
            k = k + 1;
        }
    }
    t.len()
}

fn scan_line_comment(t: &Vec<char>, k0: usize) -> (r: usize)
    requires
        k0 <= t@.len(),
    ensures
        r == line_comment_end(t@, k0 as int),
{
    let mut k: usize = k0;
    while k < t.len()
        invariant
            k <= t@.len(),
            line_comment_end(t@, k0 as int) == line_comment_end(t@, k as int),
        decreases t@.len() - k,
    {
        if measure_newline(t, k) > 0 {
            return k;
        }
        k = k + 1;
    }
    t.len()
}

fn scan_block_comment(t: &Vec<char>, k0: usize) -> (r: usize)
    requires
        k0 <= t@.len(),
    ensures
        r == block_comment_end(t@, k0 as int),
{
    let mut k: usize = k0;
    while k < t.len()
        invariant
            k <= t@.len(),
            block_comment_end(t@, k0 as int) == block_comment_end(t@, k as int),
        decreases t@.len() - k,
    {
        if t[k] == '\\' {
            if k + 1 >= t.len() {
                return t.len();
            }
            k = k + 2;
        } else if t[k] == '*' && k + 1 < t.len() && t[k + 1] == '/' {
            return k + 2;
        } else {
            k = k + 1;
        }
    }
    t.len()
}

/// The unit at `p`: its kind and the index just past it.
pub(crate) fn scan_unit(t: &Vec<char>, p: usize) -> (r: (Token, usize))
    requires
        p < t@.len(),
    ensures
        r.0 == unit(t@, p as int).0,
        r.1 == unit(t@, p as int).1,
        p < r.1 <= t@.len(),
{
    let size = t.len();
    assert(size == t@.len());
    proof {
        lemma_unit_bounds(t@, p as int);
    }
    let (k, len) = scan_base(t, p);
    let e = p + len;
    if k == Token::SingleQuote {
        (k, scan_quoted(t, e, '\''))
    } else if k == Token::DoubleQuote {
        (k, scan_quoted(t, e, '"'))
    } else if k == Token::Divide && e < t.len() && t[e] == '/' {
        (Token::Comment, scan_line_comment(t, e + 1))
    } else if k == Token::Divide && e < t.len() && t[e] == '*' {
        (Token::Comment, scan_block_comment(t, e + 1))
    } else {
        (k, e)
    }
}

} // verus!
