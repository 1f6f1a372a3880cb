use vstd::prelude::*;

use crate::lexer::{lex, tokenize, views, LexerToken, Pos, Range, Span};
use crate::token::Token;

verus! {

/// Why a search could not be made.
#[derive(Debug, Clone, Copy, PartialEq, Eq, Structural)]
pub enum PatternError {
    /// The pattern holds no token.
    EmptyPattern,
}

/// A range as plain numbers.
pub struct Extent {
    pub start: Pos,
    pub end: Pos,
}

impl View for Range {
    type V = Extent;

    open spec fn view(&self) -> Extent {
        Extent { start: self.start@, end: self.end@ }
    }
}

pub open spec fn extents(rs: Seq<Range>) -> Seq<Extent> {
    rs.map_values(|x: Range| x@)
}

/// Two tokens agree when they have the same text and the same kind.
pub open spec fn same(a: Span, b: Span) -> bool {
    a.text == b.text && a.kind == b.kind
}

/// Walks back from document token `i` and pattern token `j`: comments of the
/// document are passed over, every other document token must agree with the
/// current pattern token. Gives the index of the document token that agreed
/// with the first pattern token, or `None` where the walk fails.
pub open spec fn match_back(doc: Seq<Span>, i: int, pat: Seq<Span>, j: int) -> Option<int>
    decreases i + 1,
{
    if i < 0 || i >= doc.len() || j < 0 || j >= pat.len() {
        None
    } else if doc[i].kind == Token::Comment {
        match_back(doc, i - 1, pat, j)
    } else if same(doc[i], pat[j]) {
        if j == 0 {
            Some(i)
        } else {
            match_back(doc, i - 1, pat, j - 1)
        }
    } else {
        None
    }
}

/// The range of the match whose last token is document token `a`, if any:
/// from the start of the token that agreed with the first pattern token to
/// the end of the anchor.
pub open spec fn match_at(doc: Seq<Span>, pat: Seq<Span>, a: int) -> Option<Extent> {
    if pat.len() > 0 && 0 <= a < doc.len() && same(doc[a], pat.last()) {
        match match_back(doc, a, pat, pat.len() - 1) {
            Some(s) => Some(Extent { start: doc[s].start, end: doc[a].end }),
            None => None,
        }
    } else {
        None
    }
}

/// The matches whose anchors lie among the first `n` document tokens, in
/// the order of their anchors.
pub open spec fn matches_upto(doc: Seq<Span>, pat: Seq<Span>, n: int) -> Seq<Extent>
    decreases n,
{
    if n <= 0 {
        seq![]
    } else {
        match match_at(doc, pat, n - 1) {
            Some(x) => matches_upto(doc, pat, n - 1).push(x),
            None => matches_upto(doc, pat, n - 1),
        }
    }
}

pub open spec fn all_matches(doc: Seq<Span>, pat: Seq<Span>) -> Seq<Extent> {
    matches_upto(doc, pat, doc.len() as int)
}

/// `s` without its comment tokens.
pub open spec fn strip_comments(s: Seq<Span>) -> Seq<Span>
    decreases s.len(),
{
    if s.len() == 0 {
        seq![]
    } else if s.last().kind == Token::Comment {
        strip_comments(s.drop_last())
    } else {
        strip_comments(s.drop_last()).push(s.last())
    }
}

/// `a` and `b` agree token for token.
pub open spec fn agree_all(a: Seq<Span>, b: Seq<Span>) -> bool {
    a.len() == b.len() && forall|i: int| 0 <= i < a.len() ==> same(#[trigger] a[i], b[i])
}

proof fn lemma_match_back_agrees(doc: Seq<Span>, i: int, pat: Seq<Span>, j: int, s: int)
    requires
        match_back(doc, i, pat, j) == Some(s),
    ensures
        0 <= s <= i < doc.len(),
        j < pat.len(),
        doc[s].kind != Token::Comment,
        agree_all(strip_comments(doc.subrange(s, i + 1)), pat.subrange(0, j + 1)),
    decreases i + 1,
{
    let w = doc.subrange(s, i + 1);
    if doc[i].kind == Token::Comment {
        lemma_match_back_agrees(doc, i - 1, pat, j, s);
        assert(w.drop_last() =~= doc.subrange(s, i));
    } else if j == 0 {
        assert(s == i);
        assert(w.drop_last() =~= Seq::<Span>::empty());
        assert(w.last() == doc[i]);
        assert(strip_comments(w.drop_last()) =~= Seq::<Span>::empty());
        assert(strip_comments(w) =~= seq![doc[i]]);
        assert(pat.subrange(0, 1) =~= seq![pat[0]]);
    } else {
        lemma_match_back_agrees(doc, i - 1, pat, j - 1, s);
        assert(w.drop_last() =~= doc.subrange(s, i));
        let a = strip_comments(doc.subrange(s, i));
        assert(strip_comments(w) == a.push(doc[i]));
        assert(pat.subrange(0, j + 1) =~= pat.subrange(0, j).push(pat[j]));
        assert forall|k: int| 0 <= k < a.len() + 1 implies same(
            #[trigger] a.push(doc[i])[k],
            pat.subrange(0, j + 1)[k],
        ) by {
            if k < a.len() {
                assert(same(a[k], pat.subrange(0, j)[k]));
            }
        }
    }
}

proof fn lemma_matches_upto_anchor(doc: Seq<Span>, pat: Seq<Span>, n: int, x: Extent)
    requires
        matches_upto(doc, pat, n).contains(x),
    ensures
        exists|a: int| 0 <= a < n && match_at(doc, pat, a) == Some(x),
    decreases n,
{
    if n > 0 {
        let prev = matches_upto(doc, pat, n - 1);
        match match_at(doc, pat, n - 1) {
            Some(y) => {
                if y == x {
                    assert(match_at(doc, pat, n - 1) == Some(x));
                } else {
                    let k = choose|k: int| 0 <= k < prev.push(y).len() && prev.push(y)[k] == x;
                    assert(prev[k] == x);
                    lemma_matches_upto_anchor(doc, pat, n - 1, x);
                }
            },
            None => {
                lemma_matches_upto_anchor(doc, pat, n - 1, x);
            },
        }
    }
}

/// Match validity: every reported range runs from the start of a document
/// token `s` to the end of a document token `a` that agrees with the last
/// pattern token, and the document tokens `s..=a` with their comments left
/// out agree, token for token, with the pattern.
pub proof fn lemma_match_validity(doc: Seq<Span>, pat: Seq<Span>, x: Extent)
    requires
        all_matches(doc, pat).contains(x),
    ensures
        exists|s: int, a: int|
            0 <= s <= a < doc.len() && x == (Extent { start: doc[s].start, end: doc[a].end })
                && same(doc[a], pat.last()) && agree_all(
                strip_comments(#[trigger] doc.subrange(s, a + 1)),
                pat,
            ),
{
    lemma_matches_upto_anchor(doc, pat, doc.len() as int, x);
    let a = choose|a: int| 0 <= a < doc.len() && match_at(doc, pat, a) == Some(x);
    let s = match_back(doc, a, pat, pat.len() - 1)->Some_0;
    lemma_match_back_agrees(doc, a, pat, pat.len() - 1, s);
    assert(pat.subrange(0, pat.len() as int) =~= pat);
    assert(doc.subrange(s, a + 1) == doc.subrange(s, a + 1));
}

/// Searching is repeatable: two results of `find_ranges` on the same
/// document and pattern are the same.
pub proof fn lemma_find_repeatable(
    input: Seq<char>,
    pattern: Seq<char>,
    first: Result<Vec<Range>, PatternError>,
    second: Result<Vec<Range>, PatternError>,
)
    requires
        tokenize(pattern).len() == 0 <==> first is Err,
        first is Ok ==> extents(first->Ok_0@) == all_matches(tokenize(input), tokenize(pattern)),
        tokenize(pattern).len() == 0 <==> second is Err,
        second is Ok ==> extents(second->Ok_0@) == all_matches(tokenize(input), tokenize(pattern)),
    ensures
        first is Ok <==> second is Ok,
        first is Ok ==> extents(first->Ok_0@) == extents(second->Ok_0@),
{
}

fn agree(a: &LexerToken, b: &LexerToken) -> (r: bool)
    ensures
        r == same(a@, b@),
{
    a.kind == b.kind && a.value == b.value
}

/// The walk back from anchor `a`.
fn walk_back(doc: &Vec<LexerToken>, pat: &Vec<LexerToken>, a: usize) -> (r: Option<usize>)
    requires
        a < doc@.len(),
        pat@.len() > 0,
    ensures
        r is None <==> match_back(views(doc@), a as int, views(pat@), pat@.len() - 1) is None,
        r matches Some(s) ==> match_back(views(doc@), a as int, views(pat@), pat@.len() - 1)
            == Some(s as int),
        r matches Some(s) ==> s <= a,
{
    let size = doc.len();
    let ghost d = views(doc@);
    let ghost q = views(pat@);
    let ghost goal = match_back(d, a as int, q, pat@.len() - 1);
    let mut i: usize = a + 1;
    let mut j: usize = pat.len();
    while i > 0
        invariant
            i <= a + 1,
            a < doc@.len(),
            1 <= j <= pat@.len(),
            d == views(doc@),
            q == views(pat@),
            goal == match_back(d, i - 1, q, j - 1),
            goal == match_back(d, a as int, q, pat@.len() - 1),
            size == doc@.len(),
        decreases i,
    {
        let cur = &doc[i - 1];
        assert(d[i - 1] == cur@);
        assert(q[j - 1] == pat@[j - 1]@);
        if cur.kind == Token::Comment {
            i = i - 1;
        } else if agree(cur, &pat[j - 1]) {
            if j == 1 {
                assert(match_back(d, i - 1, q, 0) == Some((i - 1) as int));
                return Some(i - 1);
            }
            i = i - 1;
            j = j - 1;
        } else {
            assert(match_back(d, i - 1, q, j - 1) is None);
            return None;
        }
    }
    assert(match_back(d, -1, q, j - 1) is None);
    None
}

/// Every place where `pattern` recurs in `document`, comments of the
/// document passed over, in the order of the places' last tokens.
/// Bracket nesting inside a match is not checked.
pub fn find(document: &Vec<LexerToken>, pattern: &Vec<LexerToken>) -> (r: Result<
    Vec<Range>,
    PatternError,
>)
    ensures
        pattern@.len() == 0 <==> r is Err,
        r is Ok ==> extents(r->Ok_0@) == all_matches(views(document@), views(pattern@)),
{
    if pattern.len() == 0 {
        return Err(PatternError::EmptyPattern);
    }
    let ghost d = views(document@);
    let ghost q = views(pattern@);
    let last = &pattern[pattern.len() - 1];
    assert(q.last() == last@);
    let mut found: Vec<Range> = Vec::new();
    let mut a: usize = 0;
    while a < document.len()
        invariant
            a <= document@.len(),
            pattern@.len() > 0,
            d == views(document@),
            q == views(pattern@),
            q.last() == last@,
            extents(found@) == matches_upto(d, q, a as int),
        decreases document@.len() - a,
    {
        assert(d[a as int] == document@[a as int]@);
        if agree(&document[a], last) {
            match walk_back(document, pattern, a) {
                Some(s) => {
                    let x = Range { start: document[s].range.start, end: document[a].range.end };
                    assert(d[s as int] == document@[s as int]@);
                    assert(extents(found@.push(x)) =~= extents(found@).push(x@));
                    found.push(x);
                },
                None => {},
            }
        }
        a = a + 1;
    }
    Ok(found)
}

/// Tokenizes `input` and `pattern` and finds every place where the pattern
/// recurs in the input. An empty pattern (no token once trailing
/// whitespace is removed) is an error.
pub fn find_ranges(input: &str, pattern: &str) -> (r: Result<Vec<Range>, PatternError>)
    requires
        input@.len() < usize::MAX,
        pattern@.len() < usize::MAX,
    ensures
        tokenize(pattern@).len() == 0 <==> r is Err,
        r is Ok ==> extents(r->Ok_0@) == all_matches(tokenize(input@), tokenize(pattern@)),
{
    let wanted = lex(pattern);
    let document = lex(input);
    proof {
        assert(views(wanted@).len() == wanted@.len());
    }
    find(&document, &wanted)
}

} // verus!
