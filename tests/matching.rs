use js_lexer::{find, find_ranges, lex, Loc, PatternError, Range};

fn range(a: (usize, usize, usize), b: (usize, usize, usize)) -> Range {
    Range {
        start: Loc { offset: a.0, line: a.1, col: a.2 },
        end: Loc { offset: b.0, line: b.1, col: b.2 },
    }
}

#[test]
fn two_occurrences_in_order() {
    let rs = find_ranges("foo(a,b);bar(a,b);", "(a,b)").unwrap();
    assert_eq!(rs, vec![range((3, 1, 4), (8, 1, 9)), range((12, 1, 13), (17, 1, 18))]);
}

#[test]
fn comment_inside_match_is_skipped() {
    let rs = find_ranges("foo( /*c*/ a)", "foo(a)").unwrap();
    assert_eq!(rs, vec![range((0, 1, 1), (13, 1, 14))]);
}

#[test]
fn empty_pattern_is_an_error() {
    assert_eq!(find_ranges("foo(a)", ""), Err(PatternError::EmptyPattern));
    assert_eq!(find_ranges("foo(a)", "  \n "), Err(PatternError::EmptyPattern));
}

#[test]
fn no_match_gives_empty_list() {
    assert_eq!(find_ranges("foo(a)", "bar").unwrap(), vec![]);
    assert_eq!(find_ranges("", "bar").unwrap(), vec![]);
}

#[test]
fn kind_must_agree_too() {
    assert_eq!(find_ranges("'a' a", "a").unwrap(), vec![range((4, 1, 5), (5, 1, 6))]);
}

#[test]
fn overlapping_matches_are_all_reported() {
    let rs = find_ranges("a a a", "a a").unwrap();
    assert_eq!(rs, vec![range((0, 1, 1), (3, 1, 4)), range((2, 1, 3), (5, 1, 6))]);
}

#[test]
fn match_across_lines() {
    let rs = find_ranges("x;\nf(\ny)", "f(y)").unwrap();
    assert_eq!(rs, vec![range((3, 2, 1), (8, 3, 3))]);
}

#[test]
fn match_covers_pattern_tokens() {
    let doc = "call(x, /* note */ y); call(x,y)";
    let rs = find_ranges(doc, "call(x,y)").unwrap();
    assert_eq!(rs.len(), 2);
    let chars: Vec<char> = doc.chars().collect();
    for r in &rs {
        let text: String = chars[r.start.offset..r.end.offset].iter().collect();
        let inner: Vec<String> = lex(&text)
            .into_iter()
            .filter(|t| t.kind != js_lexer::Token::Comment)
            .map(|t| t.value)
            .collect();
        assert_eq!(inner, vec!["call", "(", "x", ",", "y", ")"]);
    }
}

#[test]
fn find_on_token_streams() {
    let doc = lex("f(1); f(2)");
    let pat = lex("f(2)");
    assert_eq!(find(&doc, &pat).unwrap(), vec![range((6, 1, 7), (10, 1, 11))]);
    assert_eq!(find(&doc, &Vec::new()), Err(PatternError::EmptyPattern));
}

#[test]
fn searching_twice_gives_the_same_ranges() {
    let a = find_ranges("g(h); g(h)", "g(h)");
    let b = find_ranges("g(h); g(h)", "g(h)");
    assert_eq!(a, b);
}
