use js_lexer::{lex, LexerToken, Loc, Token};

fn texts(ts: &[LexerToken]) -> Vec<String> {
    ts.iter().map(|t| t.value.clone()).collect()
}

fn kinds(ts: &[LexerToken]) -> Vec<Token> {
    ts.iter().map(|t| t.kind).collect()
}

fn loc(offset: usize, line: usize, col: usize) -> Loc {
    Loc { offset, line, col }
}

#[test]
fn declaration_tokens() {
    let ts = lex("const x = 1;");
    assert_eq!(texts(&ts), vec!["const", "x", "=", "1", ";"]);
    assert_eq!(
        kinds(&ts),
        vec![
            Token::ConstKeyword,
            Token::Identifier,
            Token::Assign,
            Token::NumericLiteral,
            Token::Semicolon
        ]
    );
    assert_eq!(ts[0].range.start, loc(0, 1, 1));
    assert_eq!(ts[0].range.end, loc(5, 1, 6));
    assert_eq!(ts[4].range.start, loc(11, 1, 12));
    assert_eq!(ts[4].range.end, loc(12, 1, 13));
}

#[test]
fn line_comment_then_next_line() {
    let ts = lex("// c\nlet y");
    assert_eq!(texts(&ts), vec!["// c", "let", "y"]);
    assert_eq!(kinds(&ts), vec![Token::Comment, Token::LetKeyword, Token::Identifier]);
    assert_eq!(ts[1].range.start, loc(5, 2, 1));
    assert_eq!(ts[2].range.start, loc(9, 2, 5));
}

#[test]
fn escaped_quote_stays_in_literal() {
    let ts = lex("'a\\'b'");
    assert_eq!(ts.len(), 1);
    assert_eq!(ts[0].kind, Token::SingleQuote);
    assert_eq!(ts[0].value, "'a\\'b'");
    assert_eq!(ts[0].range.end, loc(6, 1, 7));
}

#[test]
fn double_quoted_literal() {
    let ts = lex("x = \"a b\" + y");
    assert_eq!(texts(&ts), vec!["x", "=", "\"a b\"", "+", "y"]);
    assert_eq!(ts[2].kind, Token::DoubleQuote);
}

#[test]
fn unterminated_literal_runs_to_end() {
    let ts = lex("f('abc");
    assert_eq!(texts(&ts), vec!["f", "(", "'abc"]);
    assert_eq!(ts[2].kind, Token::SingleQuote);
}

#[test]
fn block_comment_with_escape() {
    let ts = lex("a /* x \\*/ y */ b");
    assert_eq!(texts(&ts), vec!["a", "/* x \\*/ y */", "b"]);
    assert_eq!(ts[1].kind, Token::Comment);
}

#[test]
fn unterminated_block_comment() {
    let ts = lex("a /* b");
    assert_eq!(texts(&ts), vec!["a", "/* b"]);
    assert_eq!(ts[1].kind, Token::Comment);
}

#[test]
fn line_comment_stops_before_crlf() {
    let ts = lex("// x\r\ny");
    assert_eq!(texts(&ts), vec!["// x", "y"]);
    assert_eq!(ts[1].range.start, loc(6, 2, 1));
}

#[test]
fn longest_punctuator_wins() {
    let ts = lex("a >>>= b ... c?.d");
    assert_eq!(
        kinds(&ts),
        vec![
            Token::Identifier,
            Token::LogicalShiftRightAssign,
            Token::Identifier,
            Token::Ellipsis,
            Token::Identifier,
            Token::QuestionMarkPeriod,
            Token::Identifier
        ]
    );
}

#[test]
fn period_and_numbers() {
    let ts = lex("a.b 1.5 .");
    assert_eq!(texts(&ts), vec!["a", ".", "b", "1.5", "."]);
    assert_eq!(
        kinds(&ts),
        vec![
            Token::Identifier,
            Token::Period,
            Token::Identifier,
            Token::NumericLiteral,
            Token::Period
        ]
    );
}

#[test]
fn keyword_prefix_is_identifier() {
    let ts = lex("constant in instanceof");
    assert_eq!(
        kinds(&ts),
        vec![Token::Identifier, Token::InKeyword, Token::InstanceofKeyword]
    );
}

#[test]
fn divide_and_jsx_close() {
    let ts = lex("a / b </ c />");
    assert_eq!(
        kinds(&ts),
        vec![
            Token::Identifier,
            Token::Divide,
            Token::Identifier,
            Token::JSXClose,
            Token::Identifier,
            Token::JSXAutoClose
        ]
    );
}

#[test]
fn unknown_character_is_invalid() {
    let ts = lex("a ` b");
    assert_eq!(texts(&ts), vec!["a", "`", "b"]);
    assert_eq!(ts[1].kind, Token::InvalidToken);
}

#[test]
fn offsets_count_characters() {
    let ts = lex("é x");
    assert_eq!(texts(&ts), vec!["é", "x"]);
    assert_eq!(ts[0].kind, Token::InvalidToken);
    assert_eq!(ts[1].range.start, loc(2, 1, 3));
}

#[test]
fn trailing_whitespace_removed() {
    assert_eq!(lex("").len(), 0);
    assert_eq!(lex(" \n\t ").len(), 0);
    let ts = lex("  a  \n ");
    assert_eq!(texts(&ts), vec!["a"]);
    assert_eq!(ts[0].range.start, loc(2, 1, 3));
}

#[test]
fn reconstruction_from_spans() {
    let input = "let a = 'x';\n  b(/* c */ a) // d\nq";
    let chars: Vec<char> = input.chars().collect();
    let ts = lex(input);
    let mut prev = 0;
    for t in &ts {
        let start = t.range.start.offset;
        let end = t.range.end.offset;
        assert!(prev <= start && start < end);
        for c in &chars[prev..start] {
            assert!(c.is_whitespace());
        }
        let span: String = chars[start..end].iter().collect();
        assert_eq!(span, t.value);
        prev = end;
    }
    assert_eq!(prev, chars.len());
}

#[test]
fn positions_follow_line_terminators() {
    let ts = lex("a\nbb\r\n  c");
    assert_eq!(ts[0].range.start, loc(0, 1, 1));
    assert_eq!(ts[1].range.start, loc(2, 2, 1));
    assert_eq!(ts[1].range.end, loc(4, 2, 3));
    // `\r\n  ` is a longer match as whitespace than as a line terminator,
    // so it is one whitespace unit and the line does not advance.
    assert_eq!(ts[2].range.start, loc(8, 2, 7));
    let ts = lex("a\n\r\nc");
    assert_eq!(ts[1].range.start, loc(4, 1, 5));
    let ts = lex("a\nb\r\nc");
    assert_eq!(ts[2].range.start, loc(5, 3, 1));
}

#[test]
fn lexing_twice_gives_the_same_tokens() {
    let input = "if (a) { b += 1; } // done";
    let first = lex(input);
    let second = lex(input);
    assert_eq!(texts(&first), texts(&second));
    assert_eq!(kinds(&first), kinds(&second));
    for (x, y) in first.iter().zip(second.iter()) {
        assert_eq!(x.range, y.range);
    }
}
