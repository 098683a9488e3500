use lexer::error::LexError;
use lexer::scanner::tokenize;
use lexer::span::Span;
use lexer::tokens::{Token, TokenKind};
use lexer::Lexer;

fn expect_token(lexer: &mut Lexer, expected: TokenKind) {
    let token = lexer.next_token().unwrap();
    assert_eq!(
        token.kind, expected,
        "Expected token: {:?}, but got: {:?}",
        expected, token.kind
    );
}

fn expect_token_at(lexer: &mut Lexer, expected: TokenKind, start: usize, end: usize) {
    let token = lexer.next_token().unwrap();
    assert_eq!(token, Token { kind: expected, pos: Span { start, end } });
}

fn ident(name: &str) -> TokenKind {
    TokenKind::Identifier(name.to_string())
}

#[test]
fn parse_val() {
    let input = "val x = 5";
    let mut lexer = Lexer::new(input.to_string());

    expect_token(&mut lexer, TokenKind::Val);
    expect_token(&mut lexer, TokenKind::Identifier("x".to_string()));
    expect_token(&mut lexer, TokenKind::Assign);
    expect_token(&mut lexer, TokenKind::IntLiteral(5));
    expect_token(&mut lexer, TokenKind::Eof);

    // Check that the lexer has reached the end of the input
    assert_eq!(lexer.position, input.len());
}

#[test]
fn parse_multiline() {
    let input = "val x = 5\nval y = 10";
    let mut lexer = Lexer::new(input.to_string());

    expect_token(&mut lexer, TokenKind::Val);
    expect_token(&mut lexer, TokenKind::Identifier("x".to_string()));
    expect_token(&mut lexer, TokenKind::Assign);
    expect_token(&mut lexer, TokenKind::IntLiteral(5));
    expect_token(&mut lexer, TokenKind::Val);
    expect_token(&mut lexer, TokenKind::Identifier("y".to_string()));
    expect_token(&mut lexer, TokenKind::Assign);
    expect_token(&mut lexer, TokenKind::IntLiteral(10));
    expect_token(&mut lexer, TokenKind::Eof);

    // Check that the lexer has reached the end of the input
    assert_eq!(lexer.position, input.len());
}

#[test]
fn parse_arithmetic_operators() {
    let input = "1 + 2 - 3 * 4 / 5 % 6";
    let mut lexer = Lexer::new(input.to_string());

    expect_token(&mut lexer, TokenKind::IntLiteral(1));
    expect_token(&mut lexer, TokenKind::Plus);
    expect_token(&mut lexer, TokenKind::IntLiteral(2));
    expect_token(&mut lexer, TokenKind::Minus);
    expect_token(&mut lexer, TokenKind::IntLiteral(3));
    expect_token(&mut lexer, TokenKind::Multiply);
    expect_token(&mut lexer, TokenKind::IntLiteral(4));
    expect_token(&mut lexer, TokenKind::Divide);
    expect_token(&mut lexer, TokenKind::IntLiteral(5));
    expect_token(&mut lexer, TokenKind::Modulus);
    expect_token(&mut lexer, TokenKind::IntLiteral(6));
    expect_token(&mut lexer, TokenKind::Eof);
}

#[test]
fn parse_comparison_operators() {
    let input = "a < b > c <= d >= e == f != g";
    let mut lexer = Lexer::new(input.to_string());

    expect_token(&mut lexer, TokenKind::Identifier("a".to_string()));
    expect_token(&mut lexer, TokenKind::LessThan);
    expect_token(&mut lexer, TokenKind::Identifier("b".to_string()));
    expect_token(&mut lexer, TokenKind::GreaterThan);
    expect_token(&mut lexer, TokenKind::Identifier("c".to_string()));
    expect_token(&mut lexer, TokenKind::LessThanOrEqual);
    expect_token(&mut lexer, TokenKind::Identifier("d".to_string()));
    expect_token(&mut lexer, TokenKind::GreaterThanOrEqual);
    expect_token(&mut lexer, TokenKind::Identifier("e".to_string()));
    expect_token(&mut lexer, TokenKind::Equals);
    expect_token(&mut lexer, TokenKind::Identifier("f".to_string()));
    expect_token(&mut lexer, TokenKind::NotEquals);
    expect_token(&mut lexer, TokenKind::Identifier("g".to_string()));
    expect_token(&mut lexer, TokenKind::Eof);
}

#[test]
fn parse_logical_operators() {
    let input = "a && b || !c";
    let mut lexer = Lexer::new(input.to_string());

    expect_token(&mut lexer, TokenKind::Identifier("a".to_string()));
    expect_token(&mut lexer, TokenKind::And);
    expect_token(&mut lexer, TokenKind::Identifier("b".to_string()));
    expect_token(&mut lexer, TokenKind::Or);
    expect_token(&mut lexer, TokenKind::Not);
    expect_token(&mut lexer, TokenKind::Identifier("c".to_string()));
    expect_token(&mut lexer, TokenKind::Eof);
}

#[test]
fn parse_brackets_and_delimiters() {
    let input = "( ) [ ] { } , :";
    let mut lexer = Lexer::new(input.to_string());

    expect_token(&mut lexer, TokenKind::LParen);
    expect_token(&mut lexer, TokenKind::RParen);
    expect_token(&mut lexer, TokenKind::LBracket);
    expect_token(&mut lexer, TokenKind::RBracket);
    expect_token(&mut lexer, TokenKind::LBrace);
    expect_token(&mut lexer, TokenKind::RBrace);
    expect_token(&mut lexer, TokenKind::Comma);
    expect_token(&mut lexer, TokenKind::Colon);
    expect_token(&mut lexer, TokenKind::Eof);
}

#[test]
fn parse_keywords() {
    let input = "val var fn";
    let mut lexer = Lexer::new(input.to_string());

    expect_token(&mut lexer, TokenKind::Val);
    expect_token(&mut lexer, TokenKind::Var);
    expect_token(&mut lexer, TokenKind::Fn);
    expect_token(&mut lexer, TokenKind::Eof);
}

#[test]
fn parse_identifiers() {
    let input = "abc x123 camelCase snake_case aB_1c_";
    let mut lexer = Lexer::new(input.to_string());

    expect_token(&mut lexer, TokenKind::Identifier("abc".to_string()));
    expect_token(&mut lexer, TokenKind::Identifier("x123".to_string()));
    expect_token(&mut lexer, TokenKind::Identifier("camelCase".to_string()));
    expect_token(&mut lexer, TokenKind::Identifier("snake_case".to_string()));
    expect_token(&mut lexer, TokenKind::Identifier("aB_1c_".to_string()));
    expect_token(&mut lexer, TokenKind::Eof);
}

#[test]
fn parse_function_declaration() {
    let input = "fn add(a: int, b: int): int { a + b }";
    let mut lexer = Lexer::new(input.to_string());

    expect_token(&mut lexer, TokenKind::Fn);
    expect_token(&mut lexer, TokenKind::Identifier("add".to_string()));
    expect_token(&mut lexer, TokenKind::LParen);
    expect_token(&mut lexer, TokenKind::Identifier("a".to_string()));
    expect_token(&mut lexer, TokenKind::Colon);
    expect_token(&mut lexer, TokenKind::Identifier("int".to_string()));
    expect_token(&mut lexer, TokenKind::Comma);
    expect_token(&mut lexer, TokenKind::Identifier("b".to_string()));
    expect_token(&mut lexer, TokenKind::Colon);
    expect_token(&mut lexer, TokenKind::Identifier("int".to_string()));
    expect_token(&mut lexer, TokenKind::RParen);
    expect_token(&mut lexer, TokenKind::Colon);
    expect_token(&mut lexer, TokenKind::Identifier("int".to_string()));
    expect_token(&mut lexer, TokenKind::LBrace);
    expect_token(&mut lexer, TokenKind::Identifier("a".to_string()));
    expect_token(&mut lexer, TokenKind::Plus);
    expect_token(&mut lexer, TokenKind::Identifier("b".to_string()));
    expect_token(&mut lexer, TokenKind::RBrace);
    expect_token(&mut lexer, TokenKind::Eof);
}

#[test]
fn parse_complex_expression() {
    let input = "val result = (a + b) * (c - d) / (e % f)";
    let mut lexer = Lexer::new(input.to_string());

    expect_token(&mut lexer, TokenKind::Val);
    expect_token(&mut lexer, TokenKind::Identifier("result".to_string()));
    expect_token(&mut lexer, TokenKind::Assign);
    expect_token(&mut lexer, TokenKind::LParen);
    expect_token(&mut lexer, TokenKind::Identifier("a".to_string()));
    expect_token(&mut lexer, TokenKind::Plus);
    expect_token(&mut lexer, TokenKind::Identifier("b".to_string()));
    expect_token(&mut lexer, TokenKind::RParen);
    expect_token(&mut lexer, TokenKind::Multiply);
    expect_token(&mut lexer, TokenKind::LParen);
    expect_token(&mut lexer, TokenKind::Identifier("c".to_string()));
    expect_token(&mut lexer, TokenKind::Minus);
    expect_token(&mut lexer, TokenKind::Identifier("d".to_string()));
    expect_token(&mut lexer, TokenKind::RParen);
    expect_token(&mut lexer, TokenKind::Divide);
    expect_token(&mut lexer, TokenKind::LParen);
    expect_token(&mut lexer, TokenKind::Identifier("e".to_string()));
    expect_token(&mut lexer, TokenKind::Modulus);
    expect_token(&mut lexer, TokenKind::Identifier("f".to_string()));
    expect_token(&mut lexer, TokenKind::RParen);
    expect_token(&mut lexer, TokenKind::Eof);
}

#[test]
fn parse_comments() {
    let input = "val x = 5 // This is a comment\nval y = 10";
    let mut lexer = Lexer::new(input.to_string());

    expect_token(&mut lexer, TokenKind::Val);
    expect_token(&mut lexer, TokenKind::Identifier("x".to_string()));
    expect_token(&mut lexer, TokenKind::Assign);
    expect_token(&mut lexer, TokenKind::IntLiteral(5));
    // Comment should be skipped
    expect_token(&mut lexer, TokenKind::Val);
    expect_token(&mut lexer, TokenKind::Identifier("y".to_string()));
    expect_token(&mut lexer, TokenKind::Assign);
    expect_token(&mut lexer, TokenKind::IntLiteral(10));
    expect_token(&mut lexer, TokenKind::Eof);
}

#[test]
fn parse_whitespace() {
    let input = "  val  x  =  5  ";
    let mut lexer = Lexer::new(input.to_string());

    expect_token(&mut lexer, TokenKind::Val);
    expect_token(&mut lexer, TokenKind::Identifier("x".to_string()));
    expect_token(&mut lexer, TokenKind::Assign);
    expect_token(&mut lexer, TokenKind::IntLiteral(5));
    expect_token(&mut lexer, TokenKind::Eof);

    // Even with extra whitespace, the lexer should correctly reach the end
    assert_eq!(lexer.position, input.len());
}

#[test]
fn empty_input_is_one_end_marker() {
    let mut lexer = Lexer::new(String::new());
    expect_token_at(&mut lexer, TokenKind::Eof, 0, 0);
    assert_eq!(lexer.position, 0);
    assert_eq!(
        tokenize(String::new()),
        Ok(vec![Token { kind: TokenKind::Eof, pos: Span { start: 0, end: 0 } }])
    );
}

#[test]
fn declaration_with_spans() {
    let mut lexer = Lexer::new("val x = 5".to_string());
    expect_token_at(&mut lexer, TokenKind::Val, 0, 3);
    expect_token_at(&mut lexer, ident("x"), 4, 5);
    expect_token_at(&mut lexer, TokenKind::Assign, 6, 7);
    expect_token_at(&mut lexer, TokenKind::IntLiteral(5), 8, 9);
    expect_token_at(&mut lexer, TokenKind::Eof, 9, 9);
}

#[test]
fn logical_operators_with_spans() {
    let tokens = tokenize("a && b || !c".to_string()).unwrap();
    let expected = vec![
        Token { kind: ident("a"), pos: Span { start: 0, end: 1 } },
        Token { kind: TokenKind::And, pos: Span { start: 2, end: 4 } },
        Token { kind: ident("b"), pos: Span { start: 5, end: 6 } },
        Token { kind: TokenKind::Or, pos: Span { start: 7, end: 9 } },
        Token { kind: TokenKind::Not, pos: Span { start: 10, end: 11 } },
        Token { kind: ident("c"), pos: Span { start: 11, end: 12 } },
        Token { kind: TokenKind::Eof, pos: Span { start: 12, end: 12 } },
    ];
    assert_eq!(tokens, expected);
}

#[test]
fn comment_is_discarded() {
    let tokens = tokenize("val x = 5 // comment\nval y = 10".to_string()).unwrap();
    let kinds: Vec<TokenKind> = tokens.iter().map(|t| t.kind.clone()).collect();
    assert_eq!(
        kinds,
        vec![
            TokenKind::Val,
            ident("x"),
            TokenKind::Assign,
            TokenKind::IntLiteral(5),
            TokenKind::Val,
            ident("y"),
            TokenKind::Assign,
            TokenKind::IntLiteral(10),
            TokenKind::Eof,
        ]
    );
    assert_eq!(tokens[4].pos, Span { start: 21, end: 24 });
    assert_eq!(tokens[7].pos, Span { start: 29, end: 31 });
    assert_eq!(tokens[8].pos, Span { start: 31, end: 31 });
}

#[test]
fn lone_ampersand_fails() {
    let mut lexer = Lexer::new("&".to_string());
    assert_eq!(lexer.next_token(), Err(LexError::UnexpectedCharacter('&', 0)));
    assert_eq!(lexer.position, 0);
    assert_eq!(tokenize("&".to_string()), Err(LexError::UnexpectedCharacter('&', 0)));
}

#[test]
fn lone_bar_fails() {
    let mut lexer = Lexer::new("a | b".to_string());
    expect_token_at(&mut lexer, ident("a"), 0, 1);
    assert_eq!(lexer.next_token(), Err(LexError::UnexpectedCharacter('|', 2)));
    assert_eq!(lexer.position, 2);
    // the same character is met again until the caller steps over it
    assert_eq!(lexer.next_token(), Err(LexError::UnexpectedCharacter('|', 2)));
    lexer.advance(1);
    expect_token_at(&mut lexer, ident("b"), 4, 5);
}

#[test]
fn ampersand_before_other_character_fails() {
    assert_eq!(tokenize("x &| y".to_string()), Err(LexError::UnexpectedCharacter('&', 2)));
    assert_eq!(tokenize("|&".to_string()), Err(LexError::UnexpectedCharacter('|', 0)));
}

#[test]
fn unknown_characters_fail() {
    assert_eq!(tokenize("#".to_string()), Err(LexError::UnexpectedCharacter('#', 0)));
    assert_eq!(tokenize("2 ^ 3".to_string()), Err(LexError::UnexpectedCharacter('^', 2)));
    assert_eq!(tokenize("_x".to_string()), Err(LexError::UnexpectedCharacter('_', 0)));
    assert_eq!(tokenize("a \u{e9}".to_string()), Err(LexError::UnexpectedCharacter('\u{e9}', 2)));
}

#[test]
fn adjacent_tokens_have_contiguous_spans() {
    let mut lexer = Lexer::new("1+2".to_string());
    expect_token_at(&mut lexer, TokenKind::IntLiteral(1), 0, 1);
    expect_token_at(&mut lexer, TokenKind::Plus, 1, 2);
    expect_token_at(&mut lexer, TokenKind::IntLiteral(2), 2, 3);
    expect_token_at(&mut lexer, TokenKind::Eof, 3, 3);
}

#[test]
fn end_marker_repeats() {
    let mut lexer = Lexer::new("x  ".to_string());
    expect_token_at(&mut lexer, ident("x"), 0, 1);
    expect_token_at(&mut lexer, TokenKind::Eof, 3, 3);
    expect_token_at(&mut lexer, TokenKind::Eof, 3, 3);
    expect_token_at(&mut lexer, TokenKind::Eof, 3, 3);
    assert_eq!(lexer.position, 3);
}

#[test]
fn same_text_gives_same_tokens() {
    let text = "fn f(a: int): int { a <= 10 && !b } // done";
    let first = tokenize(text.to_string());
    let second = tokenize(text.to_string());
    assert!(first.is_ok());
    assert_eq!(first, second);

    let mut one = Lexer::new(text.to_string());
    let mut stepwise = Vec::new();
    loop {
        let token = one.next_token().unwrap();
        let done = token.kind == TokenKind::Eof;
        stepwise.push(token);
        if done {
            break;
        }
    }
    assert_eq!(Ok(stepwise), first);

    let bad = "a = 1 $ 2";
    assert_eq!(tokenize(bad.to_string()), tokenize(bad.to_string()));
    assert_eq!(tokenize(bad.to_string()), Err(LexError::UnexpectedCharacter('$', 6)));
}

#[test]
fn fixed_tokens_render_as_their_source() {
    let symbols = [
        "val", "var", "fn", "(", ")", "[", "]", "{", "}", ",", ":", "=", "+", "-", "*", "/", "%",
        "==", "!=", "<", ">", "<=", ">=", "&&", "||", "!",
    ];
    for symbol in symbols {
        let mut lexer = Lexer::new(symbol.to_string());
        let token = lexer.next_token().unwrap();
        assert_ne!(token.kind, TokenKind::Eof);
        assert!(!matches!(token.kind, TokenKind::Identifier(_) | TokenKind::IntLiteral(_)));
        assert_eq!(token.kind.to_string(), symbol);
        assert_eq!(token.pos, Span { start: 0, end: symbol.len() });
        assert_eq!(lexer.next_token().unwrap().kind, TokenKind::Eof);
    }
}

#[test]
fn longer_operator_wins() {
    let tokens = tokenize("===!==<=<>=>".to_string()).unwrap();
    let kinds: Vec<TokenKind> = tokens.into_iter().map(|t| t.kind).collect();
    assert_eq!(
        kinds,
        vec![
            TokenKind::Equals,
            TokenKind::Assign,
            TokenKind::NotEquals,
            TokenKind::Assign,
            TokenKind::LessThanOrEqual,
            TokenKind::LessThan,
            TokenKind::GreaterThanOrEqual,
            TokenKind::GreaterThan,
            TokenKind::Eof,
        ]
    );
}

#[test]
fn undeclared_keywords_are_identifiers() {
    let tokens = tokenize("if elif else value fnx Val".to_string()).unwrap();
    let kinds: Vec<TokenKind> = tokens.into_iter().map(|t| t.kind).collect();
    assert_eq!(
        kinds,
        vec![
            ident("if"),
            ident("elif"),
            ident("else"),
            ident("value"),
            ident("fnx"),
            ident("Val"),
            TokenKind::Eof,
        ]
    );
}

#[test]
fn slash_alone_divides() {
    let mut lexer = Lexer::new("a/b / /c".to_string());
    expect_token_at(&mut lexer, ident("a"), 0, 1);
    expect_token_at(&mut lexer, TokenKind::Divide, 1, 2);
    expect_token_at(&mut lexer, ident("b"), 2, 3);
    expect_token_at(&mut lexer, TokenKind::Divide, 4, 5);
    expect_token_at(&mut lexer, TokenKind::Divide, 6, 7);
    expect_token_at(&mut lexer, ident("c"), 7, 8);
    expect_token_at(&mut lexer, TokenKind::Eof, 8, 8);
}

#[test]
fn comment_runs_to_the_end_of_input() {
    let mut lexer = Lexer::new("x // nothing more".to_string());
    expect_token_at(&mut lexer, ident("x"), 0, 1);
    expect_token_at(&mut lexer, TokenKind::Eof, 17, 17);

    let mut lexer = Lexer::new("// one\n// two\n\n7".to_string());
    expect_token_at(&mut lexer, TokenKind::IntLiteral(7), 15, 16);
    expect_token_at(&mut lexer, TokenKind::Eof, 16, 16);

    let mut lexer = Lexer::new("//".to_string());
    expect_token_at(&mut lexer, TokenKind::Eof, 2, 2);
}

#[test]
fn unicode_white_space_is_skipped() {
    let text = "\u{a0}a\t\r\n\u{2003}b\u{3000}";
    let mut lexer = Lexer::new(text.to_string());
    expect_token_at(&mut lexer, ident("a"), 1, 2);
    expect_token_at(&mut lexer, ident("b"), 6, 7);
    expect_token_at(&mut lexer, TokenKind::Eof, 8, 8);
    assert_eq!(lexer.position, text.chars().count());
}

#[test]
fn white_space_is_what_char_says() {
    for code in 0u32..=0x10FFFF {
        if let Some(c) = char::from_u32(code) {
            assert_eq!(lexer::chars::is_whitespace(c), c.is_whitespace(), "{:?}", c);
        }
    }
}

#[test]
fn integer_literals() {
    let mut lexer = Lexer::new("0 007 1234567890".to_string());
    expect_token_at(&mut lexer, TokenKind::IntLiteral(0), 0, 1);
    expect_token_at(&mut lexer, TokenKind::IntLiteral(7), 2, 5);
    expect_token_at(&mut lexer, TokenKind::IntLiteral(1234567890), 6, 16);
    expect_token_at(&mut lexer, TokenKind::Eof, 16, 16);
}

#[test]
fn literal_followed_by_letters() {
    let mut lexer = Lexer::new("12ab".to_string());
    expect_token_at(&mut lexer, TokenKind::IntLiteral(12), 0, 2);
    expect_token_at(&mut lexer, ident("ab"), 2, 4);
}

#[test]
fn largest_literal_fits() {
    let text = isize::MAX.to_string();
    let mut lexer = Lexer::new(text.clone());
    expect_token_at(&mut lexer, TokenKind::IntLiteral(isize::MAX), 0, text.len());
}

#[test]
fn literal_out_of_range_fails() {
    let digits = (isize::MAX as u128 + 1).to_string();
    let text = format!("x = {} + 1", digits);
    let mut lexer = Lexer::new(text);
    expect_token(&mut lexer, ident("x"));
    expect_token(&mut lexer, TokenKind::Assign);
    assert_eq!(lexer.next_token(), Err(LexError::IntegerLiteralError(4, digits.clone())));
    // the cursor rests behind the digits
    assert_eq!(lexer.position, 4 + digits.len());
    expect_token(&mut lexer, TokenKind::Plus);
    expect_token(&mut lexer, TokenKind::IntLiteral(1));

    let long = "123456789012345678901234567890123456789012345678901234567890";
    assert_eq!(
        tokenize(long.to_string()),
        Err(LexError::IntegerLiteralError(0, long.to_string()))
    );
}

#[test]
fn peek_looks_ahead_without_moving() {
    let lexer = Lexer::new("ab".to_string());
    assert_eq!(lexer.peek(0), Some('a'));
    assert_eq!(lexer.peek(1), Some('b'));
    assert_eq!(lexer.peek(2), None);
    assert_eq!(lexer.peek(usize::MAX), None);
    assert_eq!(lexer.position, 0);
}

#[test]
fn advance_stops_at_the_end() {
    let mut lexer = Lexer::new("abc".to_string());
    lexer.advance(2);
    assert_eq!(lexer.position, 2);
    assert_eq!(lexer.peek(0), Some('c'));
    lexer.advance(5);
    assert_eq!(lexer.position, 3);
    lexer.advance(usize::MAX);
    assert_eq!(lexer.position, 3);
    assert_eq!(lexer.peek(0), None);
}

#[test]
fn next_steps_over_one_character() {
    let mut lexer = Lexer::new("hi".to_string());
    assert_eq!(lexer.next(), Some('h'));
    assert_eq!(lexer.next(), Some('i'));
    assert_eq!(lexer.position, 2);
    assert_eq!(lexer.next(), None);
    assert_eq!(lexer.position, 2);
}

#[test]
fn consume_spans_what_it_passes() {
    let mut lexer = Lexer::new("a<=b".to_string());
    lexer.advance(1);
    let token = lexer.consume(TokenKind::LessThanOrEqual, 2);
    assert_eq!(token, Token { kind: TokenKind::LessThanOrEqual, pos: Span { start: 1, end: 3 } });
    assert_eq!(lexer.position, 3);
}

#[test]
fn read_keyword_takes_the_longest_word() {
    let mut lexer = Lexer::new("snake_case9+1".to_string());
    assert_eq!(lexer.read_keyword(), "snake_case9");
    assert_eq!(lexer.position, 11);
    assert_eq!(lexer.read_keyword(), "");
    assert_eq!(lexer.position, 11);
}

#[test]
fn read_integer_takes_the_longest_run() {
    let mut lexer = Lexer::new("0420x".to_string());
    assert_eq!(lexer.read_integer(), Ok(420));
    assert_eq!(lexer.position, 4);
    assert_eq!(lexer.read_integer(), Err(LexError::IntegerLiteralError(4, String::new())));
    assert_eq!(lexer.position, 4);
}

#[test]
fn text_is_kept_by_character() {
    let lexer = Lexer::new("a\u{e9}b".to_string());
    assert_eq!(lexer.input, vec!['a', '\u{e9}', 'b']);
    assert_eq!(lexer.position, 0);
}

#[test]
fn errors_render_their_message() {
    assert_eq!(
        LexError::UnexpectedCharacter('&', 0).to_string(),
        "Unexpected character: '&' at position: 0"
    );
    assert_eq!(
        LexError::UnexpectedCharacter('#', 120).to_string(),
        "Unexpected character: '#' at position: 120"
    );
    assert_eq!(
        LexError::IntegerLiteralError(4, "99999999999999999999".to_string()).to_string(),
        "Integer literal out of range: '99999999999999999999' at position: 4"
    );
    let error = tokenize("a ? b".to_string()).unwrap_err();
    assert_eq!(error.to_string(), "Unexpected character: '?' at position: 2");
}
