use rust_lox::{Literal, Scanner, Token, TokenType};

fn scan(source: &str) -> Scanner {
    let mut scanner = Scanner::new(source.to_string());
    scanner.scan_tokens();
    scanner
}

fn kinds(source: &str) -> Vec<TokenType> {
    scan(source).tokens.iter().map(|token| token.typ).collect()
}

#[test]
fn punctuation_is_scanned() {
    assert_eq!(
        kinds("(){},.-+;: / * ?"),
        vec![
            TokenType::LEFTPAREN,
            TokenType::RIGHTPAREN,
            TokenType::LEFTBRACE,
            TokenType::RIGHTBRACE,
            TokenType::COMMA,
            TokenType::DOT,
            TokenType::MINUS,
            TokenType::PLUS,
            TokenType::SEMICOLON,
            TokenType::COLON,
            TokenType::SLASH,
            TokenType::STAR,
            TokenType::QUESTIONMARK,
            TokenType::EOF,
        ]
    );
}

#[test]
fn one_or_two_characters() {
    assert_eq!(
        kinds("! != = == < <= > >="),
        vec![
            TokenType::BANG,
            TokenType::BANGEQUAL,
            TokenType::EQUAL,
            TokenType::EQUALEQUAL,
            TokenType::LESS,
            TokenType::LESSEQUAL,
            TokenType::GREATER,
            TokenType::GREATEREQUAL,
            TokenType::EOF,
        ]
    );
    assert_eq!(kinds("!"), vec![TokenType::BANG, TokenType::EOF]);
    assert_eq!(kinds("==="), vec![TokenType::EQUALEQUAL, TokenType::EQUAL, TokenType::EOF]);
}

#[test]
fn keywords_are_recognised() {
    assert_eq!(
        kinds("and class else false for fun if nil or print return super this true var while"),
        vec![
            TokenType::AND,
            TokenType::CLASS,
            TokenType::ELSE,
            TokenType::FALSE,
            TokenType::FOR,
            TokenType::FUN,
            TokenType::IF,
            TokenType::NIL,
            TokenType::OR,
            TokenType::PRINT,
            TokenType::RETURN,
            TokenType::SUPER,
            TokenType::THIS,
            TokenType::TRUE,
            TokenType::VAR,
            TokenType::WHILE,
            TokenType::EOF,
        ]
    );
    assert_eq!(
        kinds("andy _and And classy iff"),
        vec![
            TokenType::IDENTIFIER,
            TokenType::IDENTIFIER,
            TokenType::IDENTIFIER,
            TokenType::IDENTIFIER,
            TokenType::IDENTIFIER,
            TokenType::EOF,
        ]
    );
    let text = String::from("while");
    assert_eq!(Scanner::keyword_of(&text), TokenType::WHILE);
    let text = String::from("whale");
    assert_eq!(Scanner::keyword_of(&text), TokenType::IDENTIFIER);
}

#[test]
fn lexemes_and_lines() {
    let scanner = scan("var answer = 42;\nprint answer;");
    let lexemes: Vec<&str> = scanner.tokens.iter().map(|token| token.lexeme.as_str()).collect();
    assert_eq!(lexemes, vec!["var", "answer", "=", "42", ";", "print", "answer", ";", "EOF"]);
    let lines: Vec<usize> = scanner.tokens.iter().map(|token| token.line).collect();
    assert_eq!(lines, vec![1, 1, 1, 1, 1, 2, 2, 2, 2]);
    assert!(!scanner.had_error);
    assert!(scanner.errors.is_empty());
}

#[test]
fn numbers_carry_their_value() {
    let scanner = scan("12 3.5 7. .5");
    let tokens = &scanner.tokens;
    assert_eq!(tokens[0].typ, TokenType::NUMBER);
    assert_eq!(tokens[0].lexeme, "12");
    match &tokens[0].literal {
        Some(Literal::Number(n)) => assert_eq!(f64::from_bits(n.to_bits()), 12.0),
        other => panic!("{:?}", other),
    }
    assert_eq!(tokens[1].lexeme, "3.5");
    match &tokens[1].literal {
        Some(Literal::Number(n)) => assert_eq!(f64::from_bits(n.to_bits()), 3.5),
        other => panic!("{:?}", other),
    }
    let rest: Vec<TokenType> = tokens[2..].iter().map(|token| token.typ).collect();
    assert_eq!(
        rest,
        vec![TokenType::NUMBER, TokenType::DOT, TokenType::DOT, TokenType::NUMBER, TokenType::EOF]
    );
}

#[test]
fn strings_carry_their_text() {
    let scanner = scan("\"hi there\" \"\"");
    assert_eq!(scanner.tokens[0].typ, TokenType::STRING);
    assert_eq!(scanner.tokens[0].lexeme, "\"hi there\"");
    match &scanner.tokens[0].literal {
        Some(Literal::String(text)) => assert_eq!(text, "hi there"),
        other => panic!("{:?}", other),
    }
    match &scanner.tokens[1].literal {
        Some(Literal::String(text)) => assert_eq!(text, ""),
        other => panic!("{:?}", other),
    }
}

#[test]
fn strings_may_span_lines() {
    let scanner = scan("\"a\nb\nc\" x");
    assert_eq!(scanner.tokens[0].typ, TokenType::STRING);
    assert_eq!(scanner.tokens[0].line, 3);
    assert_eq!(scanner.tokens[1].line, 3);
    match &scanner.tokens[0].literal {
        Some(Literal::String(text)) => assert_eq!(text, "a\nb\nc"),
        other => panic!("{:?}", other),
    }
}

#[test]
fn unterminated_string_is_reported() {
    let scanner = scan("x \"abc\ndef");
    assert!(scanner.had_error);
    assert_eq!(scanner.errors.len(), 1);
    assert_eq!(scanner.errors[0].message, "Unterminated string.");
    assert_eq!(scanner.errors[0].line, 2);
    assert_eq!(
        scanner.tokens.iter().map(|token| token.typ).collect::<Vec<_>>(),
        vec![TokenType::IDENTIFIER, TokenType::EOF]
    );
}

#[test]
fn unexpected_character_does_not_stop_the_scan() {
    let scanner = scan("a @ b\n# c");
    assert!(scanner.had_error);
    assert_eq!(scanner.errors.len(), 2);
    assert_eq!(scanner.errors[0].message, "Unexpected character.");
    assert_eq!(scanner.errors[0].line, 1);
    assert_eq!(scanner.errors[1].line, 2);
    assert_eq!(
        scanner.tokens.iter().map(|token| token.lexeme.as_str()).collect::<Vec<_>>(),
        vec!["a", "b", "c", "EOF"]
    );
}

#[test]
fn comments_are_skipped() {
    assert_eq!(kinds("1 // two three\n4"), vec![TokenType::NUMBER, TokenType::NUMBER, TokenType::EOF]);
    assert_eq!(kinds("// only a comment"), vec![TokenType::EOF]);
    assert_eq!(kinds("1 /* 2 \n 3 */ 4"), vec![TokenType::NUMBER, TokenType::NUMBER, TokenType::EOF]);
    assert_eq!(kinds("1 /* never closed 2"), vec![TokenType::NUMBER, TokenType::EOF]);
    assert_eq!(kinds("/**/1"), vec![TokenType::NUMBER, TokenType::EOF]);
    assert_eq!(kinds("/* a */ /* b */ 1"), vec![TokenType::NUMBER, TokenType::EOF]);
    assert_eq!(kinds("1 / 2"), vec![TokenType::NUMBER, TokenType::SLASH, TokenType::NUMBER, TokenType::EOF]);
    let scanner = scan("/* a\nb\n*/ x\n// y\nz");
    assert_eq!(scanner.tokens[0].line, 3);
    assert_eq!(scanner.tokens[1].line, 5);
}

#[test]
fn block_comments_do_not_nest() {
    assert_eq!(
        kinds("/* a /* b */ c */"),
        vec![TokenType::IDENTIFIER, TokenType::STAR, TokenType::SLASH, TokenType::EOF]
    );
}

#[test]
fn blanks_are_ignored() {
    assert_eq!(kinds(" \t\r\n "), vec![TokenType::EOF]);
    assert_eq!(scan(" \n\n ").tokens[0].line, 3);
}

#[test]
fn empty_source_gives_the_end_token() {
    let scanner = scan("");
    assert_eq!(scanner.tokens.len(), 1);
    assert_eq!(scanner.tokens[0].typ, TokenType::EOF);
    assert_eq!(scanner.tokens[0].line, 1);
    assert!(scanner.tokens[0].literal.is_none());
}

#[test]
fn scanning_twice_gives_the_same_tokens() {
    let source = "fun f(a, b) {\n  return a + b; // sum\n}\nprint f(1, 2.5) == \"x\";\n";
    let one = scan(source);
    let two = scan(source);
    assert_eq!(one.tokens.len(), two.tokens.len());
    for (a, b) in one.tokens.iter().zip(two.tokens.iter()) {
        assert_eq!(a.typ, b.typ);
        assert_eq!(a.lexeme, b.lexeme);
        assert_eq!(a.line, b.line);
        assert_eq!(a.to_string(), b.to_string());
    }
}

#[test]
fn lines_never_go_back() {
    let scanner = scan("a\n\"x\ny\" b /* c\n\n */ d // e\n\nf");
    let lines: Vec<usize> = scanner.tokens.iter().map(|token| token.line).collect();
    assert_eq!(lines, vec![1, 3, 3, 5, 7, 7]);
    for pair in lines.windows(2) {
        assert!(pair[0] <= pair[1]);
    }
    assert_eq!(scanner.tokens.last().unwrap().typ, TokenType::EOF);
}

#[test]
fn scanner_steps_one_token_at_a_time() {
    let mut scanner = Scanner::new("ab >= 1".to_string());
    assert!(!scanner.is_at_end());
    assert_eq!(scanner.peek(), 'a');
    assert_eq!(scanner.peek_next(), 'b');
    scanner.scan_token();
    assert_eq!(scanner.tokens.len(), 1);
    assert_eq!(scanner.tokens[0].lexeme, "ab");
    assert_eq!(scanner.current, 2);
    scanner.start = scanner.current;
    scanner.scan_token();
    assert_eq!(scanner.tokens.len(), 1);
    scanner.start = scanner.current;
    assert!(scanner.match_token('>'));
    assert!(!scanner.match_token('>'));
    assert!(scanner.match_token('='));
    scanner.add_token(TokenType::GREATEREQUAL);
    assert_eq!(scanner.tokens[1].lexeme, ">=");
    assert_eq!(scanner.advance(), ' ');
    scanner.start = scanner.current;
    assert_eq!(scanner.advance(), '1');
    assert!(scanner.is_at_end());
    assert_eq!(scanner.peek(), '\0');
    assert_eq!(scanner.peek_next(), '\0');
    assert_eq!(scanner.lexeme(), "1");
    assert!(scanner.is_digit('7') && !scanner.is_digit('a'));
    assert!(scanner.is_alpha('_') && scanner.is_alpha('Z') && !scanner.is_alpha('1'));
    assert!(scanner.is_alpha_numeric('1') && !scanner.is_alpha_numeric('-'));
}

#[test]
fn token_kinds_are_written() {
    assert_eq!(TokenType::LEFTPAREN.to_string(), "(");
    assert_eq!(TokenType::LEFTBRACE.to_string(), "{");
    assert_eq!(TokenType::RIGHTBRACE.to_string(), "}");
    assert_eq!(TokenType::BANGEQUAL.to_string(), "!=");
    assert_eq!(TokenType::GREATEREQUAL.to_string(), ">=");
    assert_eq!(TokenType::QUESTIONMARK.to_string(), "?");
    assert_eq!(TokenType::COLON.to_string(), ":");
    assert_eq!(TokenType::IDENTIFIER.to_string(), "IDENTIFIER");
    assert_eq!(TokenType::WHILE.to_string(), "WHILE");
    assert_eq!(TokenType::NIL.to_string(), "NIL");
    assert_eq!(TokenType::EOF.to_string(), "EOF");
    assert_eq!(TokenType::AND.as_str(), "AND");
}

#[test]
fn tokens_are_written_with_their_value() {
    let scanner = scan("12.5 \"hi\" x");
    assert_eq!(scanner.tokens[0].to_string(), "NUMBER 12.5");
    assert_eq!(scanner.tokens[1].to_string(), "STRING hi");
    assert_eq!(scanner.tokens[2].to_string(), "IDENTIFIER");
    let token = Token::new(TokenType::PLUS, "+".to_string(), None, 3);
    assert_eq!(token.to_string(), "+");
    assert_eq!(token.line, 3);
    let copy = token.clone();
    assert_eq!(copy.lexeme, "+");
    assert_eq!(copy.typ, TokenType::PLUS);
}
