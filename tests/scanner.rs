use rlox::{LexError, LexErrorKind, Lexer, Lox, Token, TokenType};

fn scan_text(source: &str) -> (Vec<Token>, Vec<LexError>) {
    let mut lexer = Lexer::new(source.to_string());
    let errors = match lexer.scan_tokens() {
        Ok(()) => Vec::new(),
        Err(errors) => errors,
    };
    (lexer.tokens().clone(), errors)
}

fn kinds(source: &str) -> Vec<TokenType> {
    scan_text(source).0.into_iter().map(|t| t.kind).collect()
}

fn number_value(token: &Token) -> f64 {
    match &token.kind {
        TokenType::Number(text) => text.parse::<f64>().unwrap(),
        other => panic!("not a number: {:?}", other),
    }
}

#[test]
fn eof_is_last_and_only_once() {
    for source in ["", "(", "var x = 1;", "\"open", "@#", "a\nb\n// c", "1.2.3"] {
        let (tokens, _) = scan_text(source);
        assert_eq!(tokens.last().unwrap().kind, TokenType::Eof);
        let eofs = tokens.iter().filter(|t| t.kind == TokenType::Eof).count();
        assert_eq!(eofs, 1);
    }
}

#[test]
fn empty_input_is_lone_eof() {
    let (tokens, errors) = scan_text("");
    assert_eq!(tokens, vec![Token::new(TokenType::Eof, String::new(), 1)]);
    assert!(errors.is_empty());
}

#[test]
fn whitespace_and_comments_only() {
    let (tokens, errors) = scan_text("  \t\r\n// note\n   // another");
    assert_eq!(tokens, vec![Token::new(TokenType::Eof, String::new(), 3)]);
    assert!(errors.is_empty());
}

#[test]
fn punctuation_lexemes_match_source() {
    let source = "(){},.-+;/*! != = == < <= > >=";
    let (tokens, errors) = scan_text(source);
    assert!(errors.is_empty());
    let lexemes: Vec<&str> = tokens.iter().map(|t| t.lexeme.as_str()).collect();
    assert_eq!(
        lexemes,
        vec![
            "(", ")", "{", "}", ",", ".", "-", "+", ";", "/", "*", "!", "!=", "=", "==", "<",
            "<=", ">", ">=", ""
        ]
    );
    assert_eq!(
        kinds(source),
        vec![
            TokenType::LeftParen,
            TokenType::RightParen,
            TokenType::LeftBrace,
            TokenType::RightBrace,
            TokenType::Comma,
            TokenType::Dot,
            TokenType::Minus,
            TokenType::Plus,
            TokenType::Semicolon,
            TokenType::Slash,
            TokenType::Star,
            TokenType::Bang,
            TokenType::BangEqual,
            TokenType::Equal,
            TokenType::EqualEqual,
            TokenType::Less,
            TokenType::LessEqual,
            TokenType::Greater,
            TokenType::GreaterEqual,
            TokenType::Eof,
        ]
    );
}

#[test]
fn keywords_are_recognized() {
    let source = "and class else false fun for if nil or print return super this true var while";
    assert_eq!(
        kinds(source),
        vec![
            TokenType::And,
            TokenType::Class,
            TokenType::Else,
            TokenType::False,
            TokenType::Fun,
            TokenType::For,
            TokenType::If,
            TokenType::Nil,
            TokenType::Or,
            TokenType::Print,
            TokenType::Return,
            TokenType::Super,
            TokenType::This,
            TokenType::True,
            TokenType::Var,
            TokenType::While,
            TokenType::Eof,
        ]
    );
}

#[test]
fn keyword_prefix_is_identifier() {
    assert_eq!(
        kinds("andx _or if1 For"),
        vec![
            TokenType::Identifier("andx".to_string()),
            TokenType::Identifier("_or".to_string()),
            TokenType::Identifier("if1".to_string()),
            TokenType::Identifier("For".to_string()),
            TokenType::Eof,
        ]
    );
}

#[test]
fn integer_number() {
    let (tokens, errors) = scan_text("123");
    assert!(errors.is_empty());
    assert_eq!(tokens.len(), 2);
    assert_eq!(number_value(&tokens[0]), 123.0);
    assert_eq!(tokens[0].lexeme, "123");
}

#[test]
fn fractional_number() {
    let (tokens, _) = scan_text("1.5");
    assert_eq!(tokens.len(), 2);
    assert_eq!(number_value(&tokens[0]), 1.5);
}

#[test]
fn trailing_dot_is_not_absorbed() {
    let (tokens, errors) = scan_text("1.");
    assert!(errors.is_empty());
    assert_eq!(number_value(&tokens[0]), 1.0);
    assert_eq!(tokens[1].kind, TokenType::Dot);
    assert_eq!(tokens[2].kind, TokenType::Eof);
    assert_eq!(tokens.len(), 3);
}

#[test]
fn method_call_on_integer() {
    assert_eq!(
        kinds("12.abs"),
        vec![
            TokenType::Number("12".to_string()),
            TokenType::Dot,
            TokenType::Identifier("abs".to_string()),
            TokenType::Eof,
        ]
    );
}

#[test]
fn unterminated_string() {
    let (tokens, errors) = scan_text("\"abc");
    assert_eq!(
        errors,
        vec![LexError { kind: LexErrorKind::UnterminatedString, line: 1 }]
    );
    assert_eq!(tokens, vec![Token::new(TokenType::Eof, String::new(), 1)]);
}

#[test]
fn unterminated_string_reports_opening_line() {
    let (tokens, errors) = scan_text("x\n\"ab\ncd");
    assert_eq!(
        errors,
        vec![LexError { kind: LexErrorKind::UnterminatedString, line: 2 }]
    );
    assert_eq!(tokens.last().unwrap().line, 3);
}

#[test]
fn string_literal_spans_lines() {
    let (tokens, errors) = scan_text("\"a\nb\" x");
    assert!(errors.is_empty());
    assert_eq!(tokens[0].kind, TokenType::String("a\nb".to_string()));
    assert_eq!(tokens[0].lexeme, "\"a\nb\"");
    assert_eq!(tokens[0].line, 1);
    assert_eq!(tokens[1].kind, TokenType::Identifier("x".to_string()));
    assert_eq!(tokens[1].line, 2);
}

#[test]
fn backslash_is_literal_in_strings() {
    let (tokens, _) = scan_text("\"a\\n\"");
    assert_eq!(tokens[0].kind, TokenType::String("a\\n".to_string()));
}

#[test]
fn bang_equal_is_one_token() {
    let (tokens, _) = scan_text("!=");
    assert_eq!(tokens.len(), 2);
    assert_eq!(tokens[0].kind, TokenType::BangEqual);
    assert_eq!(tokens[0].lexeme, "!=");
}

#[test]
fn bang_keeps_following_character() {
    assert_eq!(
        kinds("!a"),
        vec![
            TokenType::Bang,
            TokenType::Identifier("a".to_string()),
            TokenType::Eof
        ]
    );
    assert_eq!(kinds("!!"), vec![TokenType::Bang, TokenType::Bang, TokenType::Eof]);
}

#[test]
fn comment_then_number_on_next_line() {
    let (tokens, errors) = scan_text("// comment\n123");
    assert!(errors.is_empty());
    assert_eq!(tokens.len(), 2);
    assert_eq!(number_value(&tokens[0]), 123.0);
    assert_eq!(tokens[0].line, 2);
    assert_eq!(tokens[1].line, 2);
}

#[test]
fn unexpected_character_then_number() {
    let (tokens, errors) = scan_text("@123");
    assert_eq!(
        errors,
        vec![LexError { kind: LexErrorKind::UnexpectedCharacter, line: 1 }]
    );
    assert_eq!(tokens.len(), 2);
    assert_eq!(number_value(&tokens[0]), 123.0);
}

#[test]
fn errors_accumulate_in_order() {
    let (tokens, errors) = scan_text("#\n$ a\n\"b");
    assert_eq!(
        errors,
        vec![
            LexError { kind: LexErrorKind::UnexpectedCharacter, line: 1 },
            LexError { kind: LexErrorKind::UnexpectedCharacter, line: 2 },
            LexError { kind: LexErrorKind::UnterminatedString, line: 3 },
        ]
    );
    assert_eq!(tokens[0].kind, TokenType::Identifier("a".to_string()));
    assert_eq!(tokens[0].line, 2);
}

#[test]
fn non_ascii_character_is_unexpected() {
    let (tokens, errors) = scan_text("é1");
    assert_eq!(errors.len(), 1);
    assert_eq!(errors[0].kind, LexErrorKind::UnexpectedCharacter);
    assert_eq!(tokens[0].kind, TokenType::Number("1".to_string()));
}

#[test]
fn scanning_twice_gives_same_result() {
    let source = "var x = \"s\"; // c\n@ 3.25 andx";
    assert_eq!(scan_text(source), scan_text(source));
    let mut lexer = Lexer::new(source.to_string());
    let first = lexer.scan_tokens();
    let first_tokens = lexer.tokens().clone();
    let second = lexer.scan_tokens();
    assert_eq!(first, second);
    assert_eq!(&first_tokens, lexer.tokens());
}

#[test]
fn lines_are_counted() {
    let (tokens, _) = scan_text("a\nb\r\n\nc");
    let lines: Vec<usize> = tokens.iter().map(|t| t.line).collect();
    assert_eq!(lines, vec![1, 2, 4, 4]);
}

#[test]
fn error_report_line() {
    let mut lox = Lox::default();
    assert!(!lox.had_error);
    let text = lox.error(12, &"Unexpected character".to_string());
    assert_eq!(text, "[line 12] Error: Unexpected character");
    assert!(lox.had_error);
    assert_eq!(lox.error(0, &"m".to_string()), "[line 0] Error: m");
    assert_eq!(lox.error(907, &String::new()), "[line 907] Error: ");
}

#[test]
fn error_messages() {
    assert_eq!(LexErrorKind::UnexpectedCharacter.message(), "Unexpected character");
    assert_eq!(LexErrorKind::UnterminatedString.message(), "Unterminated string");
    assert_eq!(LexErrorKind::MalformedNumber.message(), "Malformed number");
}
