use rlox::{
    scan, Decimal, Literal, RloxError, RloxSyntaxError, Scanner, SyntaxErrorKind, Token, TokenType,
};

#[test]
fn new_token_holds_what_it_was_given() {
    let token = Token::new(TokenType::Identifier, "answer".to_string(), None, 3);
    assert_eq!(token.token_type, TokenType::Identifier);
    assert_eq!(token.lexeme, "answer");
    assert_eq!(token.literal, None);
    assert_eq!(token.line_number, 3);
}

#[test]
fn new_token_keeps_its_literal() {
    let value = Literal::Number(Decimal { digits: vec![4, 2], scale: 1 });
    let token = Token::new(TokenType::Number, "4.2".to_string(), Some(value.clone()), 1);
    assert_eq!(token.literal, Some(value));
    let text = Literal::Text("hi".to_string());
    let token = Token::new(TokenType::String, "\"hi\"".to_string(), Some(text.clone()), 1);
    assert_eq!(token.literal, Some(text));
}

#[test]
fn display_is_kind_and_lexeme() {
    let token = Token::new(TokenType::LeftParen, "(".to_string(), None, 1);
    assert_eq!(token.display(), "LeftParen (");
    let token = Token::new(TokenType::Eof, String::new(), None, 1);
    assert_eq!(token.display(), "Eof ");
}

#[test]
fn display_leaves_the_literal_out() {
    let (tokens, _) = scan("12.5 \"text\" while");
    let shown: Vec<String> = tokens.iter().map(|t| t.display()).collect();
    assert_eq!(shown, vec!["Number 12.5", "String \"text\"", "While while", "Eof "]);
}

#[test]
fn kind_names_are_the_names_of_the_kinds() {
    let kinds = [
        TokenType::LeftParen,
        TokenType::RightParen,
        TokenType::LeftBrace,
        TokenType::RightBrace,
        TokenType::Comma,
        TokenType::Dot,
        TokenType::Minus,
        TokenType::Plus,
        TokenType::Semicolon,
        TokenType::Slash,
        TokenType::Star,
        TokenType::Bang,
        TokenType::BangEqual,
        TokenType::Equal,
        TokenType::EqualEqual,
        TokenType::Greater,
        TokenType::GreaterEqual,
        TokenType::Less,
        TokenType::LessEqual,
        TokenType::Identifier,
        TokenType::String,
        TokenType::Number,
        TokenType::And,
        TokenType::Class,
        TokenType::Else,
        TokenType::False,
        TokenType::Fun,
        TokenType::For,
        TokenType::If,
        TokenType::Nil,
        TokenType::Or,
        TokenType::Print,
        TokenType::Return,
        TokenType::Super,
        TokenType::This,
        TokenType::True,
        TokenType::Var,
        TokenType::While,
        TokenType::Eof,
    ];
    for kind in kinds {
        assert_eq!(kind.name(), format!("{:?}", kind));
    }
}

#[test]
fn mantissa_reads_the_digits_as_one_number() {
    assert_eq!(Decimal { digits: vec![], scale: 0 }.mantissa(), Some(0));
    assert_eq!(Decimal { digits: vec![0, 0, 9], scale: 0 }.mantissa(), Some(9));
    assert_eq!(Decimal { digits: vec![1, 2, 5, 0], scale: 2 }.mantissa(), Some(1250));
}

#[test]
fn mantissa_stops_where_64_bits_end() {
    let digits_of = |text: &str| -> Vec<u8> { text.bytes().map(|b| b - b'0').collect() };
    let largest = Decimal { digits: digits_of("18446744073709551615"), scale: 0 };
    assert_eq!(largest.mantissa(), Some(u64::MAX));
    let next = Decimal { digits: digits_of("18446744073709551616"), scale: 0 };
    assert_eq!(next.mantissa(), None);
    let long = Decimal { digits: digits_of("100000000000000000000"), scale: 5 };
    assert_eq!(long.mantissa(), None);
    let padded = Decimal { digits: digits_of("00000000000000000000000042"), scale: 0 };
    assert_eq!(padded.mantissa(), Some(42));
}

#[test]
fn long_number_literal_keeps_every_digit() {
    let (tokens, errors) = scan("123456789012345678901234567890.5");
    assert_eq!(tokens.len(), 2);
    match &tokens[0].literal {
        Some(Literal::Number(number)) => {
            assert_eq!(number.digits.len(), 31);
            assert_eq!(number.scale, 1);
            assert_eq!(number.mantissa(), None);
        }
        other => panic!("no number literal: {:?}", other),
    }
    assert!(errors.is_empty());
}

#[test]
fn syntax_error_has_the_description_of_its_kind() {
    let error = RloxSyntaxError::new(SyntaxErrorKind::UnexpectedCharacter, 7);
    assert_eq!(error.kind, SyntaxErrorKind::UnexpectedCharacter);
    assert_eq!(error.line_number, 7);
    assert_eq!(error.location, "");
    assert_eq!(error.description, "Unexpected character.");
    assert_eq!(error.kind.description(), "Unexpected character.");
    let error = RloxSyntaxError::new(SyntaxErrorKind::UnterminatedString, 2);
    assert_eq!(error.kind, SyntaxErrorKind::UnterminatedString);
    assert_eq!(error.line_number, 2);
    assert_eq!(error.description, "Unterminated string.");
}

#[test]
fn error_from_a_syntax_error() {
    let error = RloxSyntaxError::new(SyntaxErrorKind::UnterminatedString, 4);
    match RloxError::from(error.clone()) {
        RloxError::SyntaxError(inner) => assert_eq!(inner, error),
        other => panic!("not a syntax error: {:?}", other),
    }
}

#[test]
fn error_from_an_io_error() {
    let error = std::io::Error::new(std::io::ErrorKind::NotFound, "no such script");
    match RloxError::from(error) {
        RloxError::IoError(inner) => assert_eq!(inner.kind(), std::io::ErrorKind::NotFound),
        other => panic!("not an io error: {:?}", other),
    }
}

#[test]
fn scanner_starts_with_nothing_found() {
    let scanner = Scanner::new("var");
    assert!(!scanner.is_at_end());
    assert!(scanner.tokens().is_empty());
    assert!(scanner.errors().is_empty());
    assert!(Scanner::new("").is_at_end());
}

#[test]
fn advance_reads_one_character_after_the_other() {
    let mut scanner = Scanner::new("a\u{e9}\n");
    assert_eq!(scanner.advance(), 'a');
    assert_eq!(scanner.advance(), '\u{e9}');
    assert!(!scanner.is_at_end());
    assert_eq!(scanner.advance(), '\n');
    assert!(scanner.is_at_end());
}

#[test]
fn add_token_takes_what_was_read_since_the_start() {
    let mut scanner = Scanner::new("ab\ncd");
    scanner.advance();
    scanner.advance();
    scanner.add_token(TokenType::Identifier);
    scanner.advance();
    scanner.add_token(TokenType::Identifier);
    let tokens = scanner.tokens();
    assert_eq!(tokens.len(), 2);
    assert_eq!(tokens[0].lexeme, "ab");
    assert_eq!(tokens[0].line_number, 1);
    assert_eq!(tokens[0].literal, None);
    assert_eq!(tokens[1].lexeme, "ab\n");
    assert_eq!(tokens[1].line_number, 1);
}

#[test]
fn add_literal_token_keeps_the_literal() {
    let mut scanner = Scanner::new("7");
    scanner.advance();
    let value = Literal::Number(Decimal { digits: vec![7], scale: 0 });
    scanner.add_literal_token(TokenType::Number, Some(value.clone()));
    let (tokens, errors) = scanner.into_parts();
    assert_eq!(tokens, vec![Token::new(TokenType::Number, "7".to_string(), Some(value), 1)]);
    assert!(errors.is_empty());
}

#[test]
fn scan_token_reads_one_token() {
    let mut scanner = Scanner::new("<= \"s\" x");
    assert_eq!(scanner.scan_token(), Ok(()));
    assert_eq!(scanner.tokens().len(), 1);
    assert_eq!(scanner.tokens()[0].token_type, TokenType::LessEqual);
    assert_eq!(scanner.scan_token(), Ok(()));
    assert_eq!(scanner.tokens().len(), 1);
    assert_eq!(scanner.scan_token(), Ok(()));
    assert_eq!(scanner.tokens().len(), 2);
    assert_eq!(scanner.tokens()[1].token_type, TokenType::String);
    assert_eq!(scanner.tokens()[1].literal, Some(Literal::Text("s".to_string())));
    assert!(!scanner.is_at_end());
}

#[test]
fn scan_token_returns_the_error_and_can_go_on() {
    let mut scanner = Scanner::new("\n@;");
    assert_eq!(scanner.scan_token(), Ok(()));
    assert_eq!(
        scanner.scan_token(),
        Err(RloxSyntaxError::new(SyntaxErrorKind::UnexpectedCharacter, 2))
    );
    assert!(scanner.tokens().is_empty());
    assert!(scanner.errors().is_empty());
    assert_eq!(scanner.scan_token(), Ok(()));
    assert_eq!(scanner.tokens().len(), 1);
    assert_eq!(scanner.tokens()[0].token_type, TokenType::Semicolon);
    assert_eq!(scanner.tokens()[0].line_number, 2);
    assert!(scanner.is_at_end());
}

#[test]
fn scan_token_reports_an_open_string_and_reads_to_the_end() {
    let mut scanner = Scanner::new("\"open\n");
    assert_eq!(
        scanner.scan_token(),
        Err(RloxSyntaxError::new(SyntaxErrorKind::UnterminatedString, 1))
    );
    assert!(scanner.is_at_end());
    assert!(scanner.tokens().is_empty());
}

#[test]
fn scan_tokens_scans_the_rest() {
    let mut scanner = Scanner::new("a b @ c");
    assert_eq!(scanner.scan_token(), Ok(()));
    let tokens = scanner.scan_tokens();
    assert_eq!(tokens.len(), 4);
    assert_eq!(tokens[3].token_type, TokenType::Eof);
    assert!(scanner.is_at_end());
    assert_eq!(scanner.errors().len(), 1);
    let (tokens, errors) = scanner.into_parts();
    let (all_tokens, all_errors) = scan("a b @ c");
    assert_eq!(tokens, all_tokens);
    assert_eq!(errors, all_errors);
}

#[test]
fn scan_tokens_returns_what_the_scanner_holds() {
    let mut scanner = Scanner::new("1 + 2");
    let returned = scanner.scan_tokens().clone();
    assert_eq!(&returned, scanner.tokens());
    assert_eq!(returned.len(), 4);
}
