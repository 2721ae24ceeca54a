use rlox::number::Number;
use rlox::scanner::{scan_source, ScanError, Scanner};
use rlox::token::{Literal, Token, TokenType};

fn kinds(source: &str) -> Vec<TokenType> {
    scan_source(source).unwrap().iter().map(|t| t.token_type).collect()
}

#[test]
fn scans_print_statement() {
    let tokens = scan_source("print 1;").unwrap();
    assert_eq!(
        tokens,
        vec![
            Token::new(TokenType::Print, "print".to_string(), None, 1),
            Token::new(
                TokenType::Number,
                "1".to_string(),
                Some(Literal::Number(Number::from_units(1_000_000))),
                1
            ),
            Token::new(TokenType::Semicolon, ";".to_string(), None, 1),
            Token::new(TokenType::EOF, " ".to_string(), None, 1),
        ]
    );
}

#[test]
fn empty_source_is_the_end_token_alone() {
    assert_eq!(
        scan_source("").unwrap(),
        vec![Token::new(TokenType::EOF, " ".to_string(), None, 1)]
    );
}

#[test]
fn scans_punctuation() {
    assert_eq!(
        kinds("(){},.-+;*/"),
        vec![
            TokenType::LeftParen,
            TokenType::RightParen,
            TokenType::LeftBrace,
            TokenType::RightBrace,
            TokenType::Comma,
            TokenType::Dot,
            TokenType::Minus,
            TokenType::Plus,
            TokenType::Semicolon,
            TokenType::Star,
            TokenType::Slash,
            TokenType::EOF,
        ]
    );
}

#[test]
fn scans_operators_of_one_and_two_characters() {
    assert_eq!(
        kinds("! != = == < <= > >="),
        vec![
            TokenType::Bang,
            TokenType::BangEqual,
            TokenType::Equal,
            TokenType::EqualEqual,
            TokenType::Less,
            TokenType::LessEqual,
            TokenType::Greater,
            TokenType::GreaterEqual,
            TokenType::EOF,
        ]
    );
    assert_eq!(
        kinds("==="),
        vec![TokenType::EqualEqual, TokenType::Equal, TokenType::EOF]
    );
    let tokens = scan_source("a<=b").unwrap();
    assert_eq!(tokens[1].lexeme, "<=");
}

#[test]
fn scans_reserved_words() {
    assert_eq!(
        kinds("and class else false for fun if nil or print return super this true var while"),
        vec![
            TokenType::And,
            TokenType::Class,
            TokenType::Else,
            TokenType::False,
            TokenType::For,
            TokenType::Fun,
            TokenType::If,
            TokenType::Nil,
            TokenType::Or,
            TokenType::Print,
            TokenType::Return,
            TokenType::Super,
            TokenType::This,
            TokenType::True,
            TokenType::Var,
            TokenType::While,
            TokenType::EOF,
        ]
    );
}

#[test]
fn scans_identifiers() {
    let tokens = scan_source("orchid printer x1 Var").unwrap();
    let found: Vec<(TokenType, &str)> =
        tokens.iter().map(|t| (t.token_type, t.lexeme.as_str())).collect();
    assert_eq!(
        found,
        vec![
            (TokenType::Identifier, "orchid"),
            (TokenType::Identifier, "printer"),
            (TokenType::Identifier, "x1"),
            (TokenType::Identifier, "Var"),
            (TokenType::EOF, " "),
        ]
    );
    assert_eq!(tokens[0].literal, None);
}

#[test]
fn scans_numbers() {
    let tokens = scan_source("12 3.5 0.000001 7.1234567 1.").unwrap();
    assert_eq!(tokens[0].literal, Some(Literal::Number(Number::from_units(12_000_000))));
    assert_eq!(tokens[1].literal, Some(Literal::Number(Number::from_units(3_500_000))));
    assert_eq!(tokens[1].lexeme, "3.5");
    assert_eq!(tokens[2].literal, Some(Literal::Number(Number::from_units(1))));
    assert_eq!(tokens[3].literal, Some(Literal::Number(Number::from_units(7_123_456))));
    assert_eq!(tokens[3].lexeme, "7.1234567");
    assert_eq!(tokens[4].token_type, TokenType::Number);
    assert_eq!(tokens[4].lexeme, "1");
    assert_eq!(tokens[5].token_type, TokenType::Dot);
    assert_eq!(tokens[6].token_type, TokenType::EOF);
}

#[test]
fn a_minus_sign_is_a_token_of_its_own() {
    assert_eq!(kinds("-1"), vec![TokenType::Minus, TokenType::Number, TokenType::EOF]);
}

#[test]
fn scans_strings() {
    let tokens = scan_source("\"hello world\" \"\"").unwrap();
    assert_eq!(tokens[0].token_type, TokenType::String);
    assert_eq!(tokens[0].lexeme, "\"hello world\"");
    assert_eq!(tokens[0].literal, Some(Literal::Text("hello world".to_string())));
    assert_eq!(tokens[1].lexeme, "\"\"");
    assert_eq!(tokens[1].literal, Some(Literal::Text(String::new())));
}

#[test]
fn counts_lines() {
    let tokens = scan_source("a\nb\r\n\n c \"x\ny\" d").unwrap();
    let found: Vec<(&str, usize)> = tokens.iter().map(|t| (t.lexeme.as_str(), t.line)).collect();
    assert_eq!(
        found,
        vec![("a", 1), ("b", 2), ("c", 4), ("\"x\ny\"", 5), ("d", 5), (" ", 5)]
    );
}

#[test]
fn skips_comments_and_blanks() {
    assert_eq!(
        kinds("1 // the rest ; is ignored\n\t2 // also at the end"),
        vec![TokenType::Number, TokenType::Number, TokenType::EOF]
    );
    assert_eq!(kinds("1 / 2"), vec![TokenType::Number, TokenType::Slash, TokenType::Number, TokenType::EOF]);
    let tokens = scan_source("// only a comment\nx").unwrap();
    assert_eq!(tokens[0].line, 2);
}

#[test]
fn unterminated_string_is_an_error() {
    assert_eq!(scan_source("\"abc").err(), Some(ScanError::UnterminatedString { line: 1 }));
    assert_eq!(
        scan_source("x\n\"abc\ndef").err(),
        Some(ScanError::UnterminatedString { line: 3 })
    );
}

#[test]
fn unknown_character_is_an_error() {
    assert_eq!(
        scan_source("var x = 1;\n@").err(),
        Some(ScanError::UnexpectedCharacter { character: '@', line: 2 })
    );
    assert_eq!(
        scan_source("_x").err(),
        Some(ScanError::UnexpectedCharacter { character: '_', line: 1 })
    );
    assert_eq!(
        scan_source("x $").err(),
        Some(ScanError::UnexpectedCharacter { character: '$', line: 1 })
    );
    assert_eq!(
        scan_source("💝").err(),
        Some(ScanError::UnexpectedCharacter { character: '💝', line: 1 })
    );
}

#[test]
fn identifiers_take_the_letters_of_any_alphabet() {
    let found = |source: &str| -> Vec<(TokenType, String)> {
        scan_source(source).unwrap().iter().map(|t| (t.token_type, t.lexeme.clone())).collect()
    };
    assert_eq!(
        found("aé"),
        vec![(TokenType::Identifier, "aé".to_string()), (TokenType::EOF, " ".to_string())]
    );
    assert_eq!(
        found("é = 京都;"),
        vec![
            (TokenType::Identifier, "é".to_string()),
            (TokenType::Equal, "=".to_string()),
            (TokenType::Identifier, "京都".to_string()),
            (TokenType::Semicolon, ";".to_string()),
            (TokenType::EOF, " ".to_string()),
        ]
    );
    assert_eq!(
        found("x٣ K9"),
        vec![
            (TokenType::Identifier, "x٣".to_string()),
            (TokenType::Identifier, "K9".to_string()),
            (TokenType::EOF, " ".to_string()),
        ]
    );
    assert_eq!(
        found("printé print"),
        vec![
            (TokenType::Identifier, "printé".to_string()),
            (TokenType::Print, "print".to_string()),
            (TokenType::EOF, " ".to_string()),
        ]
    );
    assert_eq!(
        scan_source("a_b").err(),
        Some(ScanError::UnexpectedCharacter { character: '_', line: 1 })
    );
}

#[test]
fn a_word_begins_with_a_letter() {
    assert_eq!(
        scan_source("٣").err(),
        Some(ScanError::UnexpectedCharacter { character: '٣', line: 1 })
    );
    let tokens = scan_source("1a").unwrap();
    assert_eq!(tokens[0].token_type, TokenType::Number);
    assert_eq!(tokens[1].token_type, TokenType::Identifier);
    assert_eq!(tokens[1].lexeme, "a");
}

#[test]
fn every_numeric_literal_scans() {
    let tokens = scan_source("9223372036854.775808 18000000000000").unwrap();
    assert_eq!(
        tokens[0].literal,
        Some(Literal::Number(Number::from_units(9_223_372_036_854_775_808)))
    );
    assert_eq!(
        tokens[1].literal,
        Some(Literal::Number(Number::from_units(18_000_000_000_000_000_000)))
    );
    let long = "9".repeat(60);
    let tokens = scan_source(&long).unwrap();
    assert_eq!(tokens[0].lexeme, long);
    assert_eq!(tokens[0].literal, Some(Literal::Number(Number::from_units(i128::MAX))));
    assert_eq!(
        tokens[0].literal,
        Some(Literal::Number(Number { negative: false, magnitude: 10u128.pow(32) }))
    );
}

#[test]
fn scanner_adds_to_the_tokens_found_so_far() {
    let mut scanner = Scanner::new("a b".to_string());
    assert_eq!(scanner.line, 1);
    assert_eq!(scanner.scan_tokens(), Ok(()));
    assert_eq!(scanner.tokens.len(), 3);
    assert_eq!(scanner.current, 3);
    let mut scanner = Scanner::new("a # b".to_string());
    assert_eq!(
        scanner.scan_tokens(),
        Err(ScanError::UnexpectedCharacter { character: '#', line: 1 })
    );
    assert_eq!(scanner.tokens.len(), 1);
}
