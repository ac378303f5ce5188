use rlox::scanner::{keyword, Scanner, Tokens};
use rlox::tokens::{Literal, Token, TokenType};

fn scan(source: &str) -> Vec<Token> {
    Tokens::from_str(source).unwrap().into()
}

fn kinds(source: &str) -> Vec<TokenType> {
    scan(source).iter().map(|t| t.token_type).collect()
}

fn lexemes(source: &str) -> Vec<String> {
    scan(source).iter().map(|t| t.lexeme.clone()).collect()
}

#[test]
fn empty_source_gives_only_the_end_marker() {
    let tokens = scan("");
    assert_eq!(tokens.len(), 1);
    assert_eq!(tokens[0].token_type, TokenType::Eof);
    assert_eq!(tokens[0].lexeme, "");
    assert_eq!(tokens[0].line_number, 1);
    assert!(matches!(tokens[0].literal, Literal::Nil));
}

#[test]
fn single_character_tokens() {
    assert_eq!(
        kinds("(){},.-+;*/"),
        vec![
            TokenType::LeftParen,
            TokenType::RightParen,
            TokenType::LeftBrace,
            TokenType::RightBrace,
            TokenType::Comma,
            TokenType::Dot,
            TokenType::Minus,
            TokenType::Plus,
            TokenType::Semicolon,
            TokenType::Star,
            TokenType::Slash,
            TokenType::Eof
        ]
    );
}

#[test]
fn one_or_two_character_tokens() {
    assert_eq!(
        kinds("! != = == < <= > >="),
        vec![
            TokenType::Bang,
            TokenType::BangEqual,
            TokenType::Equal,
            TokenType::EqualEqual,
            TokenType::Less,
            TokenType::LessEqual,
            TokenType::Greater,
            TokenType::GreaterEqual,
            TokenType::Eof
        ]
    );
    assert_eq!(lexemes("<= !")[0], "<=");
    assert_eq!(kinds("!"), vec![TokenType::Bang, TokenType::Eof]);
}

#[test]
fn keywords_and_identifiers() {
    assert_eq!(
        kinds("and class else false for fun if nil or print return super this true var while"),
        vec![
            TokenType::And,
            TokenType::Class,
            TokenType::Else,
            TokenType::False,
            TokenType::For,
            TokenType::Fun,
            TokenType::If,
            TokenType::Nil,
            TokenType::Or,
            TokenType::Print,
            TokenType::Return,
            TokenType::Super,
            TokenType::This,
            TokenType::True,
            TokenType::Var,
            TokenType::While,
            TokenType::Eof
        ]
    );
    assert_eq!(
        kinds("andy _x x1 Class"),
        vec![
            TokenType::Identifier,
            TokenType::Identifier,
            TokenType::Identifier,
            TokenType::Identifier,
            TokenType::Eof
        ]
    );
    assert_eq!(lexemes("andy _x")[..2], ["andy", "_x"]);
}

#[test]
fn keyword_lookup() {
    assert_eq!(keyword("while"), Some(TokenType::While));
    assert_eq!(keyword("whil"), None);
    assert_eq!(keyword(""), None);
}

#[test]
fn numbers_carry_their_value() {
    let tokens = scan("12.50 7");
    assert_eq!(tokens[0].token_type, TokenType::Number);
    assert_eq!(tokens[0].lexeme, "12.50");
    match &tokens[0].literal {
        Literal::Number(n) => {
            assert_eq!(n.mantissa(), 1250);
            assert_eq!(n.scale(), 2);
        }
        other => panic!("not a number: {:?}", other),
    }
    match &tokens[1].literal {
        Literal::Number(n) => {
            assert_eq!(n.mantissa(), 7);
            assert_eq!(n.scale(), 0);
        }
        other => panic!("not a number: {:?}", other),
    }
}

#[test]
fn a_point_without_digits_is_not_part_of_a_number() {
    assert_eq!(
        kinds("1.x"),
        vec![TokenType::Number, TokenType::Dot, TokenType::Identifier, TokenType::Eof]
    );
    assert_eq!(kinds("1."), vec![TokenType::Number, TokenType::Dot, TokenType::Eof]);
}

#[test]
fn strings_carry_their_contents() {
    let tokens = scan("\"hello world\"");
    assert_eq!(tokens[0].token_type, TokenType::String);
    assert_eq!(tokens[0].lexeme, "\"hello world\"");
    match &tokens[0].literal {
        Literal::String(s) => assert_eq!(s, "hello world"),
        other => panic!("not a string: {:?}", other),
    }
}

#[test]
fn lines_are_counted() {
    let tokens = scan("a\nb\n\nc \"x\ny\" d");
    let lines: Vec<usize> = tokens.iter().map(|t| t.line_number).collect();
    assert_eq!(lines, vec![1, 2, 4, 5, 5, 5]);
}

#[test]
fn comments_run_to_the_end_of_the_line() {
    assert_eq!(
        kinds("a // b c\nd"),
        vec![TokenType::Identifier, TokenType::Identifier, TokenType::Eof]
    );
    assert_eq!(scan("a // b c\nd")[1].line_number, 2);
    assert_eq!(kinds("// only"), vec![TokenType::Eof]);
}

#[test]
fn white_space_is_passed_over() {
    assert_eq!(kinds(" \t\r\n"), vec![TokenType::Eof]);
}

#[test]
fn end_marker_has_the_text_read_last() {
    let tokens = scan("print x");
    assert_eq!(tokens[2].token_type, TokenType::Eof);
    assert_eq!(tokens[2].lexeme, "x");
}

#[test]
fn unexpected_character_is_an_error() {
    match Tokens::from_str("a ? b") {
        Ok(_) => panic!("no error"),
        Err(errors) => assert_eq!(errors, vec!["Unexpected charater: ?"]),
    }
}

#[test]
fn unterminated_string_is_an_error() {
    match Tokens::from_str("\"abc") {
        Ok(_) => panic!("no error"),
        Err(errors) => assert_eq!(errors, vec!["unterminated string"]),
    }
}

#[test]
fn number_too_long_is_an_error() {
    let source = "1".repeat(40);
    match Tokens::from_str(&source) {
        Ok(_) => panic!("no error"),
        Err(errors) => assert_eq!(errors, vec![format!("Failed to parse number: {}", source)]),
    }
}

#[test]
fn scanner_starts_at_the_first_line() {
    let scanner = Scanner::new("var a;");
    assert_eq!(scanner.start, 0);
    assert_eq!(scanner.current, 0);
    assert_eq!(scanner.line, 1);
    assert_eq!(scanner.source, vec!['v', 'a', 'r', ' ', 'a', ';']);
}

#[test]
fn scanner_reads_characters_not_bytes() {
    let mut scanner = Scanner::new("\"é\" x");
    let tokens = scanner.scan_tokens().unwrap();
    assert_eq!(tokens[0].lexeme, "\"é\"");
    assert_eq!(tokens[1].lexeme, "x");
}

#[test]
fn token_from_its_parts() {
    let t = Token::new(TokenType::Identifier, "name".to_string(), Literal::Nil, 3);
    assert_eq!(t.token_type, TokenType::Identifier);
    assert_eq!(t.lexeme, "name");
    assert_eq!(t.line_number, 3);
    let copy = t.clone();
    assert_eq!(copy.lexeme, "name");
    assert_eq!(copy.line_number, 3);
}

#[test]
fn the_scanner_is_left_at_the_end_of_the_source() {
    let mut scanner = Scanner::new("var a;\nprint a;");
    scanner.scan_tokens().unwrap();
    assert_eq!(scanner.current, 15);
    assert_eq!(scanner.start, 14);
    assert_eq!(scanner.line, 2);
}

#[test]
fn the_scanner_reads_on_to_the_end_after_an_error() {
    let mut scanner = Scanner::new("a # b\n");
    assert!(scanner.scan_tokens().is_err());
    assert_eq!(scanner.current, 6);
    assert_eq!(scanner.start, 5);
    assert_eq!(scanner.line, 2);
}
