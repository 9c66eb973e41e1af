//! The scanner on concrete text.
use rlox::report::Place;
use rlox::scanner::{is_alpha, is_alpha_numeric, is_numeric, scan, Scanner};
use rlox::token::{Literal, Token, TokenType};

fn kinds(source: &str) -> Vec<TokenType> {
    scan(source).0.iter().map(|t| t.token_type).collect()
}

fn lexemes(source: &str) -> Vec<String> {
    scan(source).0.iter().map(|t| t.lexeme.clone()).collect()
}

#[test]
fn character_classes() {
    for c in ['0', '5', '9'] {
        assert!(is_numeric(c));
        assert!(is_alpha_numeric(c));
        assert!(!is_alpha(c));
    }
    for c in ['a', 'z', 'A', 'Z', '_', 'm'] {
        assert!(is_alpha(c));
        assert!(is_alpha_numeric(c));
        assert!(!is_numeric(c));
    }
    for c in [' ', '-', '/', ':', '@', '[', '`', '{', '\0', 'é', '٣'] {
        assert!(!is_alpha(c));
        assert!(!is_numeric(c));
        assert!(!is_alpha_numeric(c));
    }
}

#[test]
fn empty_text_gives_the_end_token_only() {
    let (tokens, errors) = scan("");
    assert!(errors.is_empty());
    assert_eq!(tokens.len(), 1);
    assert_eq!(tokens[0].token_type, TokenType::Eof);
    assert_eq!(tokens[0].lexeme, "");
    assert_eq!(tokens[0].line, 1);
    assert_eq!(tokens[0].offset, 0);
    assert!(matches!(tokens[0].literal, Literal::NoneLiteral));
}

#[test]
fn punctuation_and_operators() {
    assert_eq!(
        kinds("(){},.-+;/*"),
        vec![
            TokenType::LeftParen,
            TokenType::RightParen,
            TokenType::LeftBrace,
            TokenType::RightBrace,
            TokenType::Comma,
            TokenType::Dot,
            TokenType::Minus,
            TokenType::Plus,
            TokenType::Semicolon,
            TokenType::Slash,
            TokenType::Star,
            TokenType::Eof,
        ]
    );
    assert_eq!(
        kinds("! != = == < <= > >="),
        vec![
            TokenType::Bang,
            TokenType::BangEqual,
            TokenType::Equal,
            TokenType::EqualEqual,
            TokenType::Less,
            TokenType::LessEqual,
            TokenType::Greater,
            TokenType::GreaterEqual,
            TokenType::Eof,
        ]
    );
    assert_eq!(
        kinds("!===<==>"),
        vec![
            TokenType::BangEqual,
            TokenType::EqualEqual,
            TokenType::LessEqual,
            TokenType::Equal,
            TokenType::Greater,
            TokenType::Eof,
        ]
    );
}

#[test]
fn keywords_and_identifiers() {
    assert_eq!(
        kinds("and class else false for fun if nil or print return super this true var while"),
        vec![
            TokenType::And,
            TokenType::Class,
            TokenType::Else,
            TokenType::False,
            TokenType::For,
            TokenType::Fun,
            TokenType::If,
            TokenType::NilTokenType,
            TokenType::Or,
            TokenType::Print,
            TokenType::Return,
            TokenType::Super,
            TokenType::This,
            TokenType::True,
            TokenType::Var,
            TokenType::While,
            TokenType::Eof,
        ]
    );
    assert_eq!(
        kinds("android _x x1 classy Class nil_ or2"),
        vec![
            TokenType::Identifier,
            TokenType::Identifier,
            TokenType::Identifier,
            TokenType::Identifier,
            TokenType::Identifier,
            TokenType::Identifier,
            TokenType::Identifier,
            TokenType::Eof,
        ]
    );
    assert_eq!(lexemes("android _x x1"), vec!["android", "_x", "x1", ""]);
}

#[test]
fn numbers() {
    let (tokens, errors) = scan("12 3.25 7. .5 1.2.3");
    assert!(errors.is_empty());
    let got: Vec<(TokenType, String)> =
        tokens.iter().map(|t| (t.token_type, t.lexeme.clone())).collect();
    let expected = vec![
        (TokenType::Number, "12"),
        (TokenType::Number, "3.25"),
        (TokenType::Number, "7"),
        (TokenType::Dot, "."),
        (TokenType::Dot, "."),
        (TokenType::Number, "5"),
        (TokenType::Number, "1.2"),
        (TokenType::Dot, "."),
        (TokenType::Number, "3"),
        (TokenType::Eof, ""),
    ];
    assert_eq!(got.len(), expected.len());
    for (g, e) in got.iter().zip(expected.iter()) {
        assert_eq!(g.0, e.0);
        assert_eq!(g.1, e.1);
    }
    assert!(matches!(&tokens[1].literal, Literal::NumberLiteral(text) if text == "3.25"));
    assert!(matches!(&tokens[2].literal, Literal::NumberLiteral(text) if text == "7"));
    assert!(matches!(&tokens[3].literal, Literal::NoneLiteral));
}

#[test]
fn strings_carry_their_text_without_the_quotes() {
    let (tokens, errors) = scan("\"hello\" \"\" \"a\nb\" x");
    assert!(errors.is_empty());
    assert_eq!(tokens.len(), 5);
    assert_eq!(tokens[0].token_type, TokenType::StringToken);
    assert_eq!(tokens[0].lexeme, "\"hello\"");
    assert!(matches!(&tokens[0].literal, Literal::StringLiteral(text) if text == "hello"));
    assert!(matches!(&tokens[1].literal, Literal::StringLiteral(text) if text.is_empty()));
    assert!(matches!(&tokens[2].literal, Literal::StringLiteral(text) if text == "a\nb"));
    assert_eq!(tokens[0].line, 1);
    assert_eq!(tokens[2].line, 2);
    assert_eq!(tokens[3].line, 2);
    assert_eq!(tokens[3].token_type, TokenType::Identifier);
}

#[test]
fn lines_are_counted_from_one() {
    let (tokens, _) = scan("a\nb\r\n\n  c // d\ne");
    let lines: Vec<usize> = tokens.iter().map(|t| t.line).collect();
    assert_eq!(lines, vec![1, 2, 4, 5, 5]);
}

#[test]
fn comments_run_to_the_end_of_the_line() {
    assert_eq!(lexemes("a // b c\n// d\n/ e //"), vec!["a", "/", "e", ""]);
    assert_eq!(kinds("//"), vec![TokenType::Eof]);
}

#[test]
fn stray_characters_are_reported_and_skipped() {
    let (tokens, errors) = scan("a @ b\n# c");
    assert_eq!(lexemes("a @ b\n# c"), vec!["a", "b", "c", ""]);
    assert_eq!(tokens.len(), 4);
    assert_eq!(errors.len(), 2);
    assert_eq!(errors[0].line, 1);
    assert_eq!(errors[0].message, "Unexpected character.");
    assert!(matches!(errors[0].place, Place::Nowhere));
    assert_eq!(errors[1].line, 2);
    assert_eq!(errors[0].render(), "[line 1] Error: Unexpected character.");
    assert_eq!(errors[1].render(), "[line 2] Error: Unexpected character.");
}

#[test]
fn open_string_is_reported_and_gives_no_token() {
    let (tokens, errors) = scan("a \"bc\nd");
    assert_eq!(tokens.len(), 2);
    assert_eq!(tokens[0].lexeme, "a");
    assert_eq!(tokens[1].token_type, TokenType::Eof);
    assert_eq!(tokens[1].line, 2);
    assert_eq!(errors.len(), 1);
    assert_eq!(errors[0].message, "Unterminated string.");
    assert_eq!(errors[0].line, 2);
}

#[test]
fn every_lexeme_lies_at_its_offset() {
    let source = "var añb = \"é\n\"; // c\nprint (a1 >= 2.5) != !x; @";
    let chars: Vec<char> = source.chars().collect();
    let (tokens, _) = scan(source);
    let mut end = 0;
    for token in &tokens {
        let length = token.lexeme.chars().count();
        assert!(end <= token.offset);
        let piece: String = chars[token.offset..token.offset + length].iter().collect();
        assert_eq!(piece, token.lexeme);
        end = token.offset + length;
    }
    assert_eq!(tokens.last().unwrap().offset, chars.len());
}

#[test]
fn tokens_and_gaps_give_the_text_back() {
    let source = "fun f(a, b) {\n  // sum\n  return a+b ; }\n\"s\" 1.5 $ \"open";
    let chars: Vec<char> = source.chars().collect();
    let (tokens, _) = scan(source);
    let mut rebuilt = String::new();
    let mut at = 0;
    for token in &tokens {
        let gap: String = chars[at..token.offset].iter().collect();
        rebuilt.push_str(&gap);
        rebuilt.push_str(&token.lexeme);
        at = token.offset + token.lexeme.chars().count();
    }
    assert_eq!(rebuilt, source);
}

#[test]
fn scanner_in_steps() {
    let mut scanner = Scanner::new("a + 1");
    assert_eq!(scanner.line, 1);
    assert_eq!(scanner.current, 0);
    assert!(scanner.tokens.is_empty());
    scanner.scan_tokens();
    assert_eq!(scanner.tokens.len(), 4);
    assert!(scanner.errors.is_empty());
    assert_eq!(scanner.source_chars.len(), 5);
    assert_eq!(scanner.current, 5);
}

#[test]
fn token_from_its_parts() {
    let token = Token::from(TokenType::Identifier, "abc".to_string(), Literal::NoneLiteral, 3, 7);
    assert_eq!(token.token_type, TokenType::Identifier);
    assert_eq!(token.lexeme, "abc");
    assert_eq!(token.line, 3);
    assert_eq!(token.offset, 7);
    let copy = token.clone();
    assert_eq!(copy.lexeme, "abc");
    assert_eq!(copy.offset, 7);
    let literal = Literal::StringLiteral("x".to_string()).clone();
    assert!(matches!(literal, Literal::StringLiteral(text) if text == "x"));
}
