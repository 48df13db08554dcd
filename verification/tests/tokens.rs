use interpreter::chars::{digit, letter, whitespace};
use interpreter::keywords::keyword;
use interpreter::text::{decode, encode};
use interpreter::Token;

#[test]
fn keyword_tokens_are_keywords() {
    for token in [
        Token::Function,
        Token::Let,
        Token::True,
        Token::False,
        Token::If,
        Token::Else,
        Token::Return,
    ] {
        assert!(token.is_keyword());
        assert!(token.is_ident());
    }
}

#[test]
fn other_tokens_are_no_keywords() {
    for token in [
        Token::Illegal,
        Token::Eof,
        Token::Ident("fn".to_string()),
        Token::Int("1".to_string()),
        Token::Assign,
        Token::Plus,
        Token::Minus,
        Token::Bang,
        Token::Asterisk,
        Token::Slash,
        Token::LessThan,
        Token::GreaterThan,
        Token::Equal,
        Token::NotEqual,
        Token::LessEqual,
        Token::GreaterEqual,
        Token::Comma,
        Token::Semicolon,
        Token::LParen,
        Token::RParen,
        Token::LBrace,
        Token::RBrace,
    ] {
        assert!(!token.is_keyword());
    }
}

#[test]
fn words_and_numbers_are_idents() {
    assert!(Token::Ident("x".to_string()).is_ident());
    assert!(Token::Int("42".to_string()).is_ident());
    for token in [
        Token::Illegal,
        Token::Eof,
        Token::Assign,
        Token::Plus,
        Token::Minus,
        Token::Bang,
        Token::Asterisk,
        Token::Slash,
        Token::LessThan,
        Token::GreaterThan,
        Token::Equal,
        Token::NotEqual,
        Token::LessEqual,
        Token::GreaterEqual,
        Token::Comma,
        Token::Semicolon,
        Token::LParen,
        Token::RParen,
        Token::LBrace,
        Token::RBrace,
    ] {
        assert!(!token.is_ident());
    }
}

#[test]
fn tokens_compare_by_variant_and_text() {
    assert_eq!(Token::Ident("a".to_string()), Token::Ident("a".to_string()));
    assert_ne!(Token::Ident("a".to_string()), Token::Ident("b".to_string()));
    assert_ne!(Token::Ident("1".to_string()), Token::Int("1".to_string()));
    assert_eq!(Token::Int("1".to_string()), Token::Int("1".to_string()));
    assert_ne!(Token::Int("1".to_string()), Token::Int("01".to_string()));
    assert_ne!(Token::Assign, Token::Equal);
    assert_ne!(Token::Eof, Token::Illegal);
    assert_eq!(Token::Return, Token::Return);
    assert!(Token::Let != Token::Function);
}

#[test]
fn clone_gives_an_equal_token() {
    for token in [
        Token::Illegal,
        Token::Eof,
        Token::Ident("five".to_string()),
        Token::Int("10".to_string()),
        Token::Equal,
        Token::RBrace,
        Token::Function,
        Token::Return,
    ] {
        assert_eq!(token.clone(), token);
    }
}

#[test]
fn tokens_print_like_their_variants() {
    assert_eq!(format!("{:?}", Token::Ident("five".to_string())), "Ident(\"five\")");
    assert_eq!(format!("{:?}", Token::Int("5".to_string())), "Int(\"5\")");
    assert_eq!(format!("{:?}", Token::Eof), "Eof");
    assert_eq!(format!("{:?}", Token::GreaterEqual), "GreaterEqual");
}

#[test]
fn whitespace_is_what_the_standard_library_says() {
    for code in 0..=0x10ffff_u32 {
        if let Some(c) = char::from_u32(code) {
            assert_eq!(whitespace(c), c.is_whitespace(), "U+{:04X}", code);
        }
    }
}

#[test]
fn letters_are_ascii_letters_and_underscore() {
    for code in 0..=0x10ffff_u32 {
        if let Some(c) = char::from_u32(code) {
            assert_eq!(letter(c), c.is_ascii_alphabetic() || c == '_', "U+{:04X}", code);
        }
    }
}

#[test]
fn digits_are_ascii_digits() {
    for code in 0..=0x10ffff_u32 {
        if let Some(c) = char::from_u32(code) {
            assert_eq!(digit(c), c.is_ascii_digit(), "U+{:04X}", code);
        }
    }
}

#[test]
fn keyword_lookup_is_exact() {
    let chars = |word: &str| word.chars().collect::<Vec<char>>();
    assert_eq!(keyword(&chars("fn")), Some(Token::Function));
    assert_eq!(keyword(&chars("let")), Some(Token::Let));
    assert_eq!(keyword(&chars("true")), Some(Token::True));
    assert_eq!(keyword(&chars("false")), Some(Token::False));
    assert_eq!(keyword(&chars("if")), Some(Token::If));
    assert_eq!(keyword(&chars("else")), Some(Token::Else));
    assert_eq!(keyword(&chars("return")), Some(Token::Return));
    for word in ["", "f", "n", "nf", "fn ", " fn", "FN", "iF", "tru", "truee", "falsy", "returnn"] {
        assert_eq!(keyword(&chars(word)), None);
    }
}

#[test]
fn decode_lists_the_characters() {
    assert_eq!(decode(""), Vec::<char>::new());
    assert_eq!(decode("abc"), vec!['a', 'b', 'c']);
    assert_eq!(decode("a\u{e9}\u{1f600}"), vec!['a', '\u{e9}', '\u{1f600}']);
}

#[test]
fn encode_spells_a_slice() {
    let chars = vec!['l', 'e', 't', ' ', '\u{e9}', 'x'];
    assert_eq!(encode(&chars, 0, 3), "let");
    assert_eq!(encode(&chars, 3, 6), " \u{e9}x");
    assert_eq!(encode(&chars, 2, 2), "");
    assert_eq!(encode(&chars, 0, 6), "let \u{e9}x");
    assert_eq!(encode(&chars, 6, 6), "");
}
