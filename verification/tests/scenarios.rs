use interpreter::stream::tokenize;
use interpreter::{Lexer, Token};

fn word(text: &str) -> Token {
    Token::Ident(text.to_string())
}

fn number(digits: &str) -> Token {
    Token::Int(digits.to_string())
}

fn scan_all(input: &str) -> Vec<Token> {
    let mut lexer = Lexer::new(input.to_string());
    let mut tokens = Vec::new();
    loop {
        let token = lexer.next_token();
        let done = token == Token::Eof;
        tokens.push(token);
        if done {
            return tokens;
        }
    }
}

#[test]
fn punctuation_in_a_row() {
    assert_eq!(
        scan_all("=+(){},;"),
        vec![
            Token::Assign,
            Token::Plus,
            Token::LParen,
            Token::RParen,
            Token::LBrace,
            Token::RBrace,
            Token::Comma,
            Token::Semicolon,
            Token::Eof,
        ]
    );
}

#[test]
fn let_statement() {
    assert_eq!(
        scan_all("let five = 5;"),
        vec![
            Token::Let,
            word("five"),
            Token::Assign,
            number("5"),
            Token::Semicolon,
            Token::Eof,
        ]
    );
}

#[test]
fn comparisons() {
    assert_eq!(
        scan_all("10 == 10; 10 != 9; 10 >= 9; 9 <= 10;"),
        vec![
            number("10"),
            Token::Equal,
            number("10"),
            Token::Semicolon,
            number("10"),
            Token::NotEqual,
            number("9"),
            Token::Semicolon,
            number("10"),
            Token::GreaterEqual,
            number("9"),
            Token::Semicolon,
            number("9"),
            Token::LessEqual,
            number("10"),
            Token::Semicolon,
            Token::Eof,
        ]
    );
}

#[test]
fn unrecognized_character() {
    assert_eq!(scan_all("@"), vec![Token::Illegal, Token::Eof]);
}

#[test]
fn empty_input_is_eof() {
    assert_eq!(scan_all(""), vec![Token::Eof]);
    assert_eq!(tokenize(String::new()), Vec::<Token>::new());
}

#[test]
fn eof_repeats_forever() {
    let mut lexer = Lexer::new("x".to_string());
    assert_eq!(lexer.next_token(), word("x"));
    for _ in 0..100 {
        assert_eq!(lexer.next_token(), Token::Eof);
    }
    assert_eq!(lexer.peek(), None);
    lexer.read_char();
    assert_eq!(lexer.next_token(), Token::Eof);
}

#[test]
fn eof_repeats_after_trailing_whitespace() {
    let mut lexer = Lexer::new("1 \n\t ".to_string());
    assert_eq!(lexer.next_token(), number("1"));
    assert_eq!(lexer.next_token(), Token::Eof);
    assert_eq!(lexer.next_token(), Token::Eof);
    assert_eq!(lexer.next_token(), Token::Eof);
}

#[test]
fn double_equals_is_one_token() {
    assert_eq!(scan_all("=="), vec![Token::Equal, Token::Eof]);
    assert_eq!(scan_all("="), vec![Token::Assign, Token::Eof]);
    assert_eq!(scan_all("= ="), vec![Token::Assign, Token::Assign, Token::Eof]);
    assert_eq!(scan_all("==="), vec![Token::Equal, Token::Assign, Token::Eof]);
    assert_eq!(scan_all("===="), vec![Token::Equal, Token::Equal, Token::Eof]);
    assert_eq!(scan_all("=a"), vec![Token::Assign, word("a"), Token::Eof]);
}

#[test]
fn each_two_character_operator() {
    assert_eq!(scan_all("!="), vec![Token::NotEqual, Token::Eof]);
    assert_eq!(scan_all("<="), vec![Token::LessEqual, Token::Eof]);
    assert_eq!(scan_all(">="), vec![Token::GreaterEqual, Token::Eof]);
    assert_eq!(scan_all("!"), vec![Token::Bang, Token::Eof]);
    assert_eq!(scan_all("<"), vec![Token::LessThan, Token::Eof]);
    assert_eq!(scan_all(">"), vec![Token::GreaterThan, Token::Eof]);
    assert_eq!(scan_all("! ="), vec![Token::Bang, Token::Assign, Token::Eof]);
    assert_eq!(scan_all("<>"), vec![Token::LessThan, Token::GreaterThan, Token::Eof]);
    assert_eq!(scan_all("!=="), vec![Token::NotEqual, Token::Assign, Token::Eof]);
    assert_eq!(scan_all("<=>"), vec![Token::LessEqual, Token::GreaterThan, Token::Eof]);
}

#[test]
fn only_four_characters_pair_with_equals() {
    assert_eq!(scan_all("+="), vec![Token::Plus, Token::Assign, Token::Eof]);
    assert_eq!(scan_all("-="), vec![Token::Minus, Token::Assign, Token::Eof]);
    assert_eq!(scan_all("*="), vec![Token::Asterisk, Token::Assign, Token::Eof]);
    assert_eq!(scan_all("/="), vec![Token::Slash, Token::Assign, Token::Eof]);
    assert_eq!(scan_all("@="), vec![Token::Illegal, Token::Assign, Token::Eof]);
}

#[test]
fn every_single_character_token() {
    assert_eq!(
        scan_all("=+-!*/<>,;(){}"),
        vec![
            Token::Assign,
            Token::Plus,
            Token::Minus,
            Token::Bang,
            Token::Asterisk,
            Token::Slash,
            Token::LessThan,
            Token::GreaterThan,
            Token::Comma,
            Token::Semicolon,
            Token::LParen,
            Token::RParen,
            Token::LBrace,
            Token::RBrace,
            Token::Eof,
        ]
    );
}

#[test]
fn every_keyword() {
    assert_eq!(
        scan_all("fn let true false if else return"),
        vec![
            Token::Function,
            Token::Let,
            Token::True,
            Token::False,
            Token::If,
            Token::Else,
            Token::Return,
            Token::Eof,
        ]
    );
}

#[test]
fn keywords_are_case_sensitive_and_exact() {
    assert_eq!(
        scan_all("Let FN letter fnx el _if return_ i f"),
        vec![
            word("Let"),
            word("FN"),
            word("letter"),
            word("fnx"),
            word("el"),
            word("_if"),
            word("return_"),
            word("i"),
            word("f"),
            Token::Eof,
        ]
    );
}

#[test]
fn identifier_takes_the_whole_run() {
    assert_eq!(scan_all("foo_Bar__baz"), vec![word("foo_Bar__baz"), Token::Eof]);
    assert_eq!(scan_all("_"), vec![word("_"), Token::Eof]);
    assert_eq!(scan_all("azAZ"), vec![word("azAZ"), Token::Eof]);
}

#[test]
fn integer_takes_the_whole_run() {
    assert_eq!(scan_all("0123456789"), vec![number("0123456789"), Token::Eof]);
    assert_eq!(scan_all("007"), vec![number("007"), Token::Eof]);
}

#[test]
fn sign_and_point_are_not_part_of_an_integer() {
    assert_eq!(scan_all("-5"), vec![Token::Minus, number("5"), Token::Eof]);
    assert_eq!(scan_all("+5"), vec![Token::Plus, number("5"), Token::Eof]);
    assert_eq!(scan_all("1.5"), vec![number("1"), Token::Illegal, number("5"), Token::Eof]);
    assert_eq!(scan_all("1_000"), vec![number("1"), word("_"), number("000"), Token::Eof]);
}

#[test]
fn digits_and_letters_end_each_other() {
    assert_eq!(scan_all("12ab"), vec![number("12"), word("ab"), Token::Eof]);
    assert_eq!(scan_all("ab12"), vec![word("ab"), number("12"), Token::Eof]);
    assert_eq!(scan_all("x1y"), vec![word("x"), number("1"), word("y"), Token::Eof]);
    assert_eq!(scan_all("let5"), vec![Token::Let, number("5"), Token::Eof]);
}

#[test]
fn scanning_goes_on_behind_an_illegal_character() {
    assert_eq!(
        scan_all("@a#1$"),
        vec![
            Token::Illegal,
            word("a"),
            Token::Illegal,
            number("1"),
            Token::Illegal,
            Token::Eof,
        ]
    );
    assert_eq!(scan_all("[]"), vec![Token::Illegal, Token::Illegal, Token::Eof]);
    assert_eq!(scan_all("\"a\""), vec![Token::Illegal, word("a"), Token::Illegal, Token::Eof]);
}

#[test]
fn characters_outside_ascii_are_illegal() {
    assert_eq!(scan_all("\u{e9}"), vec![Token::Illegal, Token::Eof]);
    assert_eq!(
        scan_all("\u{65e5}\u{672c}"),
        vec![Token::Illegal, Token::Illegal, Token::Eof]
    );
    assert_eq!(
        scan_all("\u{e9}abc \u{1f600}12"),
        vec![Token::Illegal, word("abc"), Token::Illegal, number("12"), Token::Eof]
    );
    assert_eq!(
        scan_all("na\u{ef}ve"),
        vec![word("na"), Token::Illegal, word("ve"), Token::Eof]
    );
    assert_eq!(scan_all("\u{661}"), vec![Token::Illegal, Token::Eof]);
}

#[test]
fn whitespace_is_no_token() {
    assert_eq!(scan_all("   "), vec![Token::Eof]);
    assert_eq!(scan_all("\n\t\r "), vec![Token::Eof]);
    assert_eq!(scan_all("\u{b}\u{c}\u{85}\u{a0}\u{2003}\u{3000}"), vec![Token::Eof]);
}

#[test]
fn whitespace_does_not_change_the_tokens() {
    let tight = scan_all("let x=5;");
    assert_eq!(scan_all("let x = 5 ;"), tight);
    assert_eq!(scan_all("  let\n\nx\t=\r\n5   ;  "), tight);
    assert_eq!(scan_all("let\u{a0}x\u{2028}=\u{3000}5;"), tight);
    assert_eq!(
        tight,
        vec![
            Token::Let,
            word("x"),
            Token::Assign,
            number("5"),
            Token::Semicolon,
            Token::Eof,
        ]
    );
}

#[test]
fn zero_width_space_is_not_whitespace() {
    assert_eq!(
        scan_all("a\u{200b}b"),
        vec![word("a"), Token::Illegal, word("b"), Token::Eof]
    );
    assert_eq!(scan_all("\u{feff}"), vec![Token::Illegal, Token::Eof]);
}

#[test]
fn whitespace_keeps_texts_apart() {
    let texts = ["", "a", "=", "let x", "1 2", "!", "@", "fn(x){x+1;}", "a ", " b"];
    let gaps = [" ", "\n", "  \t ", "\u{a0}\r\n"];
    for a in texts {
        for b in texts {
            let mut expected = tokenize(a.to_string());
            expected.extend(tokenize(b.to_string()));
            for gap in gaps {
                let joined = format!("{}{}{}", a, gap, b);
                assert_eq!(tokenize(joined), expected);
            }
        }
    }
}

#[test]
fn tokenize_lists_what_next_token_yields() {
    let inputs = ["", "  ", "let five = 5;", "a==b!=c", "@@", "fn(x, y) { x + y; }"];
    for input in inputs {
        let mut expected = scan_all(input);
        assert_eq!(expected.pop(), Some(Token::Eof));
        assert!(!expected.contains(&Token::Eof));
        assert_eq!(tokenize(input.to_string()), expected);
    }
}

#[test]
fn tokenize_a_line() {
    assert_eq!(
        tokenize("if (x < 10) { return true; }\n".to_string()),
        vec![
            Token::If,
            Token::LParen,
            word("x"),
            Token::LessThan,
            number("10"),
            Token::RParen,
            Token::LBrace,
            Token::Return,
            Token::True,
            Token::Semicolon,
            Token::RBrace,
        ]
    );
}

#[test]
fn a_stream_has_at_most_one_token_for_each_character() {
    let inputs = ["", "a", "=+-", "== ==", "let x = 10;", "@\u{e9}@"];
    for input in inputs {
        assert!(tokenize(input.to_string()).len() <= input.chars().count());
    }
}

#[test]
fn whitespace_put_in_between_two_tokens() {
    let tight = tokenize("if(a==b){return 10;}".to_string());
    for spaced in [
        "if (a==b){return 10;}",
        "if( a==b){return 10;}",
        "if(a ==b){return 10;}",
        "if(a== b){return 10;}",
        "if(a==b ){return 10;}",
        "if(a==b) {return 10;}",
        "if(a==b){ return 10;}",
        "if(a==b){return  10;}",
        "if(a==b){return 10 ;}",
        "if(a==b){return 10; }",
        "if(a==b){return 10;} ",
        " if(a==b){return 10;}",
        "if\n(\ta\r==\u{a0}b\u{3000})\n\n{return\u{2003}10;}",
    ] {
        assert_eq!(tokenize(spaced.to_string()), tight);
    }
}

#[test]
fn whitespace_put_into_a_token_parts_it() {
    assert_ne!(tokenize("a= =b".to_string()), tokenize("a==b".to_string()));
    assert_ne!(tokenize("re turn".to_string()), tokenize("return".to_string()));
    assert_ne!(tokenize("1 0".to_string()), tokenize("10".to_string()));
    assert_eq!(
        tokenize("re turn".to_string()),
        vec![Token::Ident("re".to_string()), Token::Ident("turn".to_string())]
    );
}
