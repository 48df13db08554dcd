//! The lexer: a cursor over a text that hands out one token per call.

use vstd::prelude::*;
use crate::chars::{digit, letter, whitespace, CharClass};
use crate::grammar::{
    char_at, lemma_run_end, lemma_token_at_bounds, run, run_end, token_at, word,
};
use crate::keywords::{keyword, lemma_keyword_table};
use crate::text::{decode, encode};
pub use crate::token::Token;

verus! {

/// The state of a [`Lexer`] in specifications: the text, which never changes,
/// and the index of the character under the cursor. The cursor may stand
/// behind the text, at any distance.
pub struct LexerView {
    pub input: Seq<char>,
    pub position: int,
}

impl LexerView {
    /// The position is an index: it is not negative and fits the machine.
    pub open spec fn in_range(self) -> bool {
        0 <= self.position <= usize::MAX
    }

    /// The character under the cursor; none once the cursor is behind the text.
    pub open spec fn ch(self) -> Option<char> {
        char_at(self.input, self.position)
    }

    /// The index of the next character to read.
    pub open spec fn read_position(self) -> int {
        self.position + 1
    }

    /// The same text with the cursor at `position`.
    pub open spec fn at(self, position: int) -> LexerView {
        LexerView { input: self.input, position }
    }

    /// The state after one step forward: the cursor stands where the next
    /// character to read was, inside the text or behind it. Only at the
    /// largest index that the machine can hold does it stay where it is.
    pub open spec fn advance(self) -> LexerView {
        if self.read_position() <= usize::MAX {
            self.at(self.read_position())
        } else {
            self
        }
    }
}

/// Where the cursor stands: the index of the current character, the index of
/// the next one to read, and the current character itself.
#[derive(Debug)]
struct Cursor {
    position: usize,
    read_position: usize,
    ch: Option<char>,
}

/// A lexer over one text. It owns the decoded text and a cursor, and
/// [`Lexer::next_token`] is its one iteration step.
#[derive(Debug)]
pub struct Lexer {
    input: Vec<char>,
    cursor: Cursor,
}

/// The index behind `position`, held at the largest index where there is none.
spec fn successor(position: usize) -> usize {
    if position < usize::MAX {
        (position + 1) as usize
    } else {
        position
    }
}

impl View for Lexer {
    type V = LexerView;

    closed spec fn view(&self) -> LexerView {
        LexerView { input: self.input@, position: self.cursor.position as int }
    }
}

impl Default for Lexer {
    /// A lexer over the empty text.
    fn default() -> (lexer: Self)
        ensures
            lexer@.input == Seq::<char>::empty(),
            lexer@.position == 0,
    {
        Lexer { input: Vec::new(), cursor: Cursor { position: 0, read_position: 1, ch: None } }
    }
}

impl Lexer {
    /// `read_position` is one behind `position`, and `ch` is the character at
    /// `position`, or none where the text has no character there.
    #[verifier::type_invariant]
    spec fn well_formed(self) -> bool {
        &&& self.cursor.read_position == successor(self.cursor.position)
        &&& self.cursor.ch == char_at(self.input@, self.cursor.position as int)
    }

    /// The length of the text is an index that the machine can hold.
    proof fn lemma_text_fits(&self)
        ensures
            self@.input.len() <= usize::MAX,
    {
        assert(self.input@.len() == self.input.len());
    }

    /// The character at `index`, if the text has one there.
    fn get(&self, index: usize) -> (ch: Option<char>)
        ensures
            ch == char_at(self.input@, index as int),
    {
        if index < self.input.len() {
            Some(self.input[index])
        } else {
            None
        }
    }

    /// The cursor for `position`.
    fn cursor_at(&self, position: usize) -> (cursor: Cursor)
        ensures
            cursor.position == position,
            cursor.read_position == successor(position),
            cursor.ch == char_at(self.input@, position as int),
    {
        let read_position = if position < usize::MAX {
            position + 1
        } else {
            position
        };
        Cursor { position, read_position, ch: self.get(position) }
    }

    /// A lexer over `input`, with the first character already under the
    /// cursor.
    pub fn new(input: String) -> (lexer: Self)
        ensures
            lexer@.input == input@,
            lexer@.position == 0,
            lexer@.in_range(),
    {
        let input = decode(input.as_str());
        let ch = if input.len() > 0 {
            Some(input[0])
        } else {
            None
        };
        Lexer { input, cursor: Cursor { position: 0, read_position: 1, ch } }
    }

    /// Moves the cursor one character forward, onto the next character to
    /// read. Behind the text it moves on all the same, and there is no
    /// current character then.
    pub fn read_char(&mut self)
        ensures
            final(self)@ == old(self)@.advance(),
            final(self)@.in_range(),
    {
        proof {
            use_type_invariant(&*self);
        }
        let cursor = self.cursor_at(self.cursor.read_position);
        self.cursor = cursor;
    }

    /// Moves the cursor one character back.
    pub fn walk_back(&mut self)
        requires
            old(self)@.position > 0,
        ensures
            final(self)@ == old(self)@.at(old(self)@.position - 1),
            final(self)@.in_range(),
    {
        proof {
            use_type_invariant(&*self);
        }
        let cursor = self.cursor_at(self.cursor.position - 1);
        self.cursor = cursor;
    }

    /// The character behind the current one, without moving the cursor.
    pub fn peek(&self) -> (next: Option<char>)
        ensures
            next == char_at(self@.input, self@.read_position()),
            self@.in_range(),
    {
        proof {
            use_type_invariant(self);
            self.lemma_text_fits();
        }
        self.get(self.cursor.read_position)
    }

    /// Tells whether the current character belongs to `class`.
    fn at_class(&self, class: &CharClass) -> (r: bool)
        ensures
            r == (self@.ch() matches Some(c) && class.contains(c)),
            r ==> self@.read_position() <= usize::MAX,
    {
        proof {
            use_type_invariant(self);
            self.lemma_text_fits();
        }
        match self.cursor.ch {
            Some(c) => match class {
                CharClass::Space => whitespace(c),
                CharClass::Letter => letter(c),
                CharClass::Digit => digit(c),
            },
            None => false,
        }
    }

    /// Moves the cursor to the end of the run of `class` that starts under it.
    fn read_run(&mut self, class: &CharClass)
        ensures
            final(self)@ == old(self)@.at(
                run_end(old(self)@.input, old(self)@.position, *class),
            ),
            final(self)@.in_range(),
            old(self)@.position <= final(self)@.position,
    {
        proof {
            use_type_invariant(&*self);
        }
        while self.at_class(class)
            invariant
                self@.input == old(self)@.input,
                old(self)@.position <= self@.position,
                run_end(self@.input, self@.position, *class) == run_end(
                    old(self)@.input,
                    old(self)@.position,
                    *class,
                ),
            decreases self@.input.len() - self@.position,
        {
            self.read_char();
        }
    }

    /// Reads the maximal run of letters and underscores that starts under the
    /// cursor, and leaves the cursor on the first character behind it. Where
    /// no such run starts, and so behind the text, the result is empty and
    /// the cursor stays.
    pub fn read_ident(&mut self) -> (text: String)
        ensures
            final(self)@ == old(self)@.at(
                run_end(old(self)@.input, old(self)@.position, CharClass::Letter),
            ),
            final(self)@.in_range(),
            text@ == run(old(self)@.input, old(self)@.position, CharClass::Letter),
    {
        proof {
            use_type_invariant(&*self);
            lemma_run_end(self@.input, self@.position, CharClass::Letter);
        }
        let start = self.cursor.position;
        self.read_run(&CharClass::Letter);
        if start <= self.input.len() {
            encode(&self.input, start, self.cursor.position)
        } else {
            String::new()
        }
    }

    /// Reads the maximal run of digits that starts under the cursor, and
    /// leaves the cursor on the first character behind it. Where no such run
    /// starts, and so behind the text, the result is empty and the cursor
    /// stays.
    pub fn read_int(&mut self) -> (digits: String)
        ensures
            final(self)@ == old(self)@.at(
                run_end(old(self)@.input, old(self)@.position, CharClass::Digit),
            ),
            final(self)@.in_range(),
            digits@ == run(old(self)@.input, old(self)@.position, CharClass::Digit),
    {
        proof {
            use_type_invariant(&*self);
            lemma_run_end(self@.input, self@.position, CharClass::Digit);
        }
        let start = self.cursor.position;
        self.read_run(&CharClass::Digit);
        if start <= self.input.len() {
            encode(&self.input, start, self.cursor.position)
        } else {
            String::new()
        }
    }

    /// The token of the word `ident`: its keyword token if it is a reserved
    /// word, else an identifier that carries it.
    pub fn lookup_ident(ident: String) -> (token: Token)
        ensures
            token@ == word(ident@),
    {
        match keyword(&decode(ident.as_str())) {
            Some(token) => token,
            None => Token::Ident(ident),
        }
    }

    /// Moves the cursor over the whitespace under and behind it, onto the
    /// first character that is none.
    pub fn skip_whitespace(&mut self)
        ensures
            final(self)@ == old(self)@.at(
                run_end(old(self)@.input, old(self)@.position, CharClass::Space),
            ),
            final(self)@.in_range(),
    {
        self.read_run(&CharClass::Space);
    }

    /// With the cursor on the first character of an operator: `paired` if an
    /// `=` follows, and the cursor then moves onto that `=`; `alone` if not.
    fn operator(&mut self, alone: Token, paired: Token) -> (token: Token)
        ensures
            final(self)@.in_range(),
            char_at(old(self)@.input, old(self)@.position + 1) == Some('=') ==> token == paired
                && final(self)@ == old(self)@.advance(),
            char_at(old(self)@.input, old(self)@.position + 1) != Some('=') ==> token == alone
                && final(self)@ == old(self)@,
    {
        proof {
            use_type_invariant(&*self);
        }
        match self.peek() {
            Some('=') => {
                self.read_char();
                paired
            },
            _ => alone,
        }
    }

    /// Scans the next token and moves the cursor behind it. Once the text is
    /// used up, every call returns `Eof` and the cursor stays where it is.
    pub fn next_token(&mut self) -> (token: Token)
        ensures
            token@ == token_at(old(self)@.input, old(self)@.position).token,
            final(self)@ == old(self)@.at(
                token_at(old(self)@.input, old(self)@.position).end,
            ),
            final(self)@.in_range(),
            token@ is Eof ==> final(self)@.position >= final(self)@.input.len(),
            old(self)@.position >= old(self)@.input.len() ==> token@ is Eof && final(self)@
                == old(self)@,
    {
        proof {
            use_type_invariant(&*self);
            lemma_keyword_table();
            lemma_token_at_bounds(old(self)@.input, old(self)@.position);
        }
        self.skip_whitespace();
        proof {
            use_type_invariant(&*self);
            self.lemma_text_fits();
            lemma_run_end(old(self)@.input, old(self)@.position, CharClass::Space);
        }
        match self.cursor.ch {
            None => Token::Eof,
            Some(c) => {
                let token = match c {
                    '=' => self.operator(Token::Assign, Token::Equal),
                    '+' => Token::Plus,
                    '-' => Token::Minus,
                    '!' => self.operator(Token::Bang, Token::NotEqual),
                    '*' => Token::Asterisk,
                    '/' => Token::Slash,
                    '>' => self.operator(Token::GreaterThan, Token::GreaterEqual),
                    '<' => self.operator(Token::LessThan, Token::LessEqual),
                    ';' => Token::Semicolon,
                    '(' => Token::LParen,
                    ')' => Token::RParen,
                    ',' => Token::Comma,
                    '{' => Token::LBrace,
                    '}' => Token::RBrace,
                    'a'..='z' | 'A'..='Z' | '_' => Self::lookup_ident(self.read_ident()),
                    '0'..='9' => Token::Int(self.read_int()),
                    _ => Token::Illegal,
                };
                if !token.is_ident() {
                    self.read_char();
                }
                token
            },
        }
    }
}

} // verus!
