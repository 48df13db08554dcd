//! The lexical grammar: which token stands at a position of a text.
//!
//! Everything here is specification. A text is a `Seq<char>`, a position is an
//! index into it, and [`token_at`] says which token a scan from a position
//! yields and where the scan ends.

use vstd::prelude::*;
use crate::chars::{is_digit, is_letter, is_whitespace, CharClass};
use crate::keywords::{keywords, lemma_keyword_table};
use crate::token::TokenView;

verus! {

/// The character of `s` at `index`, if there is one.
pub open spec fn char_at(s: Seq<char>, index: int) -> Option<char> {
    if 0 <= index < s.len() {
        Some(s[index])
    } else {
        None
    }
}

/// The end of the maximal run of characters of `class` that starts at `from`:
/// the first index at or behind `from` whose character is not in `class`, or
/// the length of `s` if there is none.
pub open spec fn run_end(s: Seq<char>, from: int, class: CharClass) -> int
    decreases s.len() - from,
{
    if 0 <= from < s.len() && class.contains(s[from]) {
        run_end(s, from + 1, class)
    } else {
        from
    }
}

/// The text of the run of `class` that starts at `from`. Behind the text
/// there is no run, and its text is empty.
pub open spec fn run(s: Seq<char>, from: int, class: CharClass) -> Seq<char> {
    if 0 <= from <= s.len() {
        s.subrange(from, run_end(s, from, class))
    } else {
        Seq::empty()
    }
}

/// The token of the character `c` standing alone.
pub open spec fn single(c: char) -> TokenView {
    if c == '=' {
        TokenView::Assign
    } else if c == '+' {
        TokenView::Plus
    } else if c == '-' {
        TokenView::Minus
    } else if c == '!' {
        TokenView::Bang
    } else if c == '*' {
        TokenView::Asterisk
    } else if c == '/' {
        TokenView::Slash
    } else if c == '<' {
        TokenView::LessThan
    } else if c == '>' {
        TokenView::GreaterThan
    } else if c == ',' {
        TokenView::Comma
    } else if c == ';' {
        TokenView::Semicolon
    } else if c == '(' {
        TokenView::LParen
    } else if c == ')' {
        TokenView::RParen
    } else if c == '{' {
        TokenView::LBrace
    } else if c == '}' {
        TokenView::RBrace
    } else {
        TokenView::Illegal
    }
}

/// The token of the two characters `c` and `=`, where they form an operator.
pub open spec fn compound(c: char) -> Option<TokenView> {
    if c == '=' {
        Some(TokenView::Equal)
    } else if c == '!' {
        Some(TokenView::NotEqual)
    } else if c == '<' {
        Some(TokenView::LessEqual)
    } else if c == '>' {
        Some(TokenView::GreaterEqual)
    } else {
        None
    }
}

/// The token that a word stands for: its keyword token if the keyword table
/// holds the word, an identifier carrying the word otherwise.
pub open spec fn word(w: Seq<char>) -> TokenView {
    if keywords().contains_key(w) {
        keywords()[w]
    } else {
        TokenView::Ident(w)
    }
}

/// The result of one scan: the token found and the position behind it.
pub struct Scan {
    pub token: TokenView,
    pub end: int,
}

/// The scan of `s` from position `pos`.
///
/// Whitespace is skipped first. Where no character is left, at the end of the
/// text or behind it, the token is `Eof` and the scan ends where the
/// whitespace ended. A letter or underscore starts a word, a
/// digit starts an integer literal, each taking the maximal run. One of
/// `= ! < >` directly followed by `=` is a two-character operator. Any other
/// character is a token by itself, `Illegal` if it is not part of the
/// language.
pub open spec fn token_at(s: Seq<char>, pos: int) -> Scan {
    let start = run_end(s, pos, CharClass::Space);
    if start >= s.len() {
        Scan { token: TokenView::Eof, end: start }
    } else if is_letter(s[start]) {
        let end = run_end(s, start, CharClass::Letter);
        Scan { token: word(s.subrange(start, end)), end }
    } else if is_digit(s[start]) {
        let end = run_end(s, start, CharClass::Digit);
        Scan { token: TokenView::Int(s.subrange(start, end)), end }
    } else if start + 1 < s.len() && s[start + 1] == '=' && compound(s[start]) is Some {
        Scan { token: compound(s[start])->0, end: start + 2 }
    } else {
        Scan { token: single(s[start]), end: start + 1 }
    }
}

/// A run that starts inside the text lies inside it, holds only characters of
/// its class, and is maximal: it ends at the end of the text or before a
/// character outside the class. At the end of the text and behind it a run
/// ends where it starts.
pub proof fn lemma_run_end(s: Seq<char>, from: int, class: CharClass)
    requires
        0 <= from,
    ensures
        from <= run_end(s, from, class),
        from <= s.len() ==> run_end(s, from, class) <= s.len(),
        from >= s.len() ==> run_end(s, from, class) == from,
        forall|i: int| from <= i < run_end(s, from, class) ==> class.contains(#[trigger] s[i]),
        run_end(s, from, class) < s.len() ==> !class.contains(s[run_end(s, from, class)]),
    decreases s.len() - from,
{
    if from < s.len() && class.contains(s[from]) {
        lemma_run_end(s, from + 1, class);
    }
}

/// The end of a run is the only position with the properties that
/// [`lemma_run_end`] states.
pub proof fn lemma_run_end_unique(s: Seq<char>, from: int, class: CharClass, end: int)
    requires
        0 <= from <= end <= s.len(),
        forall|i: int| from <= i < end ==> class.contains(#[trigger] s[i]),
        end < s.len() ==> !class.contains(s[end]),
    ensures
        run_end(s, from, class) == end,
    decreases end - from,
{
    if from < end {
        lemma_run_end_unique(s, from + 1, class, end);
    }
}

/// A scan never goes back, and from inside the text it ends inside the text.
/// It yields `Eof` exactly when only whitespace is left, and then ends at the
/// end of the text; behind the text it yields `Eof` and ends where it
/// started. Any other token takes at least one character.
pub proof fn lemma_token_at_bounds(s: Seq<char>, pos: int)
    requires
        0 <= pos,
    ensures
        pos <= token_at(s, pos).end,
        pos <= s.len() ==> token_at(s, pos).end <= s.len(),
        pos >= s.len() ==> token_at(s, pos) == (Scan { token: TokenView::Eof, end: pos }),
        token_at(s, pos).token is Eof <==> run_end(s, pos, CharClass::Space) >= s.len(),
        token_at(s, pos).token is Eof ==> token_at(s, pos).end >= s.len(),
        !(token_at(s, pos).token is Eof) ==> pos < token_at(s, pos).end <= s.len(),
{
    lemma_run_end(s, pos, CharClass::Space);
    let start = run_end(s, pos, CharClass::Space);
    if start < s.len() {
        lemma_run_end(s, start, CharClass::Letter);
        lemma_run_end(s, start, CharClass::Digit);
        lemma_keyword_table();
    }
}

/// Whitespace in front of a token never changes the scan: from any position
/// with nothing but whitespace up to `start`, the scan is the one from `start`.
pub proof fn lemma_leading_whitespace(s: Seq<char>, pos: int, start: int)
    requires
        0 <= pos <= start <= s.len(),
        forall|i: int| pos <= i < start ==> is_whitespace(#[trigger] s[i]),
    ensures
        token_at(s, pos) == token_at(s, start),
{
    lemma_run_end(s, start, CharClass::Space);
    let stop = run_end(s, start, CharClass::Space);
    assert forall|i: int| pos <= i < stop implies CharClass::Space.contains(#[trigger] s[i]) by {
        if i < start {
            assert(is_whitespace(s[i]));
        }
    }
    lemma_run_end_unique(s, pos, CharClass::Space, stop);
}

/// A scan that starts on a letter or underscore takes the maximal run of
/// letters and underscores and nothing else. The token is the keyword token
/// of that run if the keyword table holds it, and otherwise an identifier that
/// carries exactly the run.
pub proof fn lemma_word(s: Seq<char>, pos: int)
    requires
        0 <= pos < s.len(),
        is_letter(s[pos]),
    ensures
        ({
            let end = token_at(s, pos).end;
            let run = s.subrange(pos, end);
            &&& pos < end <= s.len()
            &&& forall|i: int| pos <= i < end ==> is_letter(#[trigger] s[i])
            &&& end < s.len() ==> !is_letter(s[end])
            &&& keywords().contains_key(run) ==> token_at(s, pos).token == keywords()[run]
            &&& !keywords().contains_key(run) ==> token_at(s, pos).token == TokenView::Ident(run)
        }),
{
    lemma_run_end(s, pos, CharClass::Letter);
}

/// A scan that starts on a digit takes the maximal run of digits and nothing
/// else, so neither a sign nor a decimal point is ever part of it. The token
/// is an integer literal that carries exactly the run.
pub proof fn lemma_integer(s: Seq<char>, pos: int)
    requires
        0 <= pos < s.len(),
        is_digit(s[pos]),
    ensures
        ({
            let end = token_at(s, pos).end;
            &&& pos < end <= s.len()
            &&& forall|i: int| pos <= i < end ==> is_digit(#[trigger] s[i])
            &&& end < s.len() ==> !is_digit(s[end])
            &&& token_at(s, pos).token == TokenView::Int(s.subrange(pos, end))
        }),
{
    lemma_run_end(s, pos, CharClass::Digit);
}

/// Two-character operators take priority over their first character: each of
/// `= ! < >` gives the two-character token, and the scan takes both
/// characters, exactly when `=` follows directly; otherwise it gives its
/// one-character token and the scan takes one character.
pub proof fn lemma_operator(s: Seq<char>, pos: int)
    requires
        0 <= pos < s.len(),
    ensures
        ({
            let paired = char_at(s, pos + 1) == Some('=');
            let scan = token_at(s, pos);
            &&& s[pos] == '=' && paired ==> scan == Scan { token: TokenView::Equal, end: pos + 2 }
            &&& s[pos] == '=' && !paired ==> scan == Scan { token: TokenView::Assign, end: pos + 1 }
            &&& s[pos] == '!' && paired ==> scan == Scan {
                token: TokenView::NotEqual,
                end: pos + 2,
            }
            &&& s[pos] == '!' && !paired ==> scan == Scan { token: TokenView::Bang, end: pos + 1 }
            &&& s[pos] == '<' && paired ==> scan == Scan {
                token: TokenView::LessEqual,
                end: pos + 2,
            }
            &&& s[pos] == '<' && !paired ==> scan == Scan {
                token: TokenView::LessThan,
                end: pos + 1,
            }
            &&& s[pos] == '>' && paired ==> scan == Scan {
                token: TokenView::GreaterEqual,
                end: pos + 2,
            }
            &&& s[pos] == '>' && !paired ==> scan == Scan {
                token: TokenView::GreaterThan,
                end: pos + 1,
            }
        }),
{
}

/// A scan yields `Illegal` exactly when it starts, behind the whitespace, on
/// a character that is no letter, no digit and none of the operators and
/// delimiters. It then takes that one character, and the next scan goes on
/// directly behind it.
pub proof fn lemma_illegal(s: Seq<char>, pos: int)
    requires
        0 <= pos,
    ensures
        ({
            let start = run_end(s, pos, CharClass::Space);
            token_at(s, pos).token is Illegal <==> start < s.len() && !is_letter(s[start])
                && !is_digit(s[start]) && single(s[start]) is Illegal
        }),
        token_at(s, pos).token is Illegal ==> token_at(s, pos).end == run_end(
            s,
            pos,
            CharClass::Space,
        ) + 1,
{
    lemma_run_end(s, pos, CharClass::Space);
    lemma_keyword_table();
}

/// The text that a token carries is never empty and is where the scan ended:
/// an identifier carries a maximal run of letters and underscores that is no
/// reserved word, an integer literal a maximal run of digits.
pub proof fn lemma_token_text(s: Seq<char>, pos: int)
    requires
        0 <= pos,
    ensures
        ({
            let scan = token_at(s, pos);
            let start = run_end(s, pos, CharClass::Space);
            &&& scan.token matches TokenView::Ident(text) ==> {
                &&& text.len() > 0
                &&& text == s.subrange(start, scan.end)
                &&& forall|i: int| 0 <= i < text.len() ==> is_letter(#[trigger] text[i])
                &&& !keywords().contains_key(text)
            }
            &&& scan.token matches TokenView::Int(digits) ==> {
                &&& digits.len() > 0
                &&& digits == s.subrange(start, scan.end)
                &&& forall|i: int| 0 <= i < digits.len() ==> is_digit(#[trigger] digits[i])
            }
        }),
{
    lemma_run_end(s, pos, CharClass::Space);
    lemma_keyword_table();
    let start = run_end(s, pos, CharClass::Space);
    if start < s.len() {
        lemma_run_end(s, start, CharClass::Letter);
        lemma_run_end(s, start, CharClass::Digit);
    }
}

} // verus!
