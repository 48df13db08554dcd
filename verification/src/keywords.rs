//! The keyword table: the reserved words and their tokens.

use vstd::prelude::*;
use vstd::std_specs::iter::IteratorSpec;
use crate::chars::is_letter;
use crate::token::{Token, TokenView};

verus! {

/// The keyword table: each reserved word, spelled exactly, with its token.
pub open spec fn keywords() -> Map<Seq<char>, TokenView> {
    map![
        "fn"@ => TokenView::Function,
        "let"@ => TokenView::Let,
        "true"@ => TokenView::True,
        "false"@ => TokenView::False,
        "if"@ => TokenView::If,
        "else"@ => TokenView::Else,
        "return"@ => TokenView::Return,
    ]
}

/// The table holds exactly the seven reserved words, each with its own token.
pub proof fn lemma_keyword_table()
    ensures
        forall|w: Seq<char>| #[trigger]
            keywords().contains_key(w) <==> (w == "fn"@ || w == "let"@ || w == "true"@ || w
                == "false"@ || w == "if"@ || w == "else"@ || w == "return"@),
        keywords()["fn"@] == TokenView::Function,
        keywords()["let"@] == TokenView::Let,
        keywords()["true"@] == TokenView::True,
        keywords()["false"@] == TokenView::False,
        keywords()["if"@] == TokenView::If,
        keywords()["else"@] == TokenView::Else,
        keywords()["return"@] == TokenView::Return,
        forall|w: Seq<char>| #[trigger]
            keywords().contains_key(w) ==> keywords()[w].is_keyword(),
{
    reveal_strlit("fn");
    reveal_strlit("let");
    reveal_strlit("true");
    reveal_strlit("false");
    reveal_strlit("if");
    reveal_strlit("else");
    reveal_strlit("return");
    assert("false"@.len() == 5 && "return"@.len() == 6);
    assert("fn"@[0] == 'f' && "if"@[0] == 'i');
    assert("true"@[0] == 't' && "else"@[0] == 'e');
}

/// The keyword tokens are the tokens of the table, and no others.
pub proof fn lemma_keyword_tokens(token: TokenView)
    ensures
        token.is_keyword() <==> exists|w: Seq<char>| #[trigger]
            keywords().contains_key(w) && keywords()[w] == token,
{
    lemma_keyword_table();
    if token.is_keyword() {
        let w = if token is Function {
            "fn"@
        } else if token is Let {
            "let"@
        } else if token is True {
            "true"@
        } else if token is False {
            "false"@
        } else if token is If {
            "if"@
        } else if token is Else {
            "else"@
        } else {
            "return"@
        };
        assert(keywords().contains_key(w) && keywords()[w] == token);
    }
}

/// Every reserved word is a run of letters, so a scan can yield it.
pub proof fn lemma_keywords_are_words(w: Seq<char>)
    requires
        keywords().contains_key(w),
    ensures
        w.len() > 0,
        forall|i: int| 0 <= i < w.len() ==> is_letter(#[trigger] w[i]),
{
    lemma_keyword_table();
    reveal_strlit("fn");
    reveal_strlit("let");
    reveal_strlit("true");
    reveal_strlit("false");
    reveal_strlit("if");
    reveal_strlit("else");
    reveal_strlit("return");
}

/// Tells whether `word` is spelled exactly as `spelling`, character by
/// character and in the same case.
fn spells(word: &Vec<char>, spelling: &str) -> (r: bool)
    ensures
        r == (word@ == spelling@),
{
    let mut matched: usize = 0;
    let mut same = true;
    for c in it: spelling.chars()
        invariant
            it.seq() == spelling@,
            same ==> matched == it.index() && matched <= word.len() && word@.take(matched as int)
                == spelling@.take(matched as int),
            !same ==> word@ != spelling@,
    {
        if same {
            if matched < word.len() && word[matched] == c {
                matched += 1;
            } else {
                same = false;
            }
        }
    }
    proof {
        if same {
            assert(spelling@.take(matched as int) == spelling@);
            if matched == word.len() {
                assert(word@.take(matched as int) == word@);
            }
        }
    }
    same && matched == word.len()
}

/// Looks `word` up in the keyword table.
pub fn keyword(word: &Vec<char>) -> (r: Option<Token>)
    ensures
        r is Some <==> keywords().contains_key(word@),
        r matches Some(token) ==> token@ == keywords()[word@],
{
    proof {
        lemma_keyword_table();
    }
    if spells(word, "fn") {
        Some(Token::Function)
    } else if spells(word, "let") {
        Some(Token::Let)
    } else if spells(word, "true") {
        Some(Token::True)
    } else if spells(word, "false") {
        Some(Token::False)
    } else if spells(word, "if") {
        Some(Token::If)
    } else if spells(word, "else") {
        Some(Token::Else)
    } else if spells(word, "return") {
        Some(Token::Return)
    } else {
        None
    }
}

} // verus!
