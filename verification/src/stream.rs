//! The token stream of a whole text.

use vstd::prelude::*;
use crate::chars::{is_digit, is_letter, is_whitespace, CharClass};
use crate::grammar::{
    lemma_leading_whitespace, lemma_run_end, lemma_run_end_unique, lemma_token_at_bounds, run_end,
    token_at, Scan,
};
use crate::lexer::Lexer;
use crate::token::{Token, TokenView};

verus! {

/// The tokens of `s` from position `pos` on, up to the end of the text. The
/// closing `Eof` is not part of the sequence. Behind the text there are none.
pub open spec fn token_stream(s: Seq<char>, pos: int) -> Seq<TokenView>
    decreases s.len() - pos,
    when 0 <= pos
    via token_stream_decreases
{
    let scan = token_at(s, pos);
    if scan.token is Eof {
        Seq::empty()
    } else {
        seq![scan.token] + token_stream(s, scan.end)
    }
}

#[via_fn]
proof fn token_stream_decreases(s: Seq<char>, pos: int) {
    lemma_token_at_bounds(s, pos);
}

/// The position of the cursor after `n` scans of `s`, the first from `pos`.
pub open spec fn cursor_after(s: Seq<char>, pos: int, n: nat) -> int
    decreases n,
{
    if n == 0 {
        pos
    } else {
        token_at(s, cursor_after(s, pos, (n - 1) as nat)).end
    }
}

/// The token that scan number `n` of `s` yields, counting from 0 and starting
/// at the beginning of the text: what call number `n` of
/// [`Lexer::next_token`] returns.
pub open spec fn nth_token(s: Seq<char>, n: nat) -> TokenView {
    token_at(s, cursor_after(s, 0, n)).token
}

/// A text of nothing but whitespace.
pub open spec fn all_whitespace(s: Seq<char>) -> bool {
    forall|i: int| 0 <= i < s.len() ==> is_whitespace(#[trigger] s[i])
}

/// The views of a sequence of tokens.
pub open spec fn views(tokens: Seq<Token>) -> Seq<TokenView> {
    tokens.map_values(|token: Token| token@)
}

/// All tokens of `line`, in order, without the closing `Eof`.
pub fn tokenize(line: String) -> (tokens: Vec<Token>)
    ensures
        views(tokens@) == token_stream(line@, 0),
{
    let mut lexer = Lexer::new(line);
    let mut tokens: Vec<Token> = Vec::new();
    loop
        invariant
            lexer@.input == line@,
            0 <= lexer@.position <= line@.len(),
            views(tokens@) + token_stream(line@, lexer@.position) == token_stream(line@, 0),
        ensures
            views(tokens@) == token_stream(line@, 0),
        decreases line@.len() - lexer@.position,
    {
        proof {
            lemma_token_at_bounds(line@, lexer@.position);
        }
        let token = lexer.next_token();
        if token == Token::Eof {
            break ;
        }
        tokens.push(token);
    }
    tokens
}

/// Once a scan has yielded `Eof` the cursor is at the end of the text or
/// behind it, and a scan from there yields `Eof` again and leaves the cursor
/// where it is.
pub proof fn lemma_eof_repeats(s: Seq<char>, pos: int)
    requires
        0 <= pos,
        token_at(s, pos).token is Eof,
    ensures
        token_at(s, pos).end >= s.len(),
        pos <= s.len() ==> token_at(s, pos).end == s.len(),
        token_at(s, token_at(s, pos).end) == (Scan {
            token: TokenView::Eof,
            end: token_at(s, pos).end,
        }),
{
    lemma_token_at_bounds(s, pos);
    lemma_run_end(s, pos, CharClass::Space);
    lemma_token_at_bounds(s, token_at(s, pos).end);
}

/// Scans never move the cursor back, and never out of the text.
pub proof fn lemma_cursor_after_bounds(s: Seq<char>, pos: int, n: nat)
    requires
        0 <= pos,
    ensures
        pos <= cursor_after(s, pos, n),
        pos <= s.len() ==> cursor_after(s, pos, n) <= s.len(),
    decreases n,
{
    if n > 0 {
        lemma_cursor_after_bounds(s, pos, (n - 1) as nat);
        lemma_token_at_bounds(s, cursor_after(s, pos, (n - 1) as nat));
    }
}

/// `n + 1` scans from `pos` are one scan from `pos` and then `n` scans from
/// where it ended.
proof fn lemma_cursor_after_first(s: Seq<char>, pos: int, n: nat)
    ensures
        cursor_after(s, pos, n + 1) == cursor_after(s, token_at(s, pos).end, n),
    decreases n,
{
    if n > 0 {
        lemma_cursor_after_first(s, pos, (n - 1) as nat);
    } else {
        assert(cursor_after(s, pos, 0) == pos);
    }
}

/// A stream has at most as many tokens as there are characters left.
pub proof fn lemma_stream_len(s: Seq<char>, pos: int)
    requires
        0 <= pos <= s.len(),
    ensures
        token_stream(s, pos).len() <= s.len() - pos,
    decreases s.len() - pos,
{
    lemma_token_at_bounds(s, pos);
    if !(token_at(s, pos).token is Eof) {
        lemma_stream_len(s, token_at(s, pos).end);
    }
}

/// The stream from `pos` lists what the successive scans from `pos` yield:
/// scan number `n` yields its element `n`, which is not `Eof`, as long as
/// there is one, and `Eof` from then on.
pub proof fn lemma_stream_lists_scans(s: Seq<char>, pos: int, n: nat)
    requires
        0 <= pos,
    ensures
        n < token_stream(s, pos).len() ==> token_at(s, cursor_after(s, pos, n)).token
            == token_stream(s, pos)[n as int] && !(token_stream(s, pos)[n as int] is Eof),
        n >= token_stream(s, pos).len() ==> token_at(s, cursor_after(s, pos, n)).token is Eof,
    decreases n,
{
    lemma_token_at_bounds(s, pos);
    let scan = token_at(s, pos);
    if n == 0 {
    } else if scan.token is Eof {
        lemma_eof_stays(s, pos, (n - 1) as nat);
    } else {
        lemma_cursor_after_first(s, pos, (n - 1) as nat);
        lemma_stream_lists_scans(s, scan.end, (n - 1) as nat);
    }
}

/// After an `Eof` all further scans yield `Eof`.
proof fn lemma_eof_stays(s: Seq<char>, pos: int, n: nat)
    requires
        0 <= pos,
        token_at(s, pos).token is Eof,
    ensures
        token_at(s, cursor_after(s, pos, n)).token is Eof,
        token_at(s, cursor_after(s, pos, n + 1)).token is Eof,
    decreases n,
{
    lemma_eof_repeats(s, pos);
    if n > 0 {
        lemma_eof_stays(s, pos, (n - 1) as nat);
    }
    lemma_cursor_after_bounds(s, pos, n);
    lemma_eof_repeats(s, cursor_after(s, pos, n));
}

/// The scans of a text from its beginning end in `Eof`: they yield the tokens
/// of its stream, none of them `Eof` and at most one for each character, and
/// from then on every scan yields `Eof`.
pub proof fn lemma_stream_ends_in_eof(s: Seq<char>)
    ensures
        token_stream(s, 0).len() <= s.len(),
        forall|n: nat|
            n < token_stream(s, 0).len() ==> #[trigger] nth_token(s, n) == token_stream(s, 0)[n as int]
                && !(nth_token(s, n) is Eof),
        forall|n: nat| n >= token_stream(s, 0).len() ==> #[trigger] nth_token(s, n) is Eof,
{
    lemma_stream_len(s, 0);
    assert forall|n: nat| true implies (n < token_stream(s, 0).len() ==> #[trigger] nth_token(s, n)
        == token_stream(s, 0)[n as int] && !(nth_token(s, n) is Eof)) && (n >= token_stream(
        s,
        0,
    ).len() ==> nth_token(s, n) is Eof) by {
        lemma_stream_lists_scans(s, 0, n);
    }
}

/// In a text that continues, a run ends where it ends in the text alone,
/// unless it reaches the end of the text and the continuation begins with a
/// character of its class.
proof fn lemma_run_end_prefix(a: Seq<char>, rest: Seq<char>, from: int, class: CharClass)
    requires
        0 <= from <= a.len(),
        run_end(a, from, class) < a.len() || rest.len() == 0 || !class.contains(rest[0]),
    ensures
        run_end(a + rest, from, class) == run_end(a, from, class),
{
    lemma_run_end(a, from, class);
    let end = run_end(a, from, class);
    lemma_run_end_unique(a + rest, from, class, end);
}

/// Behind a prefix, a run ends where it ends in the text alone, moved by the
/// length of the prefix.
proof fn lemma_run_end_suffix(prefix: Seq<char>, b: Seq<char>, from: int, class: CharClass)
    requires
        0 <= from <= b.len(),
    ensures
        run_end(prefix + b, prefix.len() + from, class) == prefix.len() + run_end(b, from, class),
{
    lemma_run_end(b, from, class);
    let end = run_end(b, from, class);
    let n = prefix.len() as int;
    lemma_run_end_unique(prefix + b, n + from, class, n + end);
}

/// A token that starts inside a text is the same in every continuation of the
/// text that begins with whitespace.
proof fn lemma_token_at_prefix(a: Seq<char>, rest: Seq<char>, pos: int)
    requires
        0 <= pos <= a.len(),
        !(token_at(a, pos).token is Eof),
        rest.len() > 0 ==> is_whitespace(rest[0]),
    ensures
        token_at(a + rest, pos) == token_at(a, pos),
{
    lemma_token_at_bounds(a, pos);
    lemma_run_end(a, pos, CharClass::Space);
    lemma_run_end_prefix(a, rest, pos, CharClass::Space);
    let start = run_end(a, pos, CharClass::Space);
    lemma_run_end(a, start, CharClass::Letter);
    lemma_run_end(a, start, CharClass::Digit);
    lemma_run_end_prefix(a, rest, start, CharClass::Letter);
    lemma_run_end_prefix(a, rest, start, CharClass::Digit);
    let letters = run_end(a, start, CharClass::Letter);
    let digits = run_end(a, start, CharClass::Digit);
    assert((a + rest).subrange(start, letters) == a.subrange(start, letters));
    assert((a + rest).subrange(start, digits) == a.subrange(start, digits));
}

/// Behind a prefix, the scans are those of the text alone, moved by the
/// length of the prefix.
proof fn lemma_token_at_suffix(prefix: Seq<char>, b: Seq<char>, pos: int)
    requires
        0 <= pos <= b.len(),
    ensures
        token_at(prefix + b, prefix.len() + pos) == (Scan {
            token: token_at(b, pos).token,
            end: prefix.len() + token_at(b, pos).end,
        }),
{
    let n = prefix.len() as int;
    lemma_run_end(b, pos, CharClass::Space);
    lemma_run_end_suffix(prefix, b, pos, CharClass::Space);
    let start = run_end(b, pos, CharClass::Space);
    if start < b.len() {
        lemma_run_end(b, start, CharClass::Letter);
        lemma_run_end(b, start, CharClass::Digit);
        lemma_run_end_suffix(prefix, b, start, CharClass::Letter);
        lemma_run_end_suffix(prefix, b, start, CharClass::Digit);
        let letters = run_end(b, start, CharClass::Letter);
        let digits = run_end(b, start, CharClass::Digit);
        assert((prefix + b).subrange(n + start, n + letters) == b.subrange(start, letters));
        assert((prefix + b).subrange(n + start, n + digits) == b.subrange(start, digits));
    }
}

/// Behind a prefix, the stream is that of the text alone.
proof fn lemma_stream_suffix(prefix: Seq<char>, b: Seq<char>, pos: int)
    requires
        0 <= pos <= b.len(),
    ensures
        token_stream(prefix + b, prefix.len() + pos) == token_stream(b, pos),
    decreases b.len() - pos,
{
    lemma_token_at_suffix(prefix, b, pos);
    lemma_token_at_bounds(b, pos);
    if !(token_at(b, pos).token is Eof) {
        lemma_stream_suffix(prefix, b, token_at(b, pos).end);
    }
}

/// Whitespace in front of the cursor adds no token to the stream.
pub proof fn lemma_stream_leading_whitespace(s: Seq<char>, pos: int, start: int)
    requires
        0 <= pos <= start <= s.len(),
        forall|i: int| pos <= i < start ==> is_whitespace(#[trigger] s[i]),
    ensures
        token_stream(s, pos) == token_stream(s, start),
{
    lemma_leading_whitespace(s, pos, start);
}

/// The stream of `a`, whitespace, `b` from a position in `a` is the stream of
/// `a` from there, followed by the stream of `b`.
proof fn lemma_separates_from(a: Seq<char>, ws: Seq<char>, b: Seq<char>, pos: int)
    requires
        0 <= pos <= a.len(),
        ws.len() > 0,
        all_whitespace(ws),
    ensures
        token_stream(a + (ws + b), pos) == token_stream(a, pos) + token_stream(b, 0),
    decreases a.len() - pos,
{
    let whole = a + (ws + b);
    lemma_token_at_bounds(a, pos);
    if token_at(a, pos).token is Eof {
        lemma_run_end(a, pos, CharClass::Space);
        let gap = (a.len() + ws.len()) as int;
        assert forall|i: int| pos <= i < gap implies is_whitespace(#[trigger] whole[i]) by {
            if i < a.len() {
                assert(whole[i] == a[i]);
            } else {
                assert(whole[i] == ws[i - a.len()]);
            }
        }
        lemma_stream_leading_whitespace(whole, pos, gap);
        assert(whole == (a + ws) + b);
        lemma_stream_suffix(a + ws, b, 0);
    } else {
        lemma_token_at_prefix(a, ws + b, pos);
        lemma_separates_from(a, ws, b, token_at(a, pos).end);
        assert(seq![token_at(a, pos).token] + (token_stream(a, token_at(a, pos).end)
            + token_stream(b, 0)) == (seq![token_at(a, pos).token] + token_stream(
            a,
            token_at(a, pos).end,
        )) + token_stream(b, 0));
    }
}

/// Whitespace between two texts keeps their tokens apart and is no token
/// itself: the tokens of `a`, whitespace and `b` in a row are the tokens of
/// `a` followed by the tokens of `b`.
pub proof fn lemma_whitespace_separates(a: Seq<char>, ws: Seq<char>, b: Seq<char>)
    requires
        ws.len() > 0,
        all_whitespace(ws),
    ensures
        token_stream(a + ws + b, 0) == token_stream(a, 0) + token_stream(b, 0),
{
    assert(a + ws + b == a + (ws + b));
    lemma_separates_from(a, ws, b, 0);
}

/// How much whitespace stands between two texts, and which, makes no
/// difference to the tokens.
pub proof fn lemma_whitespace_amount(a: Seq<char>, ws1: Seq<char>, ws2: Seq<char>, b: Seq<char>)
    requires
        ws1.len() > 0,
        ws2.len() > 0,
        all_whitespace(ws1),
        all_whitespace(ws2),
    ensures
        token_stream(a + ws1 + b, 0) == token_stream(a + ws2 + b, 0),
{
    lemma_whitespace_separates(a, ws1, b);
    lemma_whitespace_separates(a, ws2, b);
}

/// A token that ends inside the first part of a text is the token of that
/// part alone.
proof fn lemma_token_at_cut(a: Seq<char>, b: Seq<char>, pos: int)
    requires
        0 <= pos <= a.len(),
        !(token_at(a + b, pos).token is Eof),
        token_at(a + b, pos).end <= a.len(),
    ensures
        token_at(a, pos) == token_at(a + b, pos),
{
    let s = a + b;
    lemma_token_at_bounds(s, pos);
    lemma_run_end(s, pos, CharClass::Space);
    let start = run_end(s, pos, CharClass::Space);
    lemma_run_end(s, start, CharClass::Letter);
    lemma_run_end(s, start, CharClass::Digit);
    assert(start < a.len());
    assert forall|i: int| 0 <= i < a.len() implies a[i] == s[i] by {}
    lemma_run_end_unique(a, pos, CharClass::Space, start);
    if is_letter(s[start]) {
        let end = run_end(s, start, CharClass::Letter);
        lemma_run_end_unique(a, start, CharClass::Letter, end);
        assert(a.subrange(start, end) == s.subrange(start, end));
    } else if is_digit(s[start]) {
        let end = run_end(s, start, CharClass::Digit);
        lemma_run_end_unique(a, start, CharClass::Digit, end);
        assert(a.subrange(start, end) == s.subrange(start, end));
    }
}

/// Whitespace put in where only whitespace is left of the first part changes
/// no token from there on.
proof fn lemma_inserted_in_whitespace(a: Seq<char>, ws: Seq<char>, b: Seq<char>, pos: int)
    requires
        0 <= pos <= a.len(),
        all_whitespace(ws),
        forall|i: int| pos <= i < a.len() ==> is_whitespace(#[trigger] a[i]),
    ensures
        token_stream(a + ws + b, pos) == token_stream(a + b, pos),
{
    let s = a + b;
    let t = a + ws + b;
    assert forall|i: int| pos <= i < a.len() implies is_whitespace(#[trigger] s[i]) by {
        assert(s[i] == a[i]);
    }
    lemma_stream_leading_whitespace(s, pos, a.len() as int);
    lemma_stream_suffix(a, b, 0);
    let gap = (a.len() + ws.len()) as int;
    assert forall|i: int| pos <= i < gap implies is_whitespace(#[trigger] t[i]) by {
        if i < a.len() {
            assert(t[i] == a[i]);
        } else {
            assert(t[i] == ws[i - a.len()]);
        }
    }
    lemma_stream_leading_whitespace(t, pos, gap);
    lemma_stream_suffix(a + ws, b, 0);
}

/// Whitespace put in behind the scan number `n` from `pos` changes no token
/// from `pos` on.
proof fn lemma_inserted_from(a: Seq<char>, ws: Seq<char>, b: Seq<char>, pos: int, n: nat)
    requires
        0 <= pos <= a.len(),
        ws.len() > 0,
        all_whitespace(ws),
        cursor_after(a + b, pos, n) <= a.len(),
        forall|i: int|
            cursor_after(a + b, pos, n) <= i < a.len() ==> is_whitespace(#[trigger] a[i]),
    ensures
        token_stream(a + ws + b, pos) == token_stream(a + b, pos),
    decreases n,
{
    let s = a + b;
    let t = a + ws + b;
    if n == 0 {
        lemma_inserted_in_whitespace(a, ws, b, pos);
    } else {
        let scan = token_at(s, pos);
        lemma_token_at_bounds(s, pos);
        lemma_cursor_after_first(s, pos, (n - 1) as nat);
        lemma_cursor_after_bounds(s, scan.end, (n - 1) as nat);
        if scan.token is Eof {
            lemma_run_end(s, pos, CharClass::Space);
            assert forall|i: int| pos <= i < a.len() implies is_whitespace(#[trigger] a[i]) by {
                assert(CharClass::Space.contains(s[i]));
            }
            lemma_inserted_in_whitespace(a, ws, b, pos);
        } else {
            lemma_token_at_cut(a, b, pos);
            assert(t == a + (ws + b));
            lemma_token_at_prefix(a, ws + b, pos);
            lemma_inserted_from(a, ws, b, scan.end, (n - 1) as nat);
        }
    }
}

/// Whitespace put into a text where a token has ended, or into the whitespace
/// behind that token, changes no token: neither those in front of it nor
/// those behind it. The place is given as the end of the first part `a` of
/// the text, which the scan number `n` has reached but for whitespace.
pub proof fn lemma_whitespace_inserted(a: Seq<char>, ws: Seq<char>, b: Seq<char>, n: nat)
    requires
        all_whitespace(ws),
        cursor_after(a + b, 0, n) <= a.len(),
        forall|i: int|
            cursor_after(a + b, 0, n) <= i < a.len() ==> is_whitespace(#[trigger] a[i]),
    ensures
        token_stream(a + ws + b, 0) == token_stream(a + b, 0),
{
    if ws.len() > 0 {
        lemma_inserted_from(a, ws, b, 0, n);
    } else {
        assert(a + ws + b == a + b);
    }
}

/// Whitespace in front of a text and behind it adds no token.
pub proof fn lemma_whitespace_around(ws1: Seq<char>, b: Seq<char>, ws2: Seq<char>)
    requires
        all_whitespace(ws1),
        all_whitespace(ws2),
    ensures
        token_stream(ws1 + b + ws2, 0) == token_stream(b, 0),
{
    let whole = ws1 + b + ws2;
    assert(whole == ws1 + (b + ws2));
    assert forall|i: int| 0 <= i < ws1.len() implies is_whitespace(#[trigger] whole[i]) by {
        assert(whole[i] == ws1[i]);
    }
    lemma_stream_leading_whitespace(whole, 0, ws1.len() as int);
    lemma_stream_suffix(ws1, b + ws2, 0);
    if ws2.len() > 0 {
        lemma_whitespace_separates(b, ws2, Seq::<char>::empty());
        lemma_token_at_bounds(Seq::<char>::empty(), 0);
    } else {
        assert(b + ws2 == b);
    }
}

} // verus!
