use vstd::prelude::*;

use crate::chars::{classified, classify, string_of, texts, CharInfo};
use crate::token::{Token, TokenKind};
use itertools::Itertools;

verus! {

/// What a token is, without its executable representation: a kind and a text.
pub type TokenView = (TokenKind, Seq<char>);

/// The kind of the characters that always make a token of their own.
pub open spec fn single_kind(c: char) -> Option<TokenKind> {
    if c == '$' {
        Some(TokenKind::Dollar)
    } else if c == ';' {
        Some(TokenKind::Semicolon)
    } else if c == '(' {
        Some(TokenKind::LParen)
    } else if c == ')' {
        Some(TokenKind::RParen)
    } else if c == '{' {
        Some(TokenKind::LCurly)
    } else if c == '}' {
        Some(TokenKind::RCurly)
    } else if c == '[' {
        Some(TokenKind::LSquare)
    } else if c == ']' {
        Some(TokenKind::RSquare)
    } else {
        None
    }
}

/// For a seed character of an operator that may take a second character:
/// the partner character, the kind of the seed alone, and the kind of the pair.
pub open spec fn pair_rule(c: char) -> Option<(char, TokenKind, TokenKind)> {
    if c == '=' {
        Some(('=', TokenKind::Assign, TokenKind::Equality))
    } else if c == '!' {
        Some(('=', TokenKind::LogicalNot, TokenKind::Inequality))
    } else if c == '|' {
        Some(('|', TokenKind::Pipe, TokenKind::LogicalOr))
    } else if c == '&' {
        Some(('&', TokenKind::Ampersand, TokenKind::LogicalAnd))
    } else if c == '>' {
        Some(('>', TokenKind::Redirect, TokenKind::CatRedirect))
    } else {
        None
    }
}

/// The keyword `while`.
pub open spec fn kw_while() -> Seq<char> {
    seq!['w', 'h', 'i', 'l', 'e']
}

/// The keyword `for`.
pub open spec fn kw_for() -> Seq<char> {
    seq!['f', 'o', 'r']
}

/// The keyword `if`.
pub open spec fn kw_if() -> Seq<char> {
    seq!['i', 'f']
}

/// The keyword `elif`.
pub open spec fn kw_elif() -> Seq<char> {
    seq!['e', 'l', 'i', 'f']
}

/// The keyword `else`.
pub open spec fn kw_else() -> Seq<char> {
    seq!['e', 'l', 's', 'e']
}

/// The kind of an alphanumeric run: a keyword when it spells one exactly, else a word.
pub open spec fn word_kind(w: Seq<char>) -> TokenKind {
    if w == kw_while() {
        TokenKind::While
    } else if w == kw_for() {
        TokenKind::For
    } else if w == kw_if() {
        TokenKind::If
    } else if w == kw_elif() {
        TokenKind::Elif
    } else if w == kw_else() {
        TokenKind::Else
    } else {
        TokenKind::Word
    }
}

/// The end of the alphanumeric run that starts at `j`.
pub open spec fn run_end(cs: Seq<CharInfo>, j: int) -> int
    decreases cs.len() - j,
{
    if 0 <= j < cs.len() && cs[j].alnum {
        run_end(cs, j + 1)
    } else {
        j
    }
}

/// The position of the first `q` at or after `j`, or the length when there is none.
pub open spec fn quote_close(cs: Seq<CharInfo>, j: int, q: char) -> int
    decreases cs.len() - j,
{
    if 0 <= j < cs.len() && cs[j].ch != q {
        quote_close(cs, j + 1, q)
    } else {
        j
    }
}

/// Whether `c` opens a quoted string.
pub open spec fn is_quote(c: char) -> bool {
    c == '\'' || c == '"'
}

/// Where the span that starts at `i` ends (exclusive): the characters from `i`
/// up to there make one token, or are skipped together.
pub open spec fn span_end(cs: Seq<CharInfo>, i: int) -> int {
    let c = cs[i].ch;
    if single_kind(c) is Some {
        i + 1
    } else if pair_rule(c) is Some {
        if i + 1 < cs.len() && cs[i + 1].ch == (pair_rule(c)->0).0 {
            i + 2
        } else {
            i + 1
        }
    } else if cs[i].alnum {
        run_end(cs, i)
    } else if is_quote(c) {
        let k = quote_close(cs, i + 1, c);
        if k < cs.len() {
            k + 1
        } else {
            k
        }
    } else {
        i + 1
    }
}

/// The text of a double-quoted string as its token carries it: wrapped in quotes.
pub open spec fn wrapped(inner: Seq<char>) -> Seq<char> {
    seq!['"'] + inner + seq!['"']
}

/// The token that the span starting at `i` yields, if any.
pub open spec fn token_at(cs: Seq<CharInfo>, i: int) -> Option<TokenView> {
    let c = cs[i].ch;
    if single_kind(c) is Some {
        Some((single_kind(c)->0, seq![c]))
    } else if pair_rule(c) is Some {
        let rule = pair_rule(c)->0;
        if i + 1 < cs.len() && cs[i + 1].ch == rule.0 {
            Some((rule.2, seq![c, rule.0]))
        } else {
            Some((rule.1, seq![c]))
        }
    } else if cs[i].alnum {
        let w = texts(cs.subrange(i, run_end(cs, i)));
        Some((word_kind(w), w))
    } else if c == '\'' {
        Some((TokenKind::OneQuoteStr, texts(cs.subrange(i + 1, quote_close(cs, i + 1, c)))))
    } else if c == '"' {
        Some(
            (
                TokenKind::TwoQuoteStr,
                wrapped(texts(cs.subrange(i + 1, quote_close(cs, i + 1, c)))),
            ),
        )
    } else if c == '\n' {
        Some((TokenKind::Newline, seq!['\\', 'n']))
    } else if cs[i].space {
        None
    } else {
        Some((TokenKind::Unknown, seq![c]))
    }
}

/// The token of a span as a sequence of zero or one tokens.
pub open spec fn opt_seq(t: Option<TokenView>) -> Seq<TokenView> {
    match t {
        Some(v) => seq![v],
        None => seq![],
    }
}

/// The tokens of the classified text from position `i` on.
pub open spec fn lex_from(cs: Seq<CharInfo>, i: int) -> Seq<TokenView>
    decreases cs.len() - i,
    via lex_from_decreases
{
    if 0 <= i < cs.len() {
        opt_seq(token_at(cs, i)) + lex_from(cs, span_end(cs, i))
    } else {
        seq![]
    }
}

#[via_fn]
proof fn lex_from_decreases(cs: Seq<CharInfo>, i: int) {
    if 0 <= i < cs.len() {
        lemma_span_end(cs, i);
    }
}

/// The raw spans of the classified text from position `i` on, in order.
pub open spec fn spans_from(cs: Seq<CharInfo>, i: int) -> Seq<Seq<char>>
    decreases cs.len() - i,
    via spans_from_decreases
{
    if 0 <= i < cs.len() {
        seq![texts(cs.subrange(i, span_end(cs, i)))] + spans_from(cs, span_end(cs, i))
    } else {
        seq![]
    }
}

#[via_fn]
proof fn spans_from_decreases(cs: Seq<CharInfo>, i: int) {
    if 0 <= i < cs.len() {
        lemma_span_end(cs, i);
    }
}

/// The tokens of a text.
pub open spec fn lex(s: Seq<char>) -> Seq<TokenView> {
    lex_from(classified(s), 0)
}

/// What each token of a sequence is.
pub open spec fn views(ts: Seq<Token>) -> Seq<TokenView> {
    ts.map_values(|t: Token| t@)
}

/// An alphanumeric run stays within the text, holds only alphanumerics, and is maximal.
pub proof fn lemma_run_end(cs: Seq<CharInfo>, j: int)
    requires
        0 <= j <= cs.len(),
    ensures
        j <= run_end(cs, j) <= cs.len(),
        run_end(cs, j) == cs.len() || !cs[run_end(cs, j)].alnum,
        forall|k: int| j <= k < run_end(cs, j) ==> cs[k].alnum,
    decreases cs.len() - j,
{
    if j < cs.len() && cs[j].alnum {
        lemma_run_end(cs, j + 1);
    }
}

/// The closing quote is the first equal quote at or after `j`, if there is one.
pub proof fn lemma_quote_close(cs: Seq<CharInfo>, j: int, q: char)
    requires
        0 <= j <= cs.len(),
    ensures
        j <= quote_close(cs, j, q) <= cs.len(),
        quote_close(cs, j, q) == cs.len() || cs[quote_close(cs, j, q)].ch == q,
        forall|k: int| j <= k < quote_close(cs, j, q) ==> cs[k].ch != q,
    decreases cs.len() - j,
{
    if j < cs.len() && cs[j].ch != q {
        lemma_quote_close(cs, j + 1, q);
    }
}

/// Every span is non-empty and ends within the text.
pub proof fn lemma_span_end(cs: Seq<CharInfo>, i: int)
    requires
        0 <= i < cs.len(),
    ensures
        i < span_end(cs, i) <= cs.len(),
{
    lemma_run_end(cs, i);
    if i + 1 <= cs.len() {
        lemma_quote_close(cs, i + 1, cs[i].ch);
    }
}


/// What an optional token is.
pub open spec fn opt_view(t: Option<Token>) -> Option<TokenView> {
    match t {
        Some(t) => Some(t@),
        None => None,
    }
}

fn single_kind_of(c: char) -> (r: Option<TokenKind>)
    ensures
        r == single_kind(c),
{
    match c {
        '$' => Some(TokenKind::Dollar),
        ';' => Some(TokenKind::Semicolon),
        '(' => Some(TokenKind::LParen),
        ')' => Some(TokenKind::RParen),
        '{' => Some(TokenKind::LCurly),
        '}' => Some(TokenKind::RCurly),
        '[' => Some(TokenKind::LSquare),
        ']' => Some(TokenKind::RSquare),
        _ => None,
    }
}

fn pair_rule_of(c: char) -> (r: Option<(char, TokenKind, TokenKind)>)
    ensures
        r == pair_rule(c),
{
    match c {
        '=' => Some(('=', TokenKind::Assign, TokenKind::Equality)),
        '!' => Some(('=', TokenKind::LogicalNot, TokenKind::Inequality)),
        '|' => Some(('|', TokenKind::Pipe, TokenKind::LogicalOr)),
        '&' => Some(('&', TokenKind::Ampersand, TokenKind::LogicalAnd)),
        '>' => Some(('>', TokenKind::Redirect, TokenKind::CatRedirect)),
        _ => None,
    }
}

/// Classifies an alphanumeric run as a keyword or a plain word.
fn word_kind_of(w: &Vec<char>) -> (k: TokenKind)
    ensures
        k == word_kind(w@),
{
    let n = w.len();
    if n == 5 && w[0] == 'w' && w[1] == 'h' && w[2] == 'i' && w[3] == 'l' && w[4] == 'e' {
        assert(w@ =~= kw_while());
        TokenKind::While
    } else if n == 3 && w[0] == 'f' && w[1] == 'o' && w[2] == 'r' {
        assert(w@ =~= kw_for());
        TokenKind::For
    } else if n == 2 && w[0] == 'i' && w[1] == 'f' {
        assert(w@ =~= kw_if());
        TokenKind::If
    } else if n == 4 && w[0] == 'e' && w[1] == 'l' && w[2] == 'i' && w[3] == 'f' {
        assert(w@ =~= kw_elif());
        TokenKind::Elif
    } else if n == 4 && w[0] == 'e' && w[1] == 'l' && w[2] == 's' && w[3] == 'e' {
        assert(w@ =~= kw_else());
        TokenKind::Else
    } else {
        TokenKind::Word
    }
}

fn text_of_char(c: char) -> (r: String)
    ensures
        r@ == seq![c],
{
    let mut v: Vec<char> = Vec::new();
    v.push(c);
    assert(v@ =~= seq![c]);
    string_of(&v)
}

/// Relies on `itertools::Itertools::peeking_take_while` over a slice iterator:
/// it yields the items from `start` on while they are alphanumeric, and stops
/// at the first that is not, or at the end.
#[verifier::external_body]
fn alnum_run(cs: &Vec<CharInfo>, start: usize) -> (r: Vec<char>)
    requires
        start <= cs.len(),
    ensures
        r@ == texts(cs@.subrange(start as int, run_end(cs@, start as int))),
{
    let mut it = cs[start..].iter();
    it.peeking_take_while(|c| c.alnum).map(|c| c.ch).collect()
}

/// Scans the operator whose seed character stands at `*pos`: when `second`
/// follows it, both make a token of kind `if_match`, otherwise the seed alone
/// makes a token of kind `if_not_match`. Advances `*pos` past what was taken.
fn match_two_or_one(
    cs: &Vec<CharInfo>,
    pos: &mut usize,
    second: char,
    if_not_match: TokenKind,
    if_match: TokenKind,
) -> (t: Token)
    requires
        *old(pos) < cs.len(),
    ensures
        ({
            let i = *old(pos) as int;
            if i + 1 < cs.len() && cs@[i + 1].ch == second {
                *final(pos) == i + 2 && t@ == (if_match, seq![cs@[i].ch, second])
            } else {
                *final(pos) == i + 1 && t@ == (if_not_match, seq![cs@[i].ch])
            }
        }),
{
    let first = cs[*pos].ch;
    *pos = *pos + 1;
    if *pos < cs.len() && cs[*pos].ch == second {
        *pos = *pos + 1;
        let mut v: Vec<char> = Vec::new();
        v.push(first);
        v.push(second);
        assert(v@ =~= seq![first, second]);
        Token { kind: if_match, lexeme: string_of(&v) }
    } else {
        Token { kind: if_not_match, lexeme: text_of_char(first) }
    }
}

/// Takes the text of a quoted string whose opening quote stands at `open`:
/// the characters after it up to the next equal quote, or to the end.
/// Returns that text and the position after the closing quote, if any.
fn quoted_text(cs: &Vec<CharInfo>, open: usize) -> (r: (Vec<char>, usize))
    requires
        open < cs.len(),
    ensures
        ({
            let k = quote_close(cs@, open + 1, cs@[open as int].ch);
            &&& r.0@ == texts(cs@.subrange(open + 1, k))
            &&& r.1 == if k < cs.len() { k + 1 } else { k }
        }),
{
    let q = cs[open].ch;
    let mut inner: Vec<char> = Vec::new();
    let mut j: usize = open + 1;
    while j < cs.len() && cs[j].ch != q
        invariant
            open + 1 <= j <= cs.len(),
            q == cs@[open as int].ch,
            inner@ == texts(cs@.subrange(open + 1, j as int)),
            quote_close(cs@, open + 1, q) == quote_close(cs@, j as int, q),
        decreases cs.len() - j,
    {
        inner.push(cs[j].ch);
        proof {
            assert(texts(cs@.subrange(open + 1, j + 1)) =~= texts(
                cs@.subrange(open + 1, j as int),
            ).push(cs@[j as int].ch));
        }
        j = j + 1;
    }
    if j < cs.len() {
        (inner, j + 1)
    } else {
        (inner, j)
    }
}

/// Wraps a text in double quotes.
fn wrap_quotes(inner: &Vec<char>) -> (r: Vec<char>)
    ensures
        r@ == wrapped(inner@),
{
    let mut out: Vec<char> = Vec::new();
    out.push('"');
    let mut j: usize = 0;
    while j < inner.len()
        invariant
            j <= inner.len(),
            out@ == seq!['"'] + inner@.subrange(0, j as int),
        decreases inner.len() - j,
    {
        out.push(inner[j]);
        proof {
            assert(inner@.subrange(0, j + 1) =~= inner@.subrange(0, j as int).push(inner@[j as int]));
        }
        j = j + 1;
    }
    out.push('"');
    assert(inner@.subrange(0, inner.len() as int) =~= inner@);
    assert(out@ =~= wrapped(inner@));
    out
}

/// Scans the span that starts at `*pos`, advances `*pos` to its end, and
/// returns the token it yields, if any.
fn scan_one(cs: &Vec<CharInfo>, pos: &mut usize) -> (r: Option<Token>)
    requires
        *old(pos) < cs.len(),
    ensures
        *final(pos) == span_end(cs@, *old(pos) as int),
        opt_view(r) == token_at(cs@, *old(pos) as int),
{
    let i = *pos;
    let c = cs[i].ch;
    proof {
        lemma_run_end(cs@, i as int);
    }
    if let Some(kind) = single_kind_of(c) {
        *pos = i + 1;
        return Some(Token { kind, lexeme: text_of_char(c) });
    }
    if let Some(rule) = pair_rule_of(c) {
        return Some(match_two_or_one(cs, pos, rule.0, rule.1, rule.2));
    }
    if cs[i].alnum {
        let w = alnum_run(cs, i);
        *pos = i + w.len();
        let kind = word_kind_of(&w);
        return Some(Token { kind, lexeme: string_of(&w) });
    }
    if c == '\'' || c == '"' {
        let (inner, end) = quoted_text(cs, i);
        *pos = end;
        if c == '\'' {
            return Some(Token { kind: TokenKind::OneQuoteStr, lexeme: string_of(&inner) });
        } else {
            let text = wrap_quotes(&inner);
            return Some(Token { kind: TokenKind::TwoQuoteStr, lexeme: string_of(&text) });
        }
    }
    *pos = i + 1;
    if c == '\n' {
        let mut v: Vec<char> = Vec::new();
        v.push('\\');
        v.push('n');
        assert(v@ =~= seq!['\\', 'n']);
        Some(Token { kind: TokenKind::Newline, lexeme: string_of(&v) })
    } else if cs[i].space {
        None
    } else {
        Some(Token { kind: TokenKind::Unknown, lexeme: text_of_char(c) })
    }
}

/// Scans classified text into tokens.
pub fn tokenize_classified(cs: &Vec<CharInfo>) -> (r: Vec<Token>)
    ensures
        views(r@) == lex_from(cs@, 0),
{
    let mut tokens: Vec<Token> = Vec::new();
    let mut i: usize = 0;
    while i < cs.len()
        invariant
            i <= cs.len(),
            lex_from(cs@, 0) == views(tokens@) + lex_from(cs@, i as int),
        decreases cs.len() - i,
    {
        let ghost old_tokens = tokens@;
        let ghost start = i as int;
        proof {
            lemma_span_end(cs@, start);
        }
        let t = scan_one(cs, &mut i);
        match t {
            Some(t) => {
                tokens.push(t);
            },
            None => {},
        }
        proof {
            assert(views(tokens@) =~= views(old_tokens) + opt_seq(token_at(cs@, start)));
            assert(lex_from(cs@, start) == opt_seq(token_at(cs@, start)) + lex_from(cs@, i as int));
            assert(views(old_tokens) + lex_from(cs@, start) =~= views(tokens@) + lex_from(
                cs@,
                i as int,
            ));
        }
    }
    assert(lex_from(cs@, i as int) =~= seq![]);
    assert(views(tokens@) + seq![] =~= views(tokens@));
    tokens
}

/// Scans a text into tokens.
pub fn tokenize(input: String) -> (r: Vec<Token>)
    ensures
        views(r@) == lex(input@),
{
    let cs = classify(input.as_str());
    tokenize_classified(&cs)
}

} // verus!
