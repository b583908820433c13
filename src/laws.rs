use vstd::prelude::*;

use crate::chars::{classified, info_of, is_alnum, texts, CharInfo};
use crate::lexer::{
    kw_elif, kw_else, kw_for, kw_if, kw_while, lemma_run_end, lemma_span_end, lex, lex_from,
    opt_seq, pair_rule, run_end, single_kind, span_end, spans_from, token_at, word_kind,
};
use crate::token::TokenKind;

verus! {

proof fn lemma_texts_classified(s: Seq<char>)
    ensures
        texts(classified(s)) == s,
{
    assert(texts(classified(s)) =~= s);
}

proof fn lemma_spans_from(cs: Seq<CharInfo>, i: int)
    requires
        0 <= i <= cs.len(),
    ensures
        spans_from(cs, i).flatten() == texts(cs.subrange(i, cs.len() as int)),
        forall|k: int| 0 <= k < spans_from(cs, i).len() ==> #[trigger] spans_from(cs, i)[k].len() > 0,
        spans_from(cs, i).len() <= cs.len() - i,
        lex_from(cs, i).len() <= spans_from(cs, i).len(),
    decreases cs.len() - i,
{
    if i < cs.len() {
        let e = span_end(cs, i);
        lemma_span_end(cs, i);
        lemma_spans_from(cs, e);
        let head = texts(cs.subrange(i, e));
        let rest = spans_from(cs, e);
        let all = spans_from(cs, i);
        assert(all == seq![head] + rest);
        assert(all.drop_first() =~= rest);
        assert(all.flatten() == head + rest.flatten());
        assert(head + texts(cs.subrange(e, cs.len() as int)) =~= texts(
            cs.subrange(i, cs.len() as int),
        ));
        assert forall|k: int| 0 <= k < all.len() implies #[trigger] all[k].len() > 0 by {
            if k > 0 {
                assert(all[k] == rest[k - 1]);
            }
        }
        assert(opt_seq(token_at(cs, i)).len() <= 1);
    } else {
        assert(texts(cs.subrange(i, cs.len() as int)) =~= seq![]);
    }
}

/// The scan accounts for every character: each span it takes is non-empty,
/// the spans together are exactly as long as the input, and there are no
/// more spans than characters, nor more tokens than spans.
pub proof fn lemma_consumes_all(s: Seq<char>)
    ensures
        forall|k: int|
            0 <= k < spans_from(classified(s), 0).len() ==> #[trigger] spans_from(
                classified(s),
                0,
            )[k].len() > 0,
        spans_from(classified(s), 0).flatten().len() == s.len(),
        lex(s).len() <= spans_from(classified(s), 0).len() <= s.len(),
{
    let cs = classified(s);
    lemma_spans_from(cs, 0);
    lemma_texts_classified(s);
    assert(cs.subrange(0, cs.len() as int) =~= cs);
}

/// Concatenating the raw spans that the scan takes, in order, gives back the
/// input exactly.
pub proof fn lemma_spans_rebuild_input(s: Seq<char>)
    ensures
        spans_from(classified(s), 0).flatten() == s,
{
    let cs = classified(s);
    lemma_spans_from(cs, 0);
    lemma_texts_classified(s);
    assert(cs.subrange(0, cs.len() as int) =~= cs);
}

/// At an alphanumeric character that is neither punctuation nor an operator
/// seed, the scan takes the maximal alphanumeric run from there; the token is
/// a keyword exactly when the run spells `while`, `for`, `if`, `elif` or
/// `else` (case-sensitively), and a `Word` otherwise, digits included.
pub proof fn lemma_word_runs(s: Seq<char>, i: int)
    requires
        0 <= i < s.len(),
        is_alnum(s[i]),
        single_kind(s[i]) is None,
        pair_rule(s[i]) is None,
    ensures
        ({
            let cs = classified(s);
            let e = run_end(cs, i);
            let w = s.subrange(i, e);
            &&& i < e <= s.len()
            &&& span_end(cs, i) == e
            &&& forall|k: int| i <= k < e ==> is_alnum(#[trigger] s[k])
            &&& e == s.len() || !is_alnum(s[e])
            &&& token_at(cs, i) == Some((word_kind(w), w))
            &&& (word_kind(w) == TokenKind::While <==> w == kw_while())
            &&& (word_kind(w) == TokenKind::For <==> w == kw_for())
            &&& (word_kind(w) == TokenKind::If <==> w == kw_if())
            &&& (word_kind(w) == TokenKind::Elif <==> w == kw_elif())
            &&& (word_kind(w) == TokenKind::Else <==> w == kw_else())
            &&& (word_kind(w) == TokenKind::Word <==> !(w == kw_while() || w == kw_for() || w
                == kw_if() || w == kw_elif() || w == kw_else()))
        }),
{
    let cs = classified(s);
    assert(cs[i] == info_of(s[i]));
    lemma_run_end(cs, i);
    lemma_run_end(cs, i + 1);
    let e = run_end(cs, i);
    assert forall|k: int| i <= k < e implies is_alnum(#[trigger] s[k]) by {
        assert(cs[k] == info_of(s[k]));
    }
    if e < s.len() {
        assert(cs[e] == info_of(s[e]));
    }
    assert(texts(cs.subrange(i, e)) =~= s.subrange(i, e));
}

} // verus!
