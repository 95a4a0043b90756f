//! The spans that parsing gives lie within the code: a parsed program's span starts at its
//! first token and ends at its last one, and the tokens' spans are ordered inside the code.

use vstd::prelude::*;

use super::model::{Ty, Tok};
use super::parse::{parse_args, parse_block_items, parse_expr, parse_leaf, parse_leaf_or_call, parse_program};
use super::tokenize::{digits_end, spec_tokenize, word_end};
use super::values::Span;

verus! {

/// `rest` is what is left of `toks` after taking some tokens from its front.
pub open spec fn suffix_of(rest: Seq<(Tok, Span)>, toks: Seq<(Tok, Span)>) -> bool {
    &&& rest.len() <= toks.len()
    &&& forall|k: int| 0 <= k < rest.len() ==> #[trigger] rest[k] == toks[toks.len() - rest.len() + k]
}

/// The span of the last token taken from `toks` when `rest` is left.
pub open spec fn last_taken(toks: Seq<(Tok, Span)>, rest: Seq<(Tok, Span)>) -> Span {
    toks[toks.len() - rest.len() - 1].1
}

/// The spans of the tokens are ordered and lie within `lo..hi`.
pub open spec fn spans_ordered_within(toks: Seq<(Tok, Span)>, lo: int, hi: int) -> bool {
    &&& forall|k: int|
        0 <= k < toks.len() ==> lo <= (#[trigger] toks[k]).1.start <= toks[k].1.end < hi
    &&& forall|k: int, l: int|
        0 <= k < l < toks.len() ==> (#[trigger] toks[k]).1.end < (#[trigger] toks[l]).1.start
}

proof fn lemma_suffix_trans(a: Seq<(Tok, Span)>, b: Seq<(Tok, Span)>, c: Seq<(Tok, Span)>)
    requires
        suffix_of(a, b),
        suffix_of(b, c),
    ensures
        suffix_of(a, c),
{
    assert forall|k: int| 0 <= k < a.len() implies #[trigger] a[k] == c[c.len() - a.len() + k] by {
        assert(a[k] == b[b.len() - a.len() + k]);
        assert(b[b.len() - a.len() + k] == c[c.len() - b.len() + (b.len() - a.len() + k)]);
    }
}

proof fn lemma_drop_first_suffix(t: Seq<(Tok, Span)>)
    requires
        t.len() > 0,
    ensures
        suffix_of(t.drop_first(), t),
{
}

proof fn lemma_suffix_refl(t: Seq<(Tok, Span)>)
    ensures
        suffix_of(t, t),
{
}

proof fn lemma_leaf_spans(toks: Seq<(Tok, Span)>, tctx: Seq<(Seq<char>, Ty)>)
    ensures
        parse_leaf(toks, tctx) matches Ok((_, sp, rest)) ==> rest.len() < toks.len() && suffix_of(
            rest,
            toks,
        ) && sp.start == toks[0].1.start && sp.end == last_taken(toks, rest).end,
{
    if toks.len() > 0 {
        let rest = toks.drop_first();
        if rest.len() > 0 {
            assert(suffix_of(rest.drop_first(), toks)) by {
                lemma_suffix_trans(rest.drop_first(), rest, toks);
            }
            assert(last_taken(toks, rest.drop_first()) == rest[0].1);
        }
    }
}

proof fn lemma_leaf_or_call_spans(toks: Seq<(Tok, Span)>, tctx: Seq<(Seq<char>, Ty)>)
    ensures
        parse_leaf_or_call(toks, tctx) matches Ok((_, sp, rest)) ==> rest.len() < toks.len()
            && suffix_of(rest, toks) && sp.start == toks[0].1.start && sp.end == last_taken(
            toks,
            rest,
        ).end,
    decreases toks.len(), 1int,
{
    lemma_leaf_spans(toks, tctx);
    match parse_leaf(toks, tctx) {
        Err(_) => {},
        Ok((e, esp, rest)) => {
            if rest.len() > 0 && rest[0].0 is OpenParenthesis {
                let rest1 = rest.drop_first();
                if rest1.len() < toks.len() {
                    lemma_args_spans(rest1, tctx, false);
                    match parse_args(rest1, tctx, false) {
                        Err(_) => {},
                        Ok((args, cs, rest2)) => {
                            lemma_suffix_trans(rest1, rest, toks);
                            lemma_suffix_trans(rest2, rest1, toks);
                            assert(last_taken(rest1, rest2) == last_taken(toks, rest2));
                        },
                    }
                }
            }
        },
    }
}

proof fn lemma_args_spans(toks: Seq<(Tok, Span)>, tctx: Seq<(Seq<char>, Ty)>, comma_needed: bool)
    ensures
        parse_args(toks, tctx, comma_needed) matches Ok((_, cs, rest)) ==> rest.len() < toks.len()
            && suffix_of(rest, toks) && cs == last_taken(toks, rest),
    decreases toks.len(), 3int,
{
    if toks.len() > 0 && toks[0].0 is CloseParenthesis {
        lemma_drop_first_suffix(toks);
    } else {
        let skip = comma_needed && toks.len() > 0 && toks[0].0 is Comma;
        let toks2 = if skip {
            toks.drop_first()
        } else {
            toks
        };
        let comma_needed2 = if skip {
            false
        } else {
            comma_needed
        };
        if skip {
            lemma_drop_first_suffix(toks);
        } else {
            lemma_suffix_refl(toks);
        }
        if toks2.len() > 0 && toks2[0].0 is CloseParenthesis {
            lemma_drop_first_suffix(toks2);
            lemma_suffix_trans(toks2.drop_first(), toks2, toks);
            assert(last_taken(toks2, toks2.drop_first()) == last_taken(toks, toks2.drop_first()));
        } else if comma_needed2 {
        } else {
            lemma_expr_spans(toks2, tctx);
            match parse_expr(toks2, tctx) {
                Err(_) => {},
                Ok((a, asp, rest)) => {
                    if rest.len() < toks.len() {
                        lemma_args_spans(rest, tctx, true);
                        match parse_args(rest, tctx, true) {
                            Err(_) => {},
                            Ok((l, cs, rest3)) => {
                                lemma_suffix_trans(rest, toks2, toks);
                                lemma_suffix_trans(rest3, rest, toks);
                                assert(last_taken(rest, rest3) == last_taken(toks, rest3));
                            },
                        }
                    }
                },
            }
        }
    }
}

proof fn lemma_block_items_spans(toks: Seq<(Tok, Span)>, tctx: Seq<(Seq<char>, Ty)>)
    ensures
        parse_block_items(toks, tctx) matches Ok((_, cs, rest)) ==> rest.len() < toks.len()
            && suffix_of(rest, toks) && cs == last_taken(toks, rest),
    decreases toks.len(), 3int,
{
    lemma_expr_spans(toks, tctx);
    match parse_expr(toks, tctx) {
        Err(_) => {},
        Ok((e, esp, rest)) => {
            if rest.len() > 0 && rest[0].0 is CloseCurly {
                lemma_drop_first_suffix(rest);
                lemma_suffix_trans(rest.drop_first(), rest, toks);
                assert(last_taken(toks, rest.drop_first()) == rest[0].1);
            } else if rest.len() > 0 && rest[0].0 is Semicolon {
                if rest.len() < toks.len() {
                    let r1 = rest.drop_first();
                    lemma_block_items_spans(r1, tctx);
                    match parse_block_items(r1, tctx) {
                        Err(_) => {},
                        Ok((l, cs, rest3)) => {
                            lemma_drop_first_suffix(rest);
                            lemma_suffix_trans(r1, rest, toks);
                            lemma_suffix_trans(rest3, r1, toks);
                            assert(last_taken(r1, rest3) == last_taken(toks, rest3));
                        },
                    }
                }
            }
        },
    }
}

proof fn lemma_expr_spans(toks: Seq<(Tok, Span)>, tctx: Seq<(Seq<char>, Ty)>)
    ensures
        parse_expr(toks, tctx) matches Ok((_, sp, rest)) ==> rest.len() < toks.len() && suffix_of(
            rest,
            toks,
        ) && sp.start == toks[0].1.start && sp.end == last_taken(toks, rest).end,
    decreases toks.len(), 2int,
{
    if toks.len() > 0 && toks[0].0 is OpenCurly {
        let t1 = toks.drop_first();
        lemma_block_items_spans(t1, tctx);
        match parse_block_items(t1, tctx) {
            Ok((items, cs, rest)) => {
                lemma_drop_first_suffix(toks);
                lemma_suffix_trans(rest, t1, toks);
                assert(last_taken(t1, rest) == last_taken(toks, rest));
            },
            Err(_) => {},
        }
    } else {
        lemma_leaf_or_call_spans(toks, tctx);
    }
}

/// The tokens of the code from index `i` have ordered spans within `i..` the code's length.
proof fn lemma_token_spans(s: Seq<char>, i: int)
    requires
        0 <= i,
        s.len() <= usize::MAX,
    ensures
        spans_ordered_within(spec_tokenize(s, i), i, s.len() as int),
    decreases s.len() - i,
{
    if i < 0 || i >= s.len() {
    } else if super::tokenize::spec_is_whitespace(s[i]) {
        lemma_token_spans(s, i + 1);
    } else if super::tokenize::is_word_start(s[i]) {
        let j = word_end(s, i + 1);
        if i < j <= s.len() {
            lemma_token_spans(s, j);
            assert(spec_tokenize(s, i).drop_first() =~= spec_tokenize(s, j));
            lemma_prepend_token(s, i, j, spec_tokenize(s, i));
        }
    } else if super::tokenize::spec_is_ascii_digit(s[i]) {
        let j = digits_end(s, i + 1);
        if i < j <= s.len() {
            lemma_token_spans(s, j);
            assert(spec_tokenize(s, i).drop_first() =~= spec_tokenize(s, j));
            lemma_prepend_token(s, i, j, spec_tokenize(s, i));
        }
    } else {
        match super::tokenize::punctuation(s[i]) {
            Some(t) => {
                lemma_token_spans(s, i + 1);
                assert(spec_tokenize(s, i).drop_first() =~= spec_tokenize(s, i + 1));
                lemma_prepend_token(s, i, i + 1, spec_tokenize(s, i));
            },
            None => {},
        }
    }
}

/// A token of span `i..=j - 1` followed by the tokens from `j` on.
proof fn lemma_prepend_token(s: Seq<char>, i: int, j: int, toks: Seq<(Tok, Span)>)
    requires
        0 <= i < j <= s.len() <= usize::MAX,
        toks.len() > 0,
        toks[0].1 == (Span { start: i as usize, end: (j - 1) as usize }),
        toks.drop_first() == spec_tokenize(s, j),
        spans_ordered_within(spec_tokenize(s, j), j, s.len() as int),
    ensures
        spans_ordered_within(toks, i, s.len() as int),
{
    let rest = toks.drop_first();
    assert forall|k: int| 0 <= k < toks.len() implies i <= (#[trigger] toks[k]).1.start
        <= toks[k].1.end < s.len() by {
        if k > 0 {
            assert(toks[k] == rest[k - 1]);
        }
    }
    assert forall|k: int, l: int| 0 <= k < l < toks.len() implies (#[trigger] toks[k]).1.end
        < (#[trigger] toks[l]).1.start by {
        assert(toks[l] == rest[l - 1]);
        if k > 0 {
            assert(toks[k] == rest[k - 1]);
        }
    }
}

/// The span of a parsed program lies within the code: it starts at or before where it ends,
/// which is before the code's end.
pub proof fn law_parsed_spans_lie_within_the_code(code: Seq<char>, tctx: Seq<(Seq<char>, Ty)>)
    requires
        code.len() <= usize::MAX,
    ensures
        parse_program(code, tctx) matches Ok((_, sp)) ==> sp.start <= sp.end < code.len(),
{
    let toks = spec_tokenize(code, 0);
    lemma_token_spans(code, 0);
    lemma_expr_spans(toks, tctx);
    match parse_expr(toks, tctx) {
        Ok((_, sp, rest)) => {
            let m = toks.len() - rest.len() - 1;
            assert(toks[0].1.start <= toks[0].1.end);
            if m > 0 {
                assert(toks[0].1.end < toks[m].1.start);
            }
            assert(toks[m].1.start <= toks[m].1.end < code.len());
        },
        Err(_) => {},
    }
}

} // verus!
