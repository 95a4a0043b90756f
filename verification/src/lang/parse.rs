//! Parsing of Qwy Script tokens into statically typed expressions.

use vstd::prelude::*;

use std::collections::VecDeque;

use super::model::{expr_wf, type_of, Expr, ParseErr, Tok, Ty, Val};
use super::tokenize::{can_tokenize, spec_tokenize, tokenize};
use super::typing::{
    blocks_nonempty, check_call, check_function_call_argument_types, expr_type, typeable,
    lemma_blocks_nonempty_typeable,
    ExpressionTypingError, FunctionCallTypingError, TypeContext,
};
use super::values::{
    expr_view, items_view, lemma_items_view, tokens_view, value_view, Expression, Span, Token, Type, Value,
};

verus! {

broadcast use vstd::std_specs::vec::group_vec_axioms;

#[derive(Debug)]
pub enum ExpressionParsingError {
    ExpectedStartOfExpressionButGotNoMoreTokens,
    ExpectedStartOfExpressionButGotUnexpectedToken(Token, Span),
    ExpectedCommaToSeparateArgumentsButGotUnexpectedToken(Token, Span),
    ExpectedCommaOrClosedParenthesisButGotNoMoreTokens,
    ExpressionTypingError(ExpressionTypingError, Span),
    /// The actual type of the not-a-function, and its span.
    FunctionCallOnNotAFunction(Type, Span),
    /// The span is the span of the whole function call in which there is a typing error.
    FunctionCallTypingError(FunctionCallTypingError, Span),
    ExpectedWordAfterSigilButGotUnexpectedToken(Token, Span),
    ExpectedWordAfterSigilButGotNoMoreTokens,
    ExpectedSemicolonToSeparateExpressionsInBlockButGotUnexpectedToken(Token, Span),
    ExpectedSemicolonOrClosedCurlyButGotNoMoreTokens,
}

impl View for ExpressionParsingError {
    type V = ParseErr;

    open spec fn view(&self) -> ParseErr {
        match self {
            ExpressionParsingError::ExpectedStartOfExpressionButGotNoMoreTokens => ParseErr::ExpectedStartOfExpressionButGotNoMoreTokens,
            ExpressionParsingError::ExpectedStartOfExpressionButGotUnexpectedToken(t, s) => ParseErr::ExpectedStartOfExpressionButGotUnexpectedToken(t@, *s),
            ExpressionParsingError::ExpectedCommaToSeparateArgumentsButGotUnexpectedToken(t, s) => ParseErr::ExpectedCommaToSeparateArgumentsButGotUnexpectedToken(t@, *s),
            ExpressionParsingError::ExpectedCommaOrClosedParenthesisButGotNoMoreTokens => ParseErr::ExpectedCommaOrClosedParenthesisButGotNoMoreTokens,
            ExpressionParsingError::ExpressionTypingError(e, s) => ParseErr::ExpressionTypingError(e@, *s),
            ExpressionParsingError::FunctionCallOnNotAFunction(t, s) => ParseErr::FunctionCallOnNotAFunction(t@, *s),
            ExpressionParsingError::FunctionCallTypingError(e, s) => ParseErr::FunctionCallTypingError(e@, *s),
            ExpressionParsingError::ExpectedWordAfterSigilButGotUnexpectedToken(t, s) => ParseErr::ExpectedWordAfterSigilButGotUnexpectedToken(t@, *s),
            ExpressionParsingError::ExpectedWordAfterSigilButGotNoMoreTokens => ParseErr::ExpectedWordAfterSigilButGotNoMoreTokens,
            ExpressionParsingError::ExpectedSemicolonToSeparateExpressionsInBlockButGotUnexpectedToken(t, s) => ParseErr::ExpectedSemicolonToSeparateExpressionsInBlockButGotUnexpectedToken(t@, *s),
            ExpressionParsingError::ExpectedSemicolonOrClosedCurlyButGotNoMoreTokens => ParseErr::ExpectedSemicolonOrClosedCurlyButGotNoMoreTokens,
        }
    }
}

/// A parsed expression, its span, and the tokens that follow it.
pub type Parsed = (Expr, Span, Seq<(Tok, Span)>);

/// Parsed sub-expressions with their spans, the span of the closing token, and the tokens after it.
pub type ParsedList = (Seq<(Expr, Span)>, Span, Seq<(Tok, Span)>);

/// A leaf expression (an integer, a variable, or a name after a sigil), which must be typed.
pub open spec fn parse_leaf(toks: Seq<(Tok, Span)>, tctx: Seq<(Seq<char>, Ty)>) -> Result<Parsed, ParseErr> {
    if toks.len() == 0 {
        Err(ParseErr::ExpectedStartOfExpressionButGotNoMoreTokens)
    } else {
        let sp = toks[0].1;
        let r: Result<Parsed, ParseErr> = match toks[0].0 {
            Tok::Integer(v) => Ok((Expr::Const(Val::Integer(v)), sp, toks.drop_first())),
            Tok::Word(w) => Ok((Expr::Variable(w), sp, toks.drop_first())),
            Tok::Sigil => {
                let rest = toks.drop_first();
                if rest.len() == 0 {
                    Err(ParseErr::ExpectedWordAfterSigilButGotNoMoreTokens)
                } else {
                    match rest[0].0 {
                        Tok::Word(n) => Ok(
                            (
                                Expr::Const(Val::Name(n)),
                                Span { start: sp.start, end: rest[0].1.end },
                                rest.drop_first(),
                            ),
                        ),
                        other => Err(ParseErr::ExpectedWordAfterSigilButGotUnexpectedToken(other, rest[0].1)),
                    }
                }
            },
            other => Err(ParseErr::ExpectedStartOfExpressionButGotUnexpectedToken(other, sp)),
        };
        match r {
            Ok((e, esp, rest)) => match expr_type(e, tctx) {
                Err(te) => Err(ParseErr::ExpressionTypingError(te, esp)),
                Ok(_) => Ok((e, esp, rest)),
            },
            Err(x) => Err(x),
        }
    }
}

pub open spec fn prepend_list(pre: Seq<(Expr, Span)>, r: Result<ParsedList, ParseErr>) -> Result<ParsedList, ParseErr> {
    match r {
        Ok((l, cs, rest)) => Ok((pre + l, cs, rest)),
        Err(x) => Err(x),
    }
}

/// A leaf expression, or a call of it if an open parenthesis follows.
pub open spec fn parse_leaf_or_call(toks: Seq<(Tok, Span)>, tctx: Seq<(Seq<char>, Ty)>) -> Result<Parsed, ParseErr>
    decreases toks.len(), 1int,
{
    match parse_leaf(toks, tctx) {
        Err(x) => Err(x),
        Ok((e, esp, rest)) => if rest.len() > 0 && rest[0].0 is OpenParenthesis {
            let op = rest[0].1;
            let rest1 = rest.drop_first();
            match expr_type(e, tctx) {
                Ok(Ty::Function(sig)) => if rest1.len() < toks.len() {
                    match parse_args(rest1, tctx, false) {
                        Err(x) => Err(x),
                        Ok((args, cs, rest2)) => {
                            let call_span = Span { start: esp.start, end: cs.end };
                            let args_list_span = Span { start: op.start, end: cs.end };
                            match check_call(sig, esp, args_list_span, args, tctx) {
                                Err(ce) => Err(ParseErr::FunctionCallTypingError(ce, call_span)),
                                Ok(()) => Ok((Expr::Call(Box::new(e), esp, args), call_span, rest2)),
                            }
                        },
                    }
                } else {
                    Err(ParseErr::ExpectedStartOfExpressionButGotNoMoreTokens)
                },
                Ok(t) => Err(ParseErr::FunctionCallOnNotAFunction(t, esp)),
                Err(te) => Err(ParseErr::ExpressionTypingError(te, esp)),
            }
        } else {
            Ok((e, esp, rest))
        },
    }
}

/// The arguments of a call, after its open parenthesis: a comma-separated sequence of
/// expressions ended by a closed parenthesis, where a comma may stand before the closed
/// parenthesis. `comma_needed` tells that an argument was just parsed.
pub open spec fn parse_args(toks: Seq<(Tok, Span)>, tctx: Seq<(Seq<char>, Ty)>, comma_needed: bool) -> Result<ParsedList, ParseErr>
    decreases toks.len(), 3int,
{
    if toks.len() > 0 && toks[0].0 is CloseParenthesis {
        Ok((Seq::empty(), toks[0].1, toks.drop_first()))
    } else {
        let skip = comma_needed && toks.len() > 0 && toks[0].0 is Comma;
        let toks2 = if skip { toks.drop_first() } else { toks };
        let comma_needed2 = if skip { false } else { comma_needed };
        if toks2.len() > 0 && toks2[0].0 is CloseParenthesis {
            Ok((Seq::empty(), toks2[0].1, toks2.drop_first()))
        } else if comma_needed2 {
            if toks2.len() > 0 {
                Err(ParseErr::ExpectedCommaToSeparateArgumentsButGotUnexpectedToken(toks2[0].0, toks2[0].1))
            } else {
                Err(ParseErr::ExpectedCommaOrClosedParenthesisButGotNoMoreTokens)
            }
        } else {
            match parse_expr(toks2, tctx) {
                Err(x) => Err(x),
                Ok((a, asp, rest)) => if rest.len() < toks.len() {
                    prepend_list(seq![(a, asp)], parse_args(rest, tctx, true))
                } else {
                    Err(ParseErr::ExpectedStartOfExpressionButGotNoMoreTokens)
                },
            }
        }
    }
}

/// The expressions of a block, after its open curly: a semicolon-separated sequence of
/// expressions ended by a closed curly.
pub open spec fn parse_block_items(toks: Seq<(Tok, Span)>, tctx: Seq<(Seq<char>, Ty)>) -> Result<ParsedList, ParseErr>
    decreases toks.len(), 3int,
{
    match parse_expr(toks, tctx) {
        Err(x) => Err(x),
        Ok((e, esp, rest)) => if rest.len() > 0 && rest[0].0 is CloseCurly {
            Ok((seq![(e, esp)], rest[0].1, rest.drop_first()))
        } else if rest.len() > 0 && rest[0].0 is Semicolon {
            if rest.len() < toks.len() {
                prepend_list(seq![(e, esp)], parse_block_items(rest.drop_first(), tctx))
            } else {
                Err(ParseErr::ExpectedStartOfExpressionButGotNoMoreTokens)
            }
        } else if rest.len() > 0 {
            Err(ParseErr::ExpectedSemicolonToSeparateExpressionsInBlockButGotUnexpectedToken(rest[0].0, rest[0].1))
        } else {
            Err(ParseErr::ExpectedSemicolonOrClosedCurlyButGotNoMoreTokens)
        },
    }
}

/// An expression: a block if it starts with an open curly, else a leaf or a call.
pub open spec fn parse_expr(toks: Seq<(Tok, Span)>, tctx: Seq<(Seq<char>, Ty)>) -> Result<Parsed, ParseErr>
    decreases toks.len(), 2int,
{
    if toks.len() > 0 && toks[0].0 is OpenCurly {
        match parse_block_items(toks.drop_first(), tctx) {
            Ok((items, cs, rest)) => Ok((Expr::Block(items), Span { start: toks[0].1.start, end: cs.end }, rest)),
            Err(x) => Err(x),
        }
    } else {
        parse_leaf_or_call(toks, tctx)
    }
}

/// The tokens left when `parse_leaf` fails: the token that cannot start an expression stays,
/// while a name after a sigil that is not a word, or an expression that cannot be typed, is
/// taken.
pub open spec fn leaf_error_rest(toks: Seq<(Tok, Span)>) -> Seq<(Tok, Span)> {
    if toks.len() == 0 {
        toks
    } else {
        match toks[0].0 {
            Tok::Integer(_) => toks.drop_first(),
            Tok::Word(_) => toks.drop_first(),
            Tok::Sigil => {
                let rest = toks.drop_first();
                if rest.len() == 0 {
                    rest
                } else {
                    rest.drop_first()
                }
            },
            _ => toks,
        }
    }
}

/// The tokens left when `parse_leaf_or_call` fails.
pub open spec fn leaf_or_call_error_rest(toks: Seq<(Tok, Span)>, tctx: Seq<(Seq<char>, Ty)>) -> Seq<
    (Tok, Span),
>
    decreases toks.len(), 1int,
{
    match parse_leaf(toks, tctx) {
        Err(_) => leaf_error_rest(toks),
        Ok((e, esp, rest)) => if rest.len() > 0 && rest[0].0 is OpenParenthesis {
            let rest1 = rest.drop_first();
            match expr_type(e, tctx) {
                Ok(Ty::Function(sig)) => if rest1.len() < toks.len() {
                    match parse_args(rest1, tctx, false) {
                        Err(_) => args_error_rest(rest1, tctx, false),
                        Ok((args, cs, rest2)) => rest2,
                    }
                } else {
                    rest1
                },
                _ => rest1,
            }
        } else {
            rest
        },
    }
}

/// The tokens left when `parse_args` fails: a token found where a comma was needed is taken.
pub open spec fn args_error_rest(toks: Seq<(Tok, Span)>, tctx: Seq<(Seq<char>, Ty)>, comma_needed: bool) -> Seq<
    (Tok, Span),
>
    decreases toks.len(), 3int,
{
    if toks.len() > 0 && toks[0].0 is CloseParenthesis {
        Seq::empty()
    } else {
        let skip = comma_needed && toks.len() > 0 && toks[0].0 is Comma;
        let toks2 = if skip { toks.drop_first() } else { toks };
        let comma_needed2 = if skip { false } else { comma_needed };
        if toks2.len() > 0 && toks2[0].0 is CloseParenthesis {
            Seq::empty()
        } else if comma_needed2 {
            if toks2.len() > 0 {
                toks2.drop_first()
            } else {
                toks2
            }
        } else {
            match parse_expr(toks2, tctx) {
                Err(_) => expr_error_rest(toks2, tctx),
                Ok((a, asp, rest)) => if rest.len() < toks.len() {
                    args_error_rest(rest, tctx, true)
                } else {
                    rest
                },
            }
        }
    }
}

/// The tokens left when `parse_block_items` fails: a token found where a semicolon or a closed
/// curly was needed stays.
pub open spec fn block_items_error_rest(toks: Seq<(Tok, Span)>, tctx: Seq<(Seq<char>, Ty)>) -> Seq<
    (Tok, Span),
>
    decreases toks.len(), 3int,
{
    match parse_expr(toks, tctx) {
        Err(_) => expr_error_rest(toks, tctx),
        Ok((e, esp, rest)) => if rest.len() > 0 && rest[0].0 is Semicolon && rest.len() < toks.len() {
            block_items_error_rest(rest.drop_first(), tctx)
        } else {
            rest
        },
    }
}

/// The tokens left when `parse_expr` fails.
pub open spec fn expr_error_rest(toks: Seq<(Tok, Span)>, tctx: Seq<(Seq<char>, Ty)>) -> Seq<(Tok, Span)>
    decreases toks.len(), 2int,
{
    if toks.len() > 0 && toks[0].0 is OpenCurly {
        block_items_error_rest(toks.drop_first(), tctx)
    } else {
        leaf_or_call_error_rest(toks, tctx)
    }
}

/// `r` is what the spec gives, with `after` the tokens left; an expression parsed
/// has no empty block.
pub open spec fn parse_result_matches(
    r: Result<(Expression, Span), ExpressionParsingError>,
    s: Result<Parsed, ParseErr>,
    after: Seq<(Token, Span)>,
) -> bool {
    match (r, s) {
        (Ok((x, xs)), Ok((e, sp, rest))) => x@ == e && xs == sp && tokens_view(after) == rest
            && blocks_nonempty(e) && expr_wf(e),
        (Err(x), Err(u)) => x@ == u,
        _ => false,
    }
}

proof fn lemma_tokens_view_tail(s: Seq<(Token, Span)>)
    requires
        s.len() > 0,
    ensures
        tokens_view(s.subrange(1, s.len() as int)) == tokens_view(s).drop_first(),
{
    assert(tokens_view(s.subrange(1, s.len() as int)) =~= tokens_view(s).drop_first());
}

proof fn lemma_items_view_push(s: Seq<(Expression, Span)>, x: (Expression, Span))
    ensures
        items_view(s.push(x)) == items_view(s).push((x.0@, x.1)),
{
    assert(s.push(x).drop_last() =~= s);
}

fn parse_leaf_expression(
    tokens: &mut VecDeque<(Token, Span)>,
    type_context: &TypeContext,
) -> (r: Result<(Expression, Span), ExpressionParsingError>)
    ensures
        parse_result_matches(r, parse_leaf(tokens_view(old(tokens)@), type_context@), final(tokens)@),
        r is Ok ==> final(tokens)@.len() < old(tokens)@.len(),
        final(tokens)@.len() <= old(tokens)@.len(),
        r is Err ==> tokens_view(final(tokens)@) == leaf_error_rest(tokens_view(old(tokens)@)),
{
    if tokens.len() == 0 {
        return Err(ExpressionParsingError::ExpectedStartOfExpressionButGotNoMoreTokens);
    }
    let starts_an_expression = match &tokens[0].0 {
        Token::Integer(_) | Token::Word(_) | Token::Sigil => true,
        _ => false,
    };
    if !starts_an_expression {
        // A token that cannot start an expression is left where it is.
        return Err(
            ExpressionParsingError::ExpectedStartOfExpressionButGotUnexpectedToken(
                tokens[0].0.duplicate(),
                tokens[0].1,
            ),
        );
    }
    let ghost t0 = tokens@;
    proof {
        lemma_tokens_view_tail(t0);
    }
    let (token, span) = tokens.pop_front().unwrap();
    let (expression, expression_span) = match token {
        Token::Integer(value) => {
            proof {
                assert(value_view(Value::Integer(value)) == Val::Integer(value));
            }
            (Expression::Const(Value::Integer(value)), span)
        },
        Token::Word(word) => (Expression::Variable(word), span),
        _ => {
            // A sigil, which a name follows.
            if tokens.len() == 0 {
                return Err(ExpressionParsingError::ExpectedWordAfterSigilButGotNoMoreTokens);
            }
            let ghost t1 = tokens@;
            proof {
                lemma_tokens_view_tail(t1);
            }
            match tokens.pop_front() {
                Some((Token::Word(name), name_span)) => {
                    proof {
                        assert(value_view(Value::Name(name)) == Val::Name(name@));
                    }
                    (
                        Expression::Const(Value::Name(name)),
                        Span { start: span.start, end: name_span.end },
                    )
                },
                Some((unexpected_token, span)) => {
                    return Err(
                        ExpressionParsingError::ExpectedWordAfterSigilButGotUnexpectedToken(
                            unexpected_token,
                            span,
                        ),
                    );
                },
                None => {
                    return Err(ExpressionParsingError::ExpectedWordAfterSigilButGotNoMoreTokens);
                },
            }
        },
    };
    match expression.get_type(type_context) {
        Err(expression_typing_error) => Err(
            ExpressionParsingError::ExpressionTypingError(expression_typing_error, expression_span),
        ),
        Ok(_) => Ok((expression, expression_span)),
    }
}

fn parse_leaf_or_call_expression(
    tokens: &mut VecDeque<(Token, Span)>,
    type_context: &TypeContext,
) -> (r: Result<(Expression, Span), ExpressionParsingError>)
    ensures
        parse_result_matches(r, parse_leaf_or_call(tokens_view(old(tokens)@), type_context@), final(tokens)@),
        r is Ok ==> final(tokens)@.len() < old(tokens)@.len(),
        final(tokens)@.len() <= old(tokens)@.len(),
        r is Err ==> tokens_view(final(tokens)@) == leaf_or_call_error_rest(tokens_view(old(tokens)@), type_context@),
    decreases old(tokens)@.len(), 1int,
{
    let ghost len0 = tokens@.len();
    let (expression, mut expression_span) = match parse_leaf_expression(tokens, type_context) {
        Ok(x) => x,
        Err(e) => {
            return Err(e);
        },
    };
    if tokens.len() > 0 && matches!(tokens[0].0, Token::OpenParenthesis) {
        let open_parenthesis_span = tokens[0].1;
        let ghost t1 = tokens@;
        proof {
            lemma_tokens_view_tail(t1);
        }
        tokens.pop_front();
        let function_span = expression_span;
        let mut argument_list_in_parenthesis_span = open_parenthesis_span;
        let function_type_signature = match expression.get_type(type_context) {
            Ok(Type::Function(type_signature)) => type_signature,
            Ok(not_a_function_type) => {
                return Err(
                    ExpressionParsingError::FunctionCallOnNotAFunction(
                        not_a_function_type,
                        expression_span,
                    ),
                );
            },
            Err(e) => {
                return Err(ExpressionParsingError::ExpressionTypingError(e, expression_span));
            },
        };
        let ghost start = tokens_view(tokens@);
        let mut args_and_spans: Vec<(Expression, Span)> = Vec::new();
        let mut comma_needed = false;
        let mut close: Option<Span> = None;
        let mut failure: Option<ExpressionParsingError> = None;
        while close.is_none() && failure.is_none()
            invariant
                len0 == old(tokens)@.len(),
                tokens@.len() < len0,
                start.len() < len0,
                close is Some ==> failure is None,
                forall|i: int| 0 <= i < args_and_spans@.len() ==> blocks_nonempty(#[trigger] args_and_spans@[i].0@) && expr_wf(args_and_spans@[i].0@),
                close is None && failure is None ==> parse_args(start, type_context@, false) == prepend_list(
                    items_view(args_and_spans@),
                    parse_args(tokens_view(tokens@), type_context@, comma_needed),
                ),
                close matches Some(cs) ==> parse_args(start, type_context@, false) == Ok::<ParsedList, ParseErr>(
                    (items_view(args_and_spans@), cs, tokens_view(tokens@)),
                ),
                failure matches Some(f) ==> parse_args(start, type_context@, false) == Err::<ParsedList, ParseErr>(f@),
                close is None && failure is None ==> args_error_rest(start, type_context@, false)
                    == args_error_rest(tokens_view(tokens@), type_context@, comma_needed),
                failure is Some ==> tokens_view(tokens@) == args_error_rest(start, type_context@, false),
            decreases tokens@.len() + (if close is None && failure is None { 1int } else { 0int }),
        {
            let ghost cur = tokens@;
            let ghost pre = items_view(args_and_spans@);
            if tokens.len() > 0 && matches!(tokens[0].0, Token::CloseParenthesis) {
                let close_parenthesis_span = tokens[0].1;
                proof {
                    lemma_tokens_view_tail(cur);
                    assert(pre + Seq::<(Expr, Span)>::empty() =~= pre);
                }
                tokens.pop_front();
                close = Some(close_parenthesis_span);
            } else {
                if comma_needed && tokens.len() > 0 && matches!(tokens[0].0, Token::Comma) {
                    proof {
                        lemma_tokens_view_tail(cur);
                    }
                    tokens.pop_front();
                    comma_needed = false;
                }
                let ghost cur2 = tokens@;
                if !(tokens.len() > 0 && matches!(tokens[0].0, Token::CloseParenthesis)) {
                    if comma_needed {
                        if tokens.len() > 0 {
                            let (unexpected_token, span) = tokens.pop_front().unwrap();
                            failure = Some(
                                ExpressionParsingError::ExpectedCommaToSeparateArgumentsButGotUnexpectedToken(
                                    unexpected_token,
                                    span,
                                ),
                            );
                        } else {
                            failure = Some(
                                ExpressionParsingError::ExpectedCommaOrClosedParenthesisButGotNoMoreTokens,
                            );
                        }
                    } else {
                        match parse_expression(tokens, type_context) {
                            Ok(arg) => {
                                proof {
                                    lemma_items_view_push(args_and_spans@, arg);
                                    let a = (arg.0@, arg.1);
                                    assert forall|r: Result<ParsedList, ParseErr>| prepend_list(pre, #[trigger] prepend_list(seq![a], r)) == prepend_list(pre.push(a), r) by {
                                        match r {
                                            Ok((l, cs, rest)) => {
                                                assert(pre + (seq![a] + l) =~= pre.push(a) + l);
                                            },
                                            Err(_) => {},
                                        }
                                    }
                                }
                                args_and_spans.push(arg);
                                comma_needed = true;
                            },
                            Err(e) => {
                                failure = Some(e);
                            },
                        }
                    }
                }
            }
        }
        match failure {
            Some(f) => {
                return Err(f);
            },
            None => {},
        }
        let close_span = close.unwrap();
        expression_span.end = close_span.end;
        argument_list_in_parenthesis_span.end = close_span.end;
        proof {
            assert forall|i: int| 0 <= i < args_and_spans@.len() implies typeable(
                #[trigger] args_and_spans@[i].0@,
            ) by {
                lemma_blocks_nonempty_typeable(args_and_spans@[i].0@);
            }
        }
        match check_function_call_argument_types(
            function_type_signature,
            function_span,
            argument_list_in_parenthesis_span,
            args_and_spans.as_slice(),
            type_context,
        ) {
            Err(function_type_error) => {
                return Err(
                    ExpressionParsingError::FunctionCallTypingError(
                        function_type_error,
                        expression_span,
                    ),
                );
            },
            Ok(()) => {},
        }
        let call = Expression::FunctionCall {
            func: Box::new((expression, function_span)),
            args: args_and_spans,
        };
        proof {
            lemma_items_view(args_and_spans@);
            let iv = items_view(args_and_spans@);
            assert forall|i: int| 0 <= i < iv.len() implies blocks_nonempty(#[trigger] iv[i].0) && expr_wf(iv[i].0) by {
                assert(iv[i].0 == args_and_spans@[i].0@);
            }
        }
        Ok((call, expression_span))
    } else {
        Ok((expression, expression_span))
    }
}

fn parse_expression(
    tokens: &mut VecDeque<(Token, Span)>,
    type_context: &TypeContext,
) -> (r: Result<(Expression, Span), ExpressionParsingError>)
    ensures
        parse_result_matches(r, parse_expr(tokens_view(old(tokens)@), type_context@), final(tokens)@),
        r is Ok ==> final(tokens)@.len() < old(tokens)@.len(),
        final(tokens)@.len() <= old(tokens)@.len(),
        r is Err ==> tokens_view(final(tokens)@) == expr_error_rest(tokens_view(old(tokens)@), type_context@),
    decreases old(tokens)@.len(), 2int,
{
    if tokens.len() > 0 && matches!(tokens[0].0, Token::OpenCurly) {
        let ghost len0 = tokens@.len();
        let open_curly_span = tokens[0].1;
        let ghost t0 = tokens@;
        proof {
            lemma_tokens_view_tail(t0);
        }
        tokens.pop_front();
        let ghost start = tokens_view(tokens@);
        let mut expression_sequence: Vec<(Expression, Span)> = Vec::new();
        let mut close: Option<Span> = None;
        let mut failure: Option<ExpressionParsingError> = None;
        while close.is_none() && failure.is_none()
            invariant
                len0 == old(tokens)@.len(),
                tokens@.len() < len0,
                start.len() < len0,
                close is Some ==> failure is None,
                forall|i: int| 0 <= i < expression_sequence@.len() ==> blocks_nonempty(#[trigger] expression_sequence@[i].0@) && expr_wf(expression_sequence@[i].0@),
                close is None && failure is None ==> parse_block_items(start, type_context@) == prepend_list(
                    items_view(expression_sequence@),
                    parse_block_items(tokens_view(tokens@), type_context@),
                ),
                close matches Some(cs) ==> expression_sequence@.len() > 0 && parse_block_items(start, type_context@) == Ok::<ParsedList, ParseErr>(
                    (items_view(expression_sequence@), cs, tokens_view(tokens@)),
                ),
                failure matches Some(f) ==> parse_block_items(start, type_context@) == Err::<ParsedList, ParseErr>(f@),
                close is None && failure is None ==> block_items_error_rest(start, type_context@)
                    == block_items_error_rest(tokens_view(tokens@), type_context@),
                failure is Some ==> tokens_view(tokens@) == block_items_error_rest(start, type_context@),
            decreases tokens@.len() + (if close is None && failure is None { 1int } else { 0int }),
        {
            let ghost pre = items_view(expression_sequence@);
            let ghost cur = tokens_view(tokens@);
            match parse_expression(tokens, type_context) {
                Err(e) => {
                    failure = Some(e);
                },
                Ok(item) => {
                    let ghost a = (item.0@, item.1);
                    proof {
                        lemma_items_view_push(expression_sequence@, item);
                    }
                    expression_sequence.push(item);
                    let ghost after = tokens@;
                    if tokens.len() > 0 && matches!(tokens[0].0, Token::CloseCurly) {
                        let close_curly_span = tokens[0].1;
                        proof {
                            lemma_tokens_view_tail(after);
                            assert(pre + seq![a] =~= pre.push(a));
                        }
                        tokens.pop_front();
                        close = Some(close_curly_span);
                    } else if tokens.len() > 0 && matches!(tokens[0].0, Token::Semicolon) {
                        proof {
                            lemma_tokens_view_tail(after);
                            assert forall|r: Result<ParsedList, ParseErr>| prepend_list(pre, #[trigger] prepend_list(seq![a], r)) == prepend_list(pre.push(a), r) by {
                                match r {
                                    Ok((l, cs, rest)) => {
                                        assert(pre + (seq![a] + l) =~= pre.push(a) + l);
                                    },
                                    Err(_) => {},
                                }
                            }
                        }
                        tokens.pop_front();
                    } else if tokens.len() > 0 {
                        // The unexpected token is left where it is.
                        failure = Some(
                            ExpressionParsingError::ExpectedSemicolonToSeparateExpressionsInBlockButGotUnexpectedToken(
                                tokens[0].0.duplicate(),
                                tokens[0].1,
                            ),
                        );
                    } else {
                        failure = Some(ExpressionParsingError::ExpectedSemicolonOrClosedCurlyButGotNoMoreTokens);
                    }
                },
            }
        }
        match failure {
            Some(f) => {
                return Err(f);
            },
            None => {},
        }
        let close_span = close.unwrap();
        proof {
            lemma_items_view(expression_sequence@);
            let iv = items_view(expression_sequence@);
            assert forall|i: int| 0 <= i < iv.len() implies blocks_nonempty(#[trigger] iv[i].0) && expr_wf(iv[i].0) by {
                assert(iv[i].0 == expression_sequence@[i].0@);
            }
        }
        Ok((Expression::Block(expression_sequence), Span { start: open_curly_span.start, end: close_span.end }))
    } else {
        parse_leaf_or_call_expression(tokens, type_context)
    }
}


/// Parsing a whole program: its tokens form an expression (tokens after it are ignored).
pub open spec fn parse_program(code: Seq<char>, tctx: Seq<(Seq<char>, Ty)>) -> Result<(Expr, Span), ParseErr> {
    match parse_expr(spec_tokenize(code, 0), tctx) {
        Ok((e, sp, _)) => Ok((e, sp)),
        Err(x) => Err(x),
    }
}

/// Parses the code into a typed expression, in the type context.
pub fn parse(qwy_script_code: &str, type_context: &TypeContext) -> (r: Result<(Expression, Span), ExpressionParsingError>)
    requires
        can_tokenize(qwy_script_code@, 0),
    ensures
        match (r, parse_program(qwy_script_code@, type_context@)) {
            (Ok((x, xs)), Ok((e, sp))) => x@ == e && xs == sp && blocks_nonempty(e) && expr_wf(e),
            (Err(x), Err(u)) => x@ == u,
            _ => false,
        },
{
    let token_vec = tokenize(qwy_script_code);
    let mut tokens: VecDeque<(Token, Span)> = VecDeque::new();
    let mut token_vec = token_vec;
    let ghost all = token_vec@;
    let mut rev: Vec<(Token, Span)> = Vec::new();
    while token_vec.len() > 0
        invariant
            all == token_vec@ + rev@.reverse(),
        decreases token_vec.len(),
    {
        let t = token_vec.pop().unwrap();
        proof {
            assert(all =~= token_vec@ + rev@.push(t).reverse());
        }
        rev.push(t);
    }
    while rev.len() > 0
        invariant
            all == tokens@ + rev@.reverse(),
        decreases rev.len(),
    {
        let t = rev.pop().unwrap();
        proof {
            assert(all =~= tokens@.push(t) + rev@.reverse());
        }
        tokens.push_back(t);
    }
    proof {
        assert(tokens@ =~= all);
    }
    parse_expression(&mut tokens, type_context)
}

} // verus!
