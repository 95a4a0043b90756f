//! Qwy Script programs are statically typed: a program that parses is well typed, and the value
//! of its evaluation has the type that parsing gave it.

use vstd::prelude::*;

use super::eval::{
    apply_builtin, can_call, closed_flag, eval, eval_items, items_closed_flag, Ctx, Evaluated,
};
use super::model::{
    builtin_function, builtin_name, builtin_sig, expr_closed, expr_depth, items_closed, items_depth, lemma_items_depth, lookup,
    satisfies, type_of, value_closed, value_depth, Body, Constraint, Expr, Out, Ty, TypingErr, Val,
};
use super::parse::{parse_args, parse_block_items, parse_expr, parse_leaf, parse_leaf_or_call, parse_program};
use super::tokenize::spec_tokenize;
use super::typing::{
    all_builtins, builtins_context, check_args_from, check_call, expr_type, lemma_lookup_type_context,
    type_context_of,
};
use super::values::{BuiltInFunctionBody, Span};
use super::model::Tok;

verus! {

pub type TypeCtx = Seq<(Seq<char>, Ty)>;

/// The expression is typed, with a type that satisfies the constraint.
pub open spec fn fits(e: Expr, tctx: TypeCtx, c: Constraint) -> bool {
    match expr_type(e, tctx) {
        Ok(t) => satisfies(c, t),
        Err(_) => false,
    }
}

/// The typing judgment of Qwy Script: constants hold sound values, variables are known, a
/// called expression is a function given as many arguments as its signature has parameters,
/// each of a type that satisfies the constraints of its parameter, and blocks are not empty.
pub open spec fn well_typed(e: Expr, tctx: TypeCtx) -> bool
    decreases e,
{
    match e {
        Expr::Const(v) => value_sound(v),
        Expr::Variable(n) => lookup(tctx, n) is Some,
        Expr::Call(f, _, args) => well_typed(*f, tctx) && match expr_type(*f, tctx) {
            Ok(Ty::Function(sig)) => args.len() == sig.args.len() && forall|i: int|
                0 <= i < args.len() ==> well_typed(#[trigger] args[i].0, tctx) && fits(
                    args[i].0,
                    tctx,
                    sig.args[i],
                ),
            _ => false,
        },
        Expr::Block(items) => items.len() > 0 && forall|i: int|
            0 <= i < items.len() ==> well_typed(#[trigger] items[i].0, tctx),
    }
}

/// A value is sound when the function it may be keeps the promise of its signature: a built-in
/// function has its own signature, and the body of another function is a closed, well-typed
/// expression of the returned type.
pub open spec fn value_sound(v: Val) -> bool
    decreases v,
{
    match v {
        Val::Function(f) => match f.body {
            Body::BuiltIn(b) => f.sig == builtin_sig(b),
            Body::Expression(body) => expr_closed(*body) && well_typed(*body, Seq::empty())
                && expr_type(*body, Seq::empty()) == Ok::<Ty, TypingErr>(*f.sig.ret),
        },
        _ => true,
    }
}

/// Every value of the context is sound.
pub open spec fn ctx_sound(ctx: Ctx) -> bool {
    forall|i: int| 0 <= i < ctx.len() ==> value_sound(#[trigger] ctx[i].1)
}

proof fn lemma_parse_leaf_typed(toks: Seq<(Tok, Span)>, tctx: TypeCtx)
    ensures
        parse_leaf(toks, tctx) matches Ok((e, _, rest)) ==> well_typed(e, tctx) && expr_type(
            e,
            tctx,
        ) is Ok && rest.len() < toks.len(),
{
    if toks.len() > 0 {
        match toks[0].0 {
            Tok::Integer(v) => {
                assert(value_sound(Val::Integer(v)));
            },
            Tok::Word(w) => {},
            Tok::Sigil => {
                let rest = toks.drop_first();
                if rest.len() > 0 {
                    match rest[0].0 {
                        Tok::Word(n) => {
                            assert(value_sound(Val::Name(n)));
                        },
                        _ => {},
                    }
                }
            },
            _ => {},
        }
    }
}

proof fn lemma_check_args_typed(
    sig_args: Seq<Constraint>,
    args: Seq<(Expr, Span)>,
    tctx: TypeCtx,
    i: int,
    function_span: Span,
    call_span: Span,
)
    requires
        0 <= i,
        check_args_from(sig_args, args, tctx, i, function_span, call_span) is Ok,
    ensures
        forall|j: int|
            i <= j < args.len() ==> fits(#[trigger] args[j].0, tctx, sig_args[j]),
    decreases args.len() - i,
{
    if i < args.len() {
        lemma_check_args_typed(sig_args, args, tctx, i + 1, function_span, call_span);
    }
}

proof fn lemma_parse_expr_typed(toks: Seq<(Tok, Span)>, tctx: TypeCtx)
    ensures
        parse_expr(toks, tctx) matches Ok((e, _, rest)) ==> well_typed(e, tctx) && rest.len()
            < toks.len(),
    decreases toks.len(), 2int,
{
    if toks.len() > 0 && toks[0].0 is OpenCurly {
        lemma_parse_block_items_typed(toks.drop_first(), tctx);
    } else {
        lemma_parse_leaf_or_call_typed(toks, tctx);
    }
}

proof fn lemma_parse_leaf_or_call_typed(toks: Seq<(Tok, Span)>, tctx: TypeCtx)
    ensures
        parse_leaf_or_call(toks, tctx) matches Ok((e, _, rest)) ==> well_typed(e, tctx)
            && rest.len() < toks.len(),
    decreases toks.len(), 1int,
{
    lemma_parse_leaf_typed(toks, tctx);
    match parse_leaf(toks, tctx) {
        Err(_) => {},
        Ok((e, esp, rest)) => {
            if rest.len() > 0 && rest[0].0 is OpenParenthesis {
                let op = rest[0].1;
                let rest1 = rest.drop_first();
                match expr_type(e, tctx) {
                    Ok(Ty::Function(sig)) => {
                        if rest1.len() < toks.len() {
                            lemma_parse_args_typed(rest1, tctx, false);
                            match parse_args(rest1, tctx, false) {
                                Err(_) => {},
                                Ok((args, cs, rest2)) => {
                                    let args_list_span = Span { start: op.start, end: cs.end };
                                    let call_span = Span { start: esp.start, end: args_list_span.end };
                                    if check_call(sig, esp, args_list_span, args, tctx) is Ok {
                                        lemma_check_args_typed(
                                            sig.args,
                                            args,
                                            tctx,
                                            0,
                                            esp,
                                            call_span,
                                        );
                                    }
                                },
                            }
                        }
                    },
                    _ => {},
                }
            }
        },
    }
}

proof fn lemma_parse_args_typed(toks: Seq<(Tok, Span)>, tctx: TypeCtx, comma_needed: bool)
    ensures
        parse_args(toks, tctx, comma_needed) matches Ok((args, _, rest)) ==> (forall|i: int|
            0 <= i < args.len() ==> well_typed(#[trigger] args[i].0, tctx)) && rest.len()
            < toks.len(),
    decreases toks.len(), 3int,
{
    if toks.len() > 0 && toks[0].0 is CloseParenthesis {
    } else {
        let skip = comma_needed && toks.len() > 0 && toks[0].0 is Comma;
        let toks2 = if skip {
            toks.drop_first()
        } else {
            toks
        };
        let comma_needed2 = if skip {
            false
        } else {
            comma_needed
        };
        if toks2.len() > 0 && toks2[0].0 is CloseParenthesis {
        } else if comma_needed2 {
        } else {
            lemma_parse_expr_typed(toks2, tctx);
            match parse_expr(toks2, tctx) {
                Err(_) => {},
                Ok((a, asp, rest)) => {
                    if rest.len() < toks.len() {
                        lemma_parse_args_typed(rest, tctx, true);
                        match parse_args(rest, tctx, true) {
                            Err(_) => {},
                            Ok((l, cs, rest3)) => {
                                let all = seq![(a, asp)] + l;
                                assert forall|i: int| 0 <= i < all.len() implies well_typed(
                                    #[trigger] all[i].0,
                                    tctx,
                                ) by {
                                    if i > 0 {
                                        assert(all[i] == l[i - 1]);
                                    }
                                }
                            },
                        }
                    }
                },
            }
        }
    }
}

proof fn lemma_parse_block_items_typed(toks: Seq<(Tok, Span)>, tctx: TypeCtx)
    ensures
        parse_block_items(toks, tctx) matches Ok((items, _, rest)) ==> items.len() > 0 && (forall|
            i: int,
        | 0 <= i < items.len() ==> well_typed(#[trigger] items[i].0, tctx)) && rest.len()
            < toks.len(),
    decreases toks.len(), 3int,
{
    lemma_parse_expr_typed(toks, tctx);
    match parse_expr(toks, tctx) {
        Err(_) => {},
        Ok((e, esp, rest)) => {
            if rest.len() > 0 && rest[0].0 is CloseCurly {
            } else if rest.len() > 0 && rest[0].0 is Semicolon {
                if rest.len() < toks.len() {
                    lemma_parse_block_items_typed(rest.drop_first(), tctx);
                    match parse_block_items(rest.drop_first(), tctx) {
                        Err(_) => {},
                        Ok((l, cs, rest3)) => {
                            let all = seq![(e, esp)] + l;
                            assert forall|i: int| 0 <= i < all.len() implies well_typed(
                                #[trigger] all[i].0,
                                tctx,
                            ) by {
                                if i > 0 {
                                    assert(all[i] == l[i - 1]);
                                }
                            }
                        },
                    }
                }
            }
        },
    }
}

proof fn lemma_prefix_trans(a: Ctx, b: Ctx, c: Ctx)
    requires
        a.is_prefix_of(b),
        b.is_prefix_of(c),
    ensures
        a.is_prefix_of(c),
{
    assert(a =~= c.subrange(0, a.len() as int)) by {
        assert forall|i: int| 0 <= i < a.len() implies a[i] == c.subrange(0, a.len() as int)[i] by {
            assert(a[i] == b.subrange(0, a.len() as int)[i]);
            assert(b[i] == c.subrange(0, b.len() as int)[i]);
        }
    }
}

proof fn lemma_lookup_prefix(c0: Ctx, c: Ctx, n: Seq<char>)
    requires
        c0.is_prefix_of(c),
        lookup(c0, n) is Some,
    ensures
        lookup(c, n) == lookup(c0, n),
    decreases c0.len(),
{
    assert(c0[0] == c.subrange(0, c0.len() as int)[0]);
    if c0[0].0 != n {
        assert(c0.drop_first().is_prefix_of(c.drop_first())) by {
            assert(c0.drop_first() =~= c.drop_first().subrange(0, c0.len() - 1));
        }
        lemma_lookup_prefix(c0.drop_first(), c.drop_first(), n);
    }
}

proof fn lemma_lookup_sound(c: Ctx, n: Seq<char>)
    requires
        ctx_sound(c),
        lookup(c, n) is Some,
    ensures
        value_sound(lookup(c, n).unwrap()),
    decreases c.len(),
{
    assert(value_sound(c[0].1));
    if c[0].0 != n {
        assert(ctx_sound(c.drop_first())) by {
            assert forall|i: int| 0 <= i < c.drop_first().len() implies value_sound(
                #[trigger] c.drop_first()[i].1,
            ) by {
                assert(c.drop_first()[i] == c[i + 1]);
            }
        }
        lemma_lookup_sound(c.drop_first(), n);
    }
}

proof fn lemma_evaluation_typed(e: Expr, c0: Ctx, c: Ctx)
    requires
        well_typed(e, type_context_of(c0)),
        c0.is_prefix_of(c),
        ctx_sound(c),
    ensures
        eval(e, c) matches Some((v, c2, _)) ==> expr_type(e, type_context_of(c0)) == Ok::<
            Ty,
            TypingErr,
        >(type_of(v)) && value_sound(v) && c.is_prefix_of(c2) && ctx_sound(c2),
    decreases closed_flag(e), expr_depth(e), 0int,
{
    let tctx = type_context_of(c0);
    match e {
        Expr::Const(v) => {
            assert(c.is_prefix_of(c)) by {
                assert(c =~= c.subrange(0, c.len() as int));
            }
        },
        Expr::Variable(n) => {
            lemma_lookup_type_context(c0, n);
            lemma_lookup_prefix(c0, c, n);
            lemma_lookup_sound(c, n);
            assert(c.is_prefix_of(c)) by {
                assert(c =~= c.subrange(0, c.len() as int));
            }
        },
        Expr::Call(f, _, args) => {
            lemma_evaluation_typed(*f, c0, c);
            match eval(*f, c) {
                None => {},
                Some((fv, c1, _)) => {
                    match fv {
                        Val::Function(func) => {
                            lemma_prefix_trans(c0, c, c1);
                            lemma_evaluations_typed(args, c0, c1);
                            match eval_items(args, c1) {
                                None => {},
                                Some((vals, c2, _)) => {
                                    lemma_prefix_trans(c, c1, c2);
                                    match func.body {
                                        Body::BuiltIn(b) => {
                                            assert forall|i: int| 0 <= i < vals.len() implies value_sound(
                                                #[trigger] vals[i],
                                            ) by {
                                                assert(expr_type(args[i].0, tctx) == Ok::<Ty, TypingErr>(
                                                    type_of(vals[i]),
                                                ));
                                            }
                                            lemma_builtin_typed(b, vals, c2);
                                            match apply_builtin(b, vals, c2) {
                                                None => {},
                                                Some((_, c3, _)) => {
                                                    lemma_prefix_trans(c, c2, c3);
                                                },
                                            }
                                        },
                                        Body::Expression(body) => {
                                            if can_call(fv, e) {
                                                let empty = Seq::<(Seq<char>, Val)>::empty();
                                                assert(type_context_of(empty) =~= Seq::<(Seq<char>, Ty)>::empty());
                                                assert(empty.is_prefix_of(c2));
                                                lemma_evaluation_typed(*body, empty, c2);
                                                match eval(*body, c2) {
                                                    None => {},
                                                    Some((_, c3, _)) => {
                                                        lemma_prefix_trans(c, c2, c3);
                                                    },
                                                }
                                            }
                                        },
                                    }
                                },
                            }
                        },
                        _ => {},
                    }
                },
            }
        },
        Expr::Block(items) => {
            lemma_evaluations_typed(items, c0, c);
        },
    }
}

proof fn lemma_builtin_typed(b: BuiltInFunctionBody, vals: Seq<Val>, c: Ctx)
    requires
        ctx_sound(c),
        forall|i: int| 0 <= i < vals.len() ==> value_sound(#[trigger] vals[i]),
    ensures
        apply_builtin(b, vals, c) matches Some((v, c2, _)) ==> type_of(v) == *builtin_sig(b).ret
            && value_sound(v) && c.is_prefix_of(c2) && ctx_sound(c2),
{
    assert(c.is_prefix_of(c)) by {
        assert(c =~= c.subrange(0, c.len() as int));
    }
    match apply_builtin(b, vals, c) {
        None => {},
        Some((v, c2, _)) => {
            if b == BuiltInFunctionBody::DeclareAndSetGlobalVariable {
                assert(c.is_prefix_of(c2)) by {
                    assert(c =~= c2.subrange(0, c.len() as int));
                }
                assert forall|i: int| 0 <= i < c2.len() implies value_sound(#[trigger] c2[i].1) by {
                    if i < c.len() {
                        assert(c2[i] == c[i]);
                    } else {
                        assert(value_sound(vals[1]));
                    }
                }
            }
        },
    }
}

proof fn lemma_evaluations_typed(items: Seq<(Expr, Span)>, c0: Ctx, c: Ctx)
    requires
        forall|i: int| 0 <= i < items.len() ==> well_typed(#[trigger] items[i].0, type_context_of(c0)),
        c0.is_prefix_of(c),
        ctx_sound(c),
    ensures
        eval_items(items, c) matches Some((vals, c2, _)) ==> vals.len() == items.len() && (forall|
            i: int,
        | 0 <= i < items.len() ==> expr_type(#[trigger] items[i].0, type_context_of(c0)) == Ok::<
            Ty,
            TypingErr,
        >(type_of(vals[i])) && value_sound(vals[i])) && c.is_prefix_of(c2) && ctx_sound(c2),
    decreases items_closed_flag(items), items_depth(items), items.len(),
{
    if items.len() == 0 {
        assert(c.is_prefix_of(c)) by {
            assert(c =~= c.subrange(0, c.len() as int));
        }
    } else {
        let rest = items.drop_first();
        assert(items_closed(items) ==> items_closed(rest)) by {
            if items_closed(items) {
                assert forall|i: int| 0 <= i < rest.len() implies expr_closed(#[trigger] rest[i].0) by {
                    assert(rest[i] == items[i + 1]);
                }
            }
        }
        lemma_items_depth(items, 0);
        assert(well_typed(items[0].0, type_context_of(c0)));
        lemma_evaluation_typed(items[0].0, c0, c);
        match eval(items[0].0, c) {
            None => {},
            Some((v, c1, _)) => {
                lemma_prefix_trans(c0, c, c1);
                assert forall|i: int| 0 <= i < rest.len() implies well_typed(
                    #[trigger] rest[i].0,
                    type_context_of(c0),
                ) by {
                    assert(rest[i] == items[i + 1]);
                }
                lemma_evaluations_typed(rest, c0, c1);
                match eval_items(rest, c1) {
                    None => {},
                    Some((vs, c2, _)) => {
                        lemma_prefix_trans(c, c1, c2);
                        let vals = seq![v] + vs;
                        assert forall|i: int| 0 <= i < items.len() implies expr_type(
                            #[trigger] items[i].0,
                            type_context_of(c0),
                        ) == Ok::<Ty, TypingErr>(type_of(vals[i])) && value_sound(vals[i]) by {
                            if i > 0 {
                                assert(items[i] == rest[i - 1]);
                                assert(vals[i] == vs[i - 1]);
                            }
                        }
                    },
                }
            },
        }
    }
}

/// Programs are statically typed: a program that parses in the types of the variables of a
/// context whose values are sound is well typed, and if its evaluation succeeds, the value it
/// gives has the type that parsing gave the program, the variables of the context keep their
/// values (new ones may come after them), and the values of the context stay sound.
pub proof fn law_programs_are_statically_typed(code: Seq<char>, ctx: Ctx)
    requires
        ctx_sound(ctx),
    ensures
        parse_program(code, type_context_of(ctx)) matches Ok((e, _)) ==> well_typed(
            e,
            type_context_of(ctx),
        ) && (eval(e, ctx) matches Some((v, c2, _)) ==> expr_type(e, type_context_of(ctx)) == Ok::<
            Ty,
            TypingErr,
        >(type_of(v)) && ctx.is_prefix_of(c2) && ctx_sound(c2)),
{
    lemma_parse_expr_typed(spec_tokenize(code, 0), type_context_of(ctx));
    assert(ctx.is_prefix_of(ctx)) by {
        assert(ctx =~= ctx.subrange(0, ctx.len() as int));
    }
    match parse_program(code, type_context_of(ctx)) {
        Ok((e, _)) => {
            lemma_evaluation_typed(e, ctx, ctx);
        },
        Err(_) => {},
    }
}

/// The values of the context of the built-in functions are sound.
pub proof fn lemma_builtins_context_sound()
    ensures
        ctx_sound(builtins_context()),
{
    assert forall|i: int| 0 <= i < builtins_context().len() implies value_sound(
        #[trigger] builtins_context()[i].1,
    ) by {
        assert(builtins_context()[i] == (builtin_name(all_builtins()[i]), Val::Function(builtin_function(all_builtins()[i]))));
    }
}

// ---------------------------------------------------------------- well-typed programs do not go wrong

/// Why an evaluation fails: a declaration of a variable that already exists, or anything else
/// (which typing rules out).
pub enum Failure {
    Redeclaration,
    Stuck,
}

/// What a built-in function does with the values of its arguments, telling apart the failure
/// of declaring a variable that already exists.
pub open spec fn apply_builtin_or_failure(b: BuiltInFunctionBody, vals: Seq<Val>, ctx: Ctx) -> Result<
    Evaluated,
    Failure,
> {
    match apply_builtin(b, vals, ctx) {
        Some(x) => Ok(x),
        None => if b == BuiltInFunctionBody::DeclareAndSetGlobalVariable && vals.len() > 1
            && vals[0] is Name && lookup(ctx, vals[0]->Name_0) is Some {
            Err(Failure::Redeclaration)
        } else {
            Err(Failure::Stuck)
        },
    }
}

/// The evaluation of `eval`, telling apart why it fails.
pub open spec fn eval_or_failure(e: Expr, ctx: Ctx) -> Result<Evaluated, Failure>
    decreases closed_flag(e), expr_depth(e), 0int,
{
    match e {
        Expr::Const(v) => Ok((v, ctx, Seq::empty())),
        Expr::Variable(n) => match lookup(ctx, n) {
            Some(v) => Ok((v, ctx, Seq::empty())),
            None => Err(Failure::Stuck),
        },
        Expr::Call(f, _, args) => match eval_or_failure(*f, ctx) {
            Err(x) => Err(x),
            Ok((fv, ctx1, out1)) => match fv {
                Val::Function(func) => match eval_items_or_failure(args, ctx1) {
                    Err(x) => Err(x),
                    Ok((vals, ctx2, out2)) => match func.body {
                        Body::BuiltIn(b) => match apply_builtin_or_failure(b, vals, ctx2) {
                            Err(x) => Err(x),
                            Ok((v, ctx3, out3)) => Ok((v, ctx3, out1 + out2 + out3)),
                        },
                        Body::Expression(body) => if can_call(fv, e) {
                            match eval_or_failure(*body, ctx2) {
                                Err(x) => Err(x),
                                Ok((v, ctx3, out3)) => Ok((v, ctx3, out1 + out2 + out3)),
                            }
                        } else {
                            Err(Failure::Stuck)
                        },
                    },
                },
                _ => Err(Failure::Stuck),
            },
        },
        Expr::Block(items) => if items.len() == 0 {
            Err(Failure::Stuck)
        } else {
            match eval_items_or_failure(items, ctx) {
                Err(x) => Err(x),
                Ok((vals, c, o)) => if vals.len() > 0 {
                    Ok((vals.last(), c, o))
                } else {
                    Err(Failure::Stuck)
                },
            }
        },
    }
}

/// The evaluation of `eval_items`, telling apart why it fails.
pub open spec fn eval_items_or_failure(items: Seq<(Expr, Span)>, ctx: Ctx) -> Result<
    (Seq<Val>, Ctx, Seq<Out>),
    Failure,
>
    decreases items_closed_flag(items), items_depth(items), items.len(),
{
    if items.len() == 0 {
        Ok((Seq::empty(), ctx, Seq::empty()))
    } else {
        match eval_or_failure(items[0].0, ctx) {
            Err(x) => Err(x),
            Ok((v, c1, o1)) => match eval_items_or_failure(items.drop_first(), c1) {
                Err(x) => Err(x),
                Ok((vs, c2, o2)) => Ok((seq![v] + vs, c2, o1 + o2)),
            },
        }
    }
}

/// `eval_or_failure` succeeds exactly where `eval` does, with the same outcome.
proof fn lemma_eval_agrees(e: Expr, ctx: Ctx)
    ensures
        eval(e, ctx) == match eval_or_failure(e, ctx) {
            Ok(x) => Some(x),
            Err(_) => None::<Evaluated>,
        },
    decreases closed_flag(e), expr_depth(e), 0int,
{
    match e {
        Expr::Call(f, _, args) => {
            lemma_eval_agrees(*f, ctx);
            match eval(*f, ctx) {
                Some((fv, ctx1, _)) => {
                    match fv {
                        Val::Function(func) => {
                            lemma_eval_items_agrees(args, ctx1);
                            match eval_items(args, ctx1) {
                                Some((vals, ctx2, _)) => {
                                    match func.body {
                                        Body::Expression(body) => {
                                            if can_call(fv, e) {
                                                lemma_eval_agrees(*body, ctx2);
                                            }
                                        },
                                        _ => {},
                                    }
                                },
                                None => {},
                            }
                        },
                        _ => {},
                    }
                },
                None => {},
            }
        },
        Expr::Block(items) => {
            lemma_eval_items_agrees(items, ctx);
        },
        _ => {},
    }
}

proof fn lemma_eval_items_agrees(items: Seq<(Expr, Span)>, ctx: Ctx)
    ensures
        eval_items(items, ctx) == match eval_items_or_failure(items, ctx) {
            Ok(x) => Some(x),
            Err(_) => None::<(Seq<Val>, Ctx, Seq<Out>)>,
        },
    decreases items_closed_flag(items), items_depth(items), items.len(),
{
    if items.len() > 0 {
        let rest = items.drop_first();
        assert(items_closed(items) ==> items_closed(rest)) by {
            if items_closed(items) {
                assert forall|i: int| 0 <= i < rest.len() implies expr_closed(#[trigger] rest[i].0) by {
                    assert(rest[i] == items[i + 1]);
                }
            }
        }
        lemma_items_depth(items, 0);
        lemma_eval_agrees(items[0].0, ctx);
        match eval(items[0].0, ctx) {
            Some((_, c1, _)) => {
                lemma_eval_items_agrees(rest, c1);
            },
            None => {},
        }
    }
}


proof fn lemma_builtin_progress(b: BuiltInFunctionBody, vals: Seq<Val>, c: Ctx)
    requires
        vals.len() == builtin_sig(b).args.len(),
        forall|i: int|
            0 <= i < vals.len() ==> satisfies(builtin_sig(b).args[i], type_of(#[trigger] vals[i])),
    ensures
        apply_builtin_or_failure(b, vals, c) != Err::<Evaluated, Failure>(Failure::Stuck),
        apply_builtin_or_failure(b, vals, c) matches Ok((v, _, _)) ==> value_depth(v) == 0,
{
    match b {
        BuiltInFunctionBody::PrintInteger => {
            assert(satisfies(builtin_sig(b).args[0], type_of(vals[0])));
        },
        BuiltInFunctionBody::PrintThreeIntegers => {
            assert forall|i: int| 0 <= i < vals.len() implies #[trigger] vals[i] is Integer by {
                assert(satisfies(builtin_sig(b).args[i], type_of(vals[i])));
            }
        },
        BuiltInFunctionBody::ToType => {},
        BuiltInFunctionBody::PrintType => {
            assert(satisfies(builtin_sig(b).args[0], type_of(vals[0])));
        },
        BuiltInFunctionBody::DeclareAndSetGlobalVariable => {
            assert(satisfies(builtin_sig(b).args[0], type_of(vals[0])));
        },
    }
}

/// A sound value is closed.
proof fn lemma_sound_value_closed(v: Val)
    requires
        value_sound(v),
    ensures
        value_closed(v),
{
}

/// A well-typed expression evaluated in a sound context that extends the context it was typed
/// in does not get stuck; the evaluation of a closed expression gives a value whose function
/// bodies nest less deeply than the expression.
proof fn lemma_progress(e: Expr, c0: Ctx, c: Ctx)
    requires
        well_typed(e, type_context_of(c0)),
        c0.is_prefix_of(c),
        ctx_sound(c),
    ensures
        eval_or_failure(e, c) != Err::<Evaluated, Failure>(Failure::Stuck),
        eval_or_failure(e, c) matches Ok((v, _, _)) ==> (expr_closed(e) ==> value_depth(v)
            < expr_depth(e)),
    decreases closed_flag(e), expr_depth(e), 0int,
{
    let tctx = type_context_of(c0);
    match e {
        Expr::Const(v) => {},
        Expr::Variable(n) => {
            lemma_lookup_type_context(c0, n);
            lemma_lookup_prefix(c0, c, n);
        },
        Expr::Call(f, _, args) => {
            lemma_progress(*f, c0, c);
            lemma_eval_agrees(*f, c);
            lemma_evaluation_typed(*f, c0, c);
            match eval_or_failure(*f, c) {
                Err(_) => {},
                Ok((fv, c1, _)) => {
                    let sig = expr_type(*f, tctx)->Ok_0->Function_0;
                    assert(type_of(fv) == Ty::Function(sig));
                    let func = fv->Function_0;
                    lemma_prefix_trans(c0, c, c1);
                    assert(items_closed_flag(args) <= closed_flag(e));
                    lemma_progress_items(args, c0, c1);
                    lemma_eval_items_agrees(args, c1);
                    lemma_evaluations_typed(args, c0, c1);
                    match eval_items_or_failure(args, c1) {
                        Err(_) => {},
                        Ok((vals, c2, _)) => {
                            assert forall|i: int| 0 <= i < vals.len() implies satisfies(
                                sig.args[i],
                                type_of(#[trigger] vals[i]),
                            ) by {
                                assert(fits(args[i].0, tctx, sig.args[i]));
                                assert(expr_type(args[i].0, tctx) == Ok::<Ty, TypingErr>(
                                    type_of(vals[i]),
                                ));
                            }
                            match func.body {
                                Body::BuiltIn(b) => {
                                    lemma_builtin_progress(b, vals, c2);
                                },
                                Body::Expression(body) => {
                                    lemma_sound_value_closed(fv);
                                    assert(can_call(fv, e));
                                    let empty = Seq::<(Seq<char>, Val)>::empty();
                                    assert(type_context_of(empty) =~= Seq::<(Seq<char>, Ty)>::empty());
                                    assert(empty.is_prefix_of(c2));
                                    lemma_progress(*body, empty, c2);
                                },
                            }
                        },
                    }
                },
            }
        },
        Expr::Block(items) => {
            lemma_progress_items(items, c0, c);
            lemma_eval_items_agrees(items, c);
            lemma_evaluations_typed(items, c0, c);
            match eval_items_or_failure(items, c) {
                Err(_) => {},
                Ok((vals, c2, _)) => {
                    if expr_closed(e) {
                        lemma_items_depth(items, items.len() - 1);
                    }
                },
            }
        },
    }
}

proof fn lemma_progress_items(items: Seq<(Expr, Span)>, c0: Ctx, c: Ctx)
    requires
        forall|i: int| 0 <= i < items.len() ==> well_typed(#[trigger] items[i].0, type_context_of(c0)),
        c0.is_prefix_of(c),
        ctx_sound(c),
    ensures
        eval_items_or_failure(items, c) != Err::<(Seq<Val>, Ctx, Seq<Out>), Failure>(
            Failure::Stuck,
        ),
        eval_items_or_failure(items, c) matches Ok((vals, _, _)) ==> vals.len() == items.len() && (
        items_closed(items) ==> forall|i: int|
            0 <= i < items.len() ==> value_depth(#[trigger] vals[i]) < expr_depth(items[i].0)),
    decreases items_closed_flag(items), items_depth(items), items.len(),
{
    if items.len() > 0 {
        let rest = items.drop_first();
        assert(items_closed(items) ==> items_closed(rest)) by {
            if items_closed(items) {
                assert forall|i: int| 0 <= i < rest.len() implies expr_closed(#[trigger] rest[i].0) by {
                    assert(rest[i] == items[i + 1]);
                }
            }
        }
        lemma_items_depth(items, 0);
        assert(well_typed(items[0].0, type_context_of(c0)));
        lemma_progress(items[0].0, c0, c);
        lemma_eval_agrees(items[0].0, c);
        lemma_evaluation_typed(items[0].0, c0, c);
        match eval_or_failure(items[0].0, c) {
            Err(_) => {},
            Ok((v, c1, _)) => {
                lemma_prefix_trans(c0, c, c1);
                assert forall|i: int| 0 <= i < rest.len() implies well_typed(
                    #[trigger] rest[i].0,
                    type_context_of(c0),
                ) by {
                    assert(rest[i] == items[i + 1]);
                }
                lemma_progress_items(rest, c0, c1);
                match eval_items_or_failure(rest, c1) {
                    Err(_) => {},
                    Ok((vs, c2, _)) => {
                        let vals = seq![v] + vs;
                        if items_closed(items) {
                            assert forall|i: int| 0 <= i < items.len() implies value_depth(
                                #[trigger] vals[i],
                            ) < expr_depth(items[i].0) by {
                                if i > 0 {
                                    assert(items[i] == rest[i - 1]);
                                    assert(vals[i] == vs[i - 1]);
                                }
                            }
                        }
                    },
                }
            },
        }
    }
}

/// A program that parses, run in a context whose values are sound, fails only by declaring a
/// variable that already exists: its evaluation fails exactly where that is why it fails.
pub proof fn law_programs_fail_only_by_redeclaration(code: Seq<char>, ctx: Ctx)
    requires
        ctx_sound(ctx),
    ensures
        parse_program(code, type_context_of(ctx)) matches Ok((e, _)) ==> (eval(e, ctx) is None
            <==> eval_or_failure(e, ctx) == Err::<Evaluated, Failure>(Failure::Redeclaration)),
{
    lemma_parse_expr_typed(spec_tokenize(code, 0), type_context_of(ctx));
    assert(ctx.is_prefix_of(ctx)) by {
        assert(ctx =~= ctx.subrange(0, ctx.len() as int));
    }
    match parse_program(code, type_context_of(ctx)) {
        Ok((e, _)) => {
            lemma_progress(e, ctx, ctx);
            lemma_eval_agrees(e, ctx);
        },
        Err(_) => {},
    }
}


/// A well-typed expression has a type.
proof fn lemma_well_typed_has_type(e: Expr, tctx: TypeCtx)
    requires
        well_typed(e, tctx),
    ensures
        expr_type(e, tctx) is Ok,
    decreases e,
{
    match e {
        Expr::Block(items) => {
            assert(well_typed(items[items.len() - 1].0, tctx));
            lemma_well_typed_has_type(items.last().0, tctx);
        },
        _ => {},
    }
}

/// Parsing gives well-typed programs, whatever the types given to the variables: every
/// constant holds a sound value, every variable is known, every block has an expression, every
/// call has as many arguments as the signature of the function has parameters, each of a type
/// that satisfies its parameter's constraint, and the program has a type.
pub proof fn law_parsed_programs_are_well_typed(code: Seq<char>, tctx: TypeCtx)
    ensures
        parse_program(code, tctx) matches Ok((e, _)) ==> well_typed(e, tctx) && expr_type(
            e,
            tctx,
        ) is Ok,
{
    lemma_parse_expr_typed(spec_tokenize(code, 0), tctx);
    match parse_program(code, tctx) {
        Ok((e, _)) => {
            lemma_well_typed_has_type(e, tctx);
        },
        Err(_) => {},
    }
}

/// Evaluation keeps the static type of an expression: a well-typed expression, evaluated in a
/// context whose values are sound (in the types of that context), gives a value of its type,
/// the variables of the context keep their values and the values stay sound. This is what
/// `evaluate_expression` computes (its contract is `eval`).
pub proof fn law_evaluation_keeps_the_static_type(e: Expr, ctx: Ctx)
    requires
        ctx_sound(ctx),
        well_typed(e, type_context_of(ctx)),
    ensures
        eval(e, ctx) matches Some((v, c2, _)) ==> expr_type(e, type_context_of(ctx)) == Ok::<
            Ty,
            TypingErr,
        >(type_of(v)) && value_sound(v) && ctx.is_prefix_of(c2) && ctx_sound(c2),
{
    assert(ctx.is_prefix_of(ctx)) by {
        assert(ctx =~= ctx.subrange(0, ctx.len() as int));
    }
    lemma_evaluation_typed(e, ctx, ctx);
}

} // verus!
