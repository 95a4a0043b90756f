//! Evaluation of Qwy Script expressions, and running programs.

use vstd::prelude::*;

use super::model::{
    expr_closed, expr_depth, expr_wf, items_closed, items_depth, lemma_expr_closed_is_wf,
    lemma_items_depth, lookup, type_of, value_closed, value_depth, Body, Expr, Out, Ty, Val,
};
use super::parse::{parse, parse_program, ExpressionParsingError};
use super::tokenize::can_tokenize;
use super::typing::{ctx_closed, find_variable, type_context_of, vars_view, Context};
use super::values::{
    items_view, lemma_items_view, value_view, BuiltInFunctionBody, Expression, FunctionBody, Span,
    Type, Value,
};

verus! {

pub type Ctx = Seq<(Seq<char>, Val)>;

/// A value, the context after the evaluation, and what was reported on the way.
pub type Evaluated = (Val, Ctx, Seq<Out>);

/// Looking a name up in a context with one more variable at its end: the new variable is found
/// if no earlier one has its name, and the other names are found as before.
proof fn lemma_lookup_push(ctx: Ctx, n: Seq<char>, v: Val, m: Seq<char>)
    ensures
        lookup(ctx.push((n, v)), m) == if lookup(ctx, m) is Some {
            lookup(ctx, m)
        } else if m == n {
            Some(v)
        } else {
            None
        },
    decreases ctx.len(),
{
    let pushed = ctx.push((n, v));
    if ctx.len() > 0 {
        assert(pushed[0] == ctx[0]);
        assert(pushed.drop_first() =~= ctx.drop_first().push((n, v)));
        lemma_lookup_push(ctx.drop_first(), n, v, m);
    } else {
        assert(pushed[0] == (n, v));
        assert(pushed.drop_first() =~= Seq::<(Seq<char>, Val)>::empty());
        assert(lookup(pushed.drop_first(), m) is None);
    }
}

/// Declaring a global variable that does not exist yet returns nothing, reports the
/// declaration, and from then on the name gives the value while every other name gives what
/// it gave before; declaring one that exists fails.
pub proof fn law_declared_global_reads_back(ctx: Ctx, n: Seq<char>, v: Val, m: Seq<char>)
    ensures
        lookup(ctx, n) is None ==> (apply_builtin(
            BuiltInFunctionBody::DeclareAndSetGlobalVariable,
            seq![Val::Name(n), v],
            ctx,
        ) matches Some((r, c, o)) && r == Val::Nothing && o == seq![Out::Declared(n, v)] && lookup(c, n)
            == Some(v) && (m != n ==> lookup(c, m) == lookup(ctx, m))),
        lookup(ctx, n) is Some ==> apply_builtin(
            BuiltInFunctionBody::DeclareAndSetGlobalVariable,
            seq![Val::Name(n), v],
            ctx,
        ) is None,
{
    lemma_lookup_push(ctx, n, v, n);
    lemma_lookup_push(ctx, n, v, m);
}

/// The printing built-in functions report exactly the values of their arguments and return
/// nothing, leaving the context as it was; `type_of` reports nothing and returns the type of
/// its argument.
pub proof fn law_builtins_report_their_arguments(ctx: Ctx, i: i32, j: i32, k: i32, t: Ty, v: Val)
    ensures
        apply_builtin(BuiltInFunctionBody::PrintInteger, seq![Val::Integer(i)], ctx) == Some::<Evaluated>(
            (Val::Nothing, ctx, seq![Out::Integer(i)]),
        ),
        apply_builtin(
            BuiltInFunctionBody::PrintThreeIntegers,
            seq![Val::Integer(i), Val::Integer(j), Val::Integer(k)],
            ctx,
        ) == Some::<Evaluated>((Val::Nothing, ctx, seq![Out::Integers(seq![i, j, k])])),
        apply_builtin(BuiltInFunctionBody::PrintType, seq![Val::Type(t)], ctx) == Some::<Evaluated>(
            (Val::Nothing, ctx, seq![Out::Type(t)]),
        ),
        apply_builtin(BuiltInFunctionBody::ToType, seq![v], ctx) == Some::<Evaluated>(
            (Val::Type(type_of(v)), ctx, Seq::empty()),
        ),
{
    let vals = seq![Val::Integer(i), Val::Integer(j), Val::Integer(k)];
    assert(integers_of(vals) =~= seq![i, j, k]);
}

/// Calling the function value `fv` within the expression `e` evaluates its body only when
/// the body is closed and, within a closed expression, less deep than the expression.
pub open spec fn can_call(fv: Val, e: Expr) -> bool {
    value_closed(fv) && (expr_closed(e) ==> value_depth(fv) < expr_depth(e))
}

/// The integers of a sequence of values that are all integers.
pub open spec fn integers_of(vals: Seq<Val>) -> Seq<i32> {
    vals.map_values(|v: Val| match v {
        Val::Integer(i) => i,
        _ => 0,
    })
}

/// What a built-in function does with the values of its arguments; `None` where it would
/// fail (an argument missing or of an unexpected kind, or a variable declared twice).
pub open spec fn apply_builtin(b: BuiltInFunctionBody, vals: Seq<Val>, ctx: Ctx) -> Option<Evaluated> {
    match b {
        BuiltInFunctionBody::PrintInteger => if vals.len() > 0 {
            match vals[0] {
                Val::Integer(i) => Some((Val::Nothing, ctx, seq![Out::Integer(i)])),
                _ => None,
            }
        } else {
            None
        },
        BuiltInFunctionBody::PrintThreeIntegers => if forall|i: int|
            0 <= i < vals.len() ==> #[trigger] vals[i] is Integer {
            Some((Val::Nothing, ctx, seq![Out::Integers(integers_of(vals))]))
        } else {
            None
        },
        BuiltInFunctionBody::ToType => if vals.len() > 0 {
            Some((Val::Type(type_of(vals[0])), ctx, Seq::empty()))
        } else {
            None
        },
        BuiltInFunctionBody::PrintType => if vals.len() > 0 {
            match vals[0] {
                Val::Type(t) => Some((Val::Nothing, ctx, seq![Out::Type(t)])),
                _ => None,
            }
        } else {
            None
        },
        BuiltInFunctionBody::DeclareAndSetGlobalVariable => if vals.len() > 1 {
            match vals[0] {
                Val::Name(n) => if lookup(ctx, n) is Some {
                    None
                } else {
                    Some((Val::Nothing, ctx.push((n, vals[1])), seq![Out::Declared(n, vals[1])]))
                },
                _ => None,
            }
        } else {
            None
        },
    }
}

pub open spec fn closed_flag(e: Expr) -> int {
    if expr_closed(e) {
        0
    } else {
        1
    }
}

pub open spec fn items_closed_flag(items: Seq<(Expr, Span)>) -> int {
    if items_closed(items) {
        0
    } else {
        1
    }
}

/// Evaluating an expression in a context: a constant is its value, a variable the value it
/// holds, a call evaluates the function, then its arguments in order, then the function on
/// them, and a block evaluates its expressions in order and gives the last value.
/// `None` where the evaluation would fail.
pub open spec fn eval(e: Expr, ctx: Ctx) -> Option<Evaluated>
    decreases closed_flag(e), expr_depth(e), 0int,
{
    match e {
        Expr::Const(v) => Some((v, ctx, Seq::empty())),
        Expr::Variable(n) => match lookup(ctx, n) {
            Some(v) => Some((v, ctx, Seq::empty())),
            None => None,
        },
        Expr::Call(f, _, args) => match eval(*f, ctx) {
            None => None,
            Some((fv, ctx1, out1)) => match fv {
                Val::Function(func) => match eval_items(args, ctx1) {
                    None => None,
                    Some((vals, ctx2, out2)) => match func.body {
                        Body::BuiltIn(b) => match apply_builtin(b, vals, ctx2) {
                            None => None,
                            Some((v, ctx3, out3)) => Some((v, ctx3, out1 + out2 + out3)),
                        },
                        Body::Expression(body) => if can_call(fv, e) {
                            match eval(*body, ctx2) {
                                None => None,
                                Some((v, ctx3, out3)) => Some((v, ctx3, out1 + out2 + out3)),
                            }
                        } else {
                            None
                        },
                    },
                },
                _ => None,
            },
        },
        Expr::Block(items) => if items.len() == 0 {
            None
        } else {
            match eval_items(items, ctx) {
                None => None,
                Some((vals, c, o)) => if vals.len() > 0 {
                    Some((vals.last(), c, o))
                } else {
                    None
                },
            }
        },
    }
}

/// Evaluating expressions in order, each in the context that the previous one left.
pub open spec fn eval_items(items: Seq<(Expr, Span)>, ctx: Ctx) -> Option<(Seq<Val>, Ctx, Seq<Out>)>
    decreases items_closed_flag(items), items_depth(items), items.len(),
{
    if items.len() == 0 {
        Some((Seq::empty(), ctx, Seq::empty()))
    } else {
        match eval(items[0].0, ctx) {
            None => None,
            Some((v, c1, o1)) => match eval_items(items.drop_first(), c1) {
                None => None,
                Some((vs, c2, o2)) => Some((seq![v] + vs, c2, o1 + o2)),
            },
        }
    }
}


// ---------------------------------------------------------------- executable evaluation

/// What evaluating a program reports, for the caller to print.
#[derive(Debug)]
pub enum Output {
    /// Reported by `print_integer`.
    PrintedInteger(i32),
    /// Reported by `print_three_integers`.
    PrintedIntegers(Vec<i32>),
    /// Reported by `print_type`.
    PrintedType(Type),
    /// Reported by `declare_and_set_global_variable`: the name and the value.
    Declared(String, Value),
}

impl View for Output {
    type V = Out;

    open spec fn view(&self) -> Out {
        match self {
            Output::PrintedInteger(i) => Out::Integer(*i),
            Output::PrintedIntegers(v) => Out::Integers(v@),
            Output::PrintedType(t) => Out::Type(t@),
            Output::Declared(n, v) => Out::Declared(n@, v@),
        }
    }
}

pub open spec fn outputs_view(s: Seq<Output>) -> Seq<Out> {
    s.map_values(|o: Output| o@)
}

pub open spec fn values_view(s: Seq<Value>) -> Seq<Val> {
    s.map_values(|v: Value| v@)
}

/// `r` and the state after it are what the spec gives.
pub open spec fn outcome_matches(
    r: Option<Value>,
    s: Option<Evaluated>,
    ctx_after: Ctx,
    out_before: Seq<Output>,
    out_after: Seq<Output>,
) -> bool {
    match (r, s) {
        (Some(x), Some((v, c, o))) => x@ == v && ctx_after == c && outputs_view(out_after)
            == outputs_view(out_before) + o,
        (None, None) => true,
        _ => false,
    }
}

proof fn lemma_outputs_push(s: Seq<Output>, x: Output)
    ensures
        outputs_view(s.push(x)) == outputs_view(s) + seq![x@],
{
    assert(outputs_view(s.push(x)) =~= outputs_view(s) + seq![x@]);
}

proof fn lemma_values_push(s: Seq<Value>, x: Value)
    ensures
        values_view(s.push(x)) == values_view(s).push(x@),
{
    assert(values_view(s.push(x)) =~= values_view(s).push(x@));
}

fn push_output(out: &mut Vec<Output>, x: Output)
    ensures
        outputs_view(final(out)@) == outputs_view(old(out)@) + seq![x@],
{
    proof {
        lemma_outputs_push(out@, x);
    }
    out.push(x);
}

impl BuiltInFunctionBody {
    /// Applies the built-in function to the values of its arguments.
    pub fn evaluate(self, arg_values: Vec<Value>, context: &mut Context, out: &mut Vec<Output>) -> (r: Option<Value>)
        requires
            forall|i: int| 0 <= i < arg_values@.len() ==> value_closed(#[trigger] arg_values@[i]@),
        ensures
            outcome_matches(r, apply_builtin(self, values_view(arg_values@), old(context)@), final(context)@, old(out)@, final(out)@),
    {
        let ghost vals = values_view(arg_values@);
        match self {
            BuiltInFunctionBody::PrintInteger => {
                if arg_values.len() > 0 {
                    match &arg_values[0] {
                        Value::Integer(integer_value) => {
                            push_output(out, Output::PrintedInteger(*integer_value));
                            Some(Value::Nothing)
                        },
                        _ => None,
                    }
                } else {
                    None
                }
            },
            BuiltInFunctionBody::PrintThreeIntegers => {
                let mut integer_values: Vec<i32> = Vec::new();
                let mut i: usize = 0;
                let mut all_integers = true;
                while i < arg_values.len() && all_integers
                    invariant
                        vals == values_view(arg_values@),
                        i <= arg_values.len(),
                        integer_values.len() == i,
                        forall|j: int| 0 <= j < i ==> (#[trigger] vals[j]) is Integer && integer_values@[j] == vals[j]->Integer_0,
                        !all_integers ==> i < arg_values.len() && !(vals[i as int] is Integer),
                    decreases arg_values.len() - i + (if all_integers { 1int } else { 0int }),
                {
                    match &arg_values[i] {
                        Value::Integer(integer_value) => {
                            integer_values.push(*integer_value);
                            i = i + 1;
                        },
                        _ => {
                            all_integers = false;
                        },
                    }
                }
                if !all_integers {
                    return None;
                }
                proof {
                    assert(integer_values@ =~= integers_of(vals));
                }
                push_output(out, Output::PrintedIntegers(integer_values));
                Some(Value::Nothing)
            },
            BuiltInFunctionBody::ToType => {
                if arg_values.len() > 0 {
                    Some(Value::Type(arg_values[0].get_type()))
                } else {
                    None
                }
            },
            BuiltInFunctionBody::PrintType => {
                if arg_values.len() > 0 {
                    match &arg_values[0] {
                        Value::Type(type_value) => {
                            push_output(out, Output::PrintedType(type_value.duplicate()));
                            Some(Value::Nothing)
                        },
                        _ => None,
                    }
                } else {
                    None
                }
            },
            BuiltInFunctionBody::DeclareAndSetGlobalVariable => {
                if arg_values.len() > 1 {
                    match &arg_values[0] {
                        Value::Name(name_as_string) => {
                            let value = &arg_values[1];
                            if context.find(name_as_string).is_some() {
                                return None;
                            }
                            push_output(
                                out,
                                Output::Declared(name_as_string.clone(), value.duplicate()),
                            );
                            context.push_variable(name_as_string.clone(), value.duplicate());
                            Some(Value::Nothing)
                        },
                        _ => None,
                    }
                } else {
                    None
                }
            },
        }
    }
}


/// Prepends values and reports to the outcome of evaluating more expressions.
pub open spec fn prepend_outcome(
    vals: Seq<Val>,
    outs: Seq<Out>,
    r: Option<(Seq<Val>, Ctx, Seq<Out>)>,
) -> Option<(Seq<Val>, Ctx, Seq<Out>)> {
    match r {
        Some((vs, c, o)) => Some((vals + vs, c, outs + o)),
        None => None,
    }
}

proof fn lemma_eval_items_step(items: Seq<(Expr, Span)>, i: int, ctx: Ctx)
    requires
        0 <= i < items.len(),
    ensures
        eval_items(items.skip(i), ctx) == match eval(items[i].0, ctx) {
            None => None,
            Some((v, c1, o1)) => prepend_outcome(seq![v], o1, eval_items(items.skip(i + 1), c1)),
        },
{
    assert(items.skip(i).drop_first() =~= items.skip(i + 1));
    assert(items.skip(i)[0] == items[i]);
}

proof fn lemma_prepend_outcome_assoc(
    vals: Seq<Val>,
    outs: Seq<Out>,
    v: Val,
    o: Seq<Out>,
    r: Option<(Seq<Val>, Ctx, Seq<Out>)>,
)
    ensures
        prepend_outcome(vals, outs, prepend_outcome(seq![v], o, r)) == prepend_outcome(vals.push(v), outs + o, r),
{
    match r {
        Some((vs, c, o2)) => {
            assert(vals + (seq![v] + vs) =~= vals.push(v) + vs);
            assert(outs + (o + o2) =~= (outs + o) + o2);
        },
        None => {},
    }
}

/// Evaluates the expressions in order, each in the context that the previous one left.
fn evaluate_items(
    items: &Vec<(Expression, Span)>,
    context: &mut Context,
    out: &mut Vec<Output>,
    Ghost(whole): Ghost<Expr>,
) -> (r: Option<Vec<Value>>)
    requires
        forall|j: int| 0 <= j < items@.len() ==> expr_wf(#[trigger] items@[j].0@),
        forall|j: int| 0 <= j < items@.len() ==> closed_flag(#[trigger] items@[j].0@) <= closed_flag(whole)
            && expr_depth(items@[j].0@) < expr_depth(whole),
    ensures
        match (r, eval_items(items_view(items@), old(context)@)) {
            (Some(vs), Some((vals, c, o))) => values_view(vs@) == vals && final(context)@ == c
                && vs@.len() == items@.len()
                && outputs_view(final(out)@) == outputs_view(old(out)@) + o
                && (forall|j: int| 0 <= j < vs@.len() ==> value_closed(#[trigger] vs@[j]@))
                && (forall|j: int| 0 <= j < vs@.len() && expr_closed(items@[j].0@) ==> value_depth(#[trigger] vs@[j]@) <= expr_depth(items@[j].0@)),
            (None, None) => true,
            _ => false,
        },
    decreases closed_flag(whole), expr_depth(whole), 0int,
{
    let ghost iv = items_view(items@);
    let ghost ctx0 = context@;
    let ghost out0 = outputs_view(out@);
    proof {
        lemma_items_view(items@);
        assert(iv.skip(0) =~= iv);
        assert(prepend_outcome(Seq::empty(), Seq::empty(), eval_items(iv, ctx0)) == eval_items(iv, ctx0)) by {
            match eval_items(iv, ctx0) {
                Some((vs, c, o)) => {
                    assert(Seq::<Val>::empty() + vs =~= vs);
                    assert(Seq::<Out>::empty() + o =~= o);
                },
                None => {},
            }
        }
    }
    let mut values: Vec<Value> = Vec::new();
    let ghost mut acc: Seq<Out> = Seq::empty();
    let n = items.len();
    let mut i: usize = 0;
    let mut failed = false;
    while i < n && !failed
        invariant
            n == items@.len(),
            iv == items_view(items@),
            iv.len() == n,
            forall|j: int| 0 <= j < n ==> #[trigger] iv[j] == (items@[j].0@, items@[j].1),
            forall|j: int| 0 <= j < n ==> expr_wf(#[trigger] items@[j].0@),
            forall|j: int| 0 <= j < n ==> closed_flag(#[trigger] items@[j].0@) <= closed_flag(whole)
                && expr_depth(items@[j].0@) < expr_depth(whole),
            i <= n,
            values@.len() == i,
            forall|j: int| 0 <= j < values@.len() ==> value_closed(#[trigger] values@[j]@),
            forall|j: int| 0 <= j < values@.len() && expr_closed(items@[j].0@) ==> value_depth(#[trigger] values@[j]@) <= expr_depth(items@[j].0@),
            !failed ==> eval_items(iv, ctx0) == prepend_outcome(values_view(values@), acc, eval_items(iv.skip(i as int), context@)),
            !failed ==> outputs_view(out@) == out0 + acc,
            failed ==> eval_items(iv, ctx0) is None,
        decreases n - i + (if failed { 0int } else { 1int }),
    {
        let ghost ci = context@;
        let ghost oi = out@;
        proof {
            lemma_eval_items_step(iv, i as int, ci);
        }
        match evaluate_expression(&items[i].0, context, out) {
            Some(v) => {
                proof {
                    let o = outputs_view(out@).subrange(outputs_view(oi).len() as int, outputs_view(out@).len() as int);
                    lemma_prepend_outcome_assoc(values_view(values@), acc, v@, o, eval_items(iv.skip(i + 1), context@));
                    lemma_values_push(values@, v);
                    assert(outputs_view(out@) =~= out0 + (acc + o));
                    acc = acc + o;
                }
                values.push(v);
                i = i + 1;
            },
            None => {
                failed = true;
            },
        }
    }
    if failed {
        return None;
    }
    proof {
        assert(iv.skip(n as int) =~= Seq::<(Expr, Span)>::empty());
        assert(values_view(values@) + Seq::<Val>::empty() =~= values_view(values@));
        assert(acc + Seq::<Out>::empty() =~= acc);
    }
    Some(values)
}

pub broadcast proof fn lemma_concat4<A>(a: Seq<A>, b: Seq<A>, c: Seq<A>, d: Seq<A>)
    ensures
        #[trigger] (((a + b) + c) + d) == a + ((b + c) + d),
{
    assert(((a + b) + c) + d =~= a + ((b + c) + d));
}

/// Evaluates an expression in the context, reporting in `out` what it prints.
pub fn evaluate_expression(expression: &Expression, context: &mut Context, out: &mut Vec<Output>) -> (r: Option<Value>)
    requires
        expr_wf(expression@),
    ensures
        outcome_matches(r, eval(expression@, old(context)@), final(context)@, old(out)@, final(out)@),
        r matches Some(x) ==> value_closed(x@) && (expr_closed(expression@) ==> value_depth(x@) <= expr_depth(expression@)),
    decreases closed_flag(expression@), expr_depth(expression@), 1int,
{
    broadcast use lemma_concat4;

    context.values_are_closed();
    match expression {
        Expression::Const(value) => Some(value.duplicate()),
        Expression::Variable(name) => {
            match context.find(name) {
                Some(i) => Some(context.value_at(i).duplicate()),
                None => None,
            }
        },
        Expression::FunctionCall { func, args } => {
            let ghost e = expression@;
            let ghost argsv = items_view(args@);
            proof {
                lemma_items_view(args@);
                assert forall|j: int| 0 <= j < args@.len() implies closed_flag(#[trigger] args@[j].0@) <= closed_flag(e)
                    && expr_depth(args@[j].0@) < expr_depth(e) by {
                    assert(argsv[j].0 == args@[j].0@);
                    lemma_items_depth(argsv, j);
                    if expr_closed(e) {
                        assert(items_closed(argsv));
                        assert(expr_closed(argsv[j].0));
                    }
                }
                assert forall|j: int| 0 <= j < args@.len() implies expr_wf(#[trigger] args@[j].0@) by {
                    assert(argsv[j].0 == args@[j].0@);
                }
            }
            let func_value = match evaluate_expression(&func.0, context, out) {
                Some(v) => v,
                None => {
                    return None;
                },
            };
            let function = match func_value {
                Value::Function(function) => function,
                _ => {
                    return None;
                },
            };
            let ghost fv = Val::Function(function@);
            let arg_values = match evaluate_items(args, context, out, Ghost(e)) {
                Some(vs) => vs,
                None => {
                    return None;
                },
            };
            match function.body {
                FunctionBody::BuiltIn(built_in_function_body) => {
                    built_in_function_body.evaluate(arg_values, context, out)
                },
                FunctionBody::Expression(body_expression) => {
                    proof {
                        assert(can_call(fv, e));
                        lemma_expr_closed_is_wf(body_expression@);
                    }
                    evaluate_expression(&body_expression, context, out)
                },
            }
        },
        Expression::Block(expr_sequence) => {
            let ghost e = expression@;
            let ghost iv = items_view(expr_sequence@);
            proof {
                lemma_items_view(expr_sequence@);
                assert forall|j: int| 0 <= j < expr_sequence@.len() implies closed_flag(#[trigger] expr_sequence@[j].0@) <= closed_flag(e)
                    && expr_depth(expr_sequence@[j].0@) < expr_depth(e) by {
                    assert(iv[j].0 == expr_sequence@[j].0@);
                    lemma_items_depth(iv, j);
                    if expr_closed(e) {
                        assert(items_closed(iv));
                        assert(expr_closed(iv[j].0));
                    }
                }
                assert forall|j: int| 0 <= j < expr_sequence@.len() implies expr_wf(#[trigger] expr_sequence@[j].0@) by {
                    assert(iv[j].0 == expr_sequence@[j].0@);
                }
            }
            if expr_sequence.len() == 0 {
                return None;
            }
            let mut values = match evaluate_items(expr_sequence, context, out, Ghost(e)) {
                Some(vs) => vs,
                None => {
                    return None;
                },
            };
            proof {
                let k = values@.len() - 1;
                lemma_items_depth(iv, k);
                assert(iv[k].0 == expr_sequence@[k].0@);
            }
            values.pop()
        },
    }
}


// ---------------------------------------------------------------- running programs

/// Running the code in the context goes without failure: either it does not parse, or its
/// evaluation succeeds (it fails, for one, where it declares a variable that already exists).
pub open spec fn run_succeeds(code: Seq<char>, ctx: Ctx) -> bool {
    match parse_program(code, type_context_of(ctx)) {
        Ok((e, _)) => eval(e, ctx) is Some,
        Err(_) => true,
    }
}

/// Parses the code in the types of the context's variables, and evaluates it in the context.
/// Returns the parsing error, or what the program reported while being evaluated.
pub fn run(qwy_script_code: &str, context: &mut Context) -> (r: Result<Vec<Output>, ExpressionParsingError>)
    requires
        can_tokenize(qwy_script_code@, 0),
        run_succeeds(qwy_script_code@, old(context)@),
    ensures
        match parse_program(qwy_script_code@, type_context_of(old(context)@)) {
            Err(u) => r matches Err(x) && x@ == u && final(context)@ == old(context)@,
            Ok((e, _)) => match eval(e, old(context)@) {
                Some((_, c, o)) => r matches Ok(outs) && outputs_view(outs@) == o && final(context)@ == c,
                None => false,
            },
        },
{
    let type_context = context.get_type_context();
    let (expression, _span) = match parse(qwy_script_code, &type_context) {
        Ok(x) => x,
        Err(e) => {
            return Err(e);
        },
    };
    let mut out: Vec<Output> = Vec::new();
    proof {
        assert(outputs_view(out@) =~= Seq::<Out>::empty());
    }
    let v = evaluate_expression(&expression, context, &mut out);
    proof {
        assert(Seq::<Out>::empty() + outputs_view(out@) =~= outputs_view(out@));
    }
    Ok(out)
}

/// Whether running the code in the context would fail (see `run_succeeds`); the context is
/// left as it is.
pub fn run_would_fail(qwy_script_code: &str, context: &Context) -> (r: bool)
    requires
        can_tokenize(qwy_script_code@, 0),
    ensures
        r == !run_succeeds(qwy_script_code@, context@),
{
    let type_context = context.get_type_context();
    match parse(qwy_script_code, &type_context) {
        Err(_) => false,
        Ok((expression, _span)) => {
            let mut scratch = context.duplicate();
            let mut out: Vec<Output> = Vec::new();
            evaluate_expression(&expression, &mut scratch, &mut out).is_none()
        },
    }
}

} // verus!
