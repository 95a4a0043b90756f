//! Mathematical model of Qwy Script: types, values, expressions and tokens
//! as spec values, over which the contracts of the language are stated.

use vstd::prelude::*;

use super::values::{BuiltInFunctionBody, Span};

verus! {

/// A type of Qwy Script, as a mathematical value.
pub enum Ty {
    Nothing,
    Integer,
    Function(Sig),
    Type,
    Name,
}

/// A function type signature: constraints on the arguments and the returned type.
pub struct Sig {
    pub args: Seq<Constraint>,
    pub ret: Box<Ty>,
}

/// Constraints on the type of an argument.
pub enum Constraint {
    Only(Ty),
    Any,
}

/// A value of Qwy Script.
pub enum Val {
    Nothing,
    Integer(i32),
    Function(Func),
    Type(Ty),
    Name(Seq<char>),
}

/// A function value: its signature and its body.
pub struct Func {
    pub sig: Sig,
    pub body: Body,
}

pub enum Body {
    BuiltIn(BuiltInFunctionBody),
    Expression(Box<Expr>),
}

/// An expression of Qwy Script. Each sub-expression comes with its span.
pub enum Expr {
    Const(Val),
    Variable(Seq<char>),
    Call(Box<Expr>, Span, Seq<(Expr, Span)>),
    Block(Seq<(Expr, Span)>),
}

pub enum Tok {
    Word(Seq<char>),
    Integer(i32),
    OpenParenthesis,
    CloseParenthesis,
    Comma,
    OpenCurly,
    CloseCurly,
    Semicolon,
    Sigil,
}

/// What evaluating a program reports (printed by the caller).
pub enum Out {
    Integer(i32),
    Integers(Seq<i32>),
    Type(Ty),
    Declared(Seq<char>, Val),
}

pub enum TypingErr {
    FunctionCallOnNotAFunction,
    FunctionCallOnErroneousType,
    UnknownVariable,
}

pub enum CallErr {
    MissingArguments {
        how_many: u32,
        args_list_span: Span,
        function_span: Span,
        call_span: Span,
    },
    TooManyArguments {
        how_many: u32,
        args_in_excess_span: Span,
        function_span: Span,
        call_span: Span,
    },
    ArgumentExpressionTypingError {
        error: TypingErr,
        arg_span: Span,
        arg_index: int,
        function_span: Span,
        call_span: Span,
    },
    ArgumentOfTheWrongType {
        constraint: Constraint,
        wrong_type: Ty,
        arg_span: Span,
        arg_index: int,
        function_span: Span,
        call_span: Span,
    },
}

pub enum ParseErr {
    ExpectedStartOfExpressionButGotNoMoreTokens,
    ExpectedStartOfExpressionButGotUnexpectedToken(Tok, Span),
    ExpectedCommaToSeparateArgumentsButGotUnexpectedToken(Tok, Span),
    ExpectedCommaOrClosedParenthesisButGotNoMoreTokens,
    ExpressionTypingError(TypingErr, Span),
    FunctionCallOnNotAFunction(Ty, Span),
    FunctionCallTypingError(CallErr, Span),
    ExpectedWordAfterSigilButGotUnexpectedToken(Tok, Span),
    ExpectedWordAfterSigilButGotNoMoreTokens,
    ExpectedSemicolonToSeparateExpressionsInBlockButGotUnexpectedToken(Tok, Span),
    ExpectedSemicolonOrClosedCurlyButGotNoMoreTokens,
}

/// The first entry of `vars` named `name`, if any.
pub open spec fn lookup<V>(vars: Seq<(Seq<char>, V)>, name: Seq<char>) -> Option<V>
    decreases vars.len(),
{
    if vars.len() == 0 {
        None
    } else if vars[0].0 == name {
        Some(vars[0].1)
    } else {
        lookup(vars.drop_first(), name)
    }
}

/// The type of a value.
pub open spec fn type_of(v: Val) -> Ty {
    match v {
        Val::Nothing => Ty::Nothing,
        Val::Integer(_) => Ty::Integer,
        Val::Function(f) => Ty::Function(f.sig),
        Val::Type(_) => Ty::Type,
        Val::Name(_) => Ty::Name,
    }
}

pub open spec fn satisfies(c: Constraint, t: Ty) -> bool {
    match c {
        Constraint::Only(expected) => expected == t,
        Constraint::Any => true,
    }
}

/// The signature of each built-in function.
pub open spec fn builtin_sig(b: BuiltInFunctionBody) -> Sig {
    match b {
        BuiltInFunctionBody::PrintInteger => Sig {
            args: seq![Constraint::Only(Ty::Integer)],
            ret: Box::new(Ty::Nothing),
        },
        BuiltInFunctionBody::PrintThreeIntegers => Sig {
            args: seq![
                Constraint::Only(Ty::Integer),
                Constraint::Only(Ty::Integer),
                Constraint::Only(Ty::Integer),
            ],
            ret: Box::new(Ty::Nothing),
        },
        BuiltInFunctionBody::ToType => Sig { args: seq![Constraint::Any], ret: Box::new(Ty::Type) },
        BuiltInFunctionBody::PrintType => Sig {
            args: seq![Constraint::Only(Ty::Type)],
            ret: Box::new(Ty::Nothing),
        },
        BuiltInFunctionBody::DeclareAndSetGlobalVariable => Sig {
            args: seq![Constraint::Only(Ty::Name), Constraint::Any],
            ret: Box::new(Ty::Nothing),
        },
    }
}

/// The name under which each built-in function is known.
pub open spec fn builtin_name(b: BuiltInFunctionBody) -> Seq<char> {
    match b {
        BuiltInFunctionBody::PrintInteger => "print_integer"@,
        BuiltInFunctionBody::PrintThreeIntegers => "print_three_integers"@,
        BuiltInFunctionBody::ToType => "type_of"@,
        BuiltInFunctionBody::PrintType => "print_type"@,
        BuiltInFunctionBody::DeclareAndSetGlobalVariable => "declare_and_set_global_variable"@,
    }
}

/// The function value of a built-in function.
pub open spec fn builtin_function(b: BuiltInFunctionBody) -> Func {
    Func { sig: builtin_sig(b), body: Body::BuiltIn(b) }
}

/// A value is closed when the body of the function it may be refers to no variable.
pub open spec fn value_closed(v: Val) -> bool
    decreases v,
{
    match v {
        Val::Function(f) => match f.body {
            Body::Expression(b) => expr_closed(*b),
            Body::BuiltIn(_) => true,
        },
        _ => true,
    }
}

/// An expression is closed when it refers to no variable, at any depth.
pub open spec fn expr_closed(e: Expr) -> bool
    decreases e,
{
    match e {
        Expr::Const(v) => value_closed(v),
        Expr::Variable(_) => false,
        Expr::Call(f, _, args) => expr_closed(*f) && items_closed(args),
        Expr::Block(items) => items_closed(items),
    }
}

pub open spec fn items_closed(items: Seq<(Expr, Span)>) -> bool
    decreases items,
{
    forall|i: int| 0 <= i < items.len() ==> expr_closed(#[trigger] items[i].0)
}

/// Every constant value in the expression is closed.
pub open spec fn expr_wf(e: Expr) -> bool
    decreases e,
{
    match e {
        Expr::Const(v) => value_closed(v),
        Expr::Variable(_) => true,
        Expr::Call(f, _, args) => expr_wf(*f) && forall|i: int|
            0 <= i < args.len() ==> expr_wf(#[trigger] args[i].0),
        Expr::Block(items) => forall|i: int| 0 <= i < items.len() ==> expr_wf(#[trigger] items[i].0),
    }
}

/// How deeply function bodies nest in a value.
pub open spec fn value_depth(v: Val) -> nat
    decreases v,
{
    match v {
        Val::Function(f) => match f.body {
            Body::Expression(b) => 1 + expr_depth(*b),
            Body::BuiltIn(_) => 0,
        },
        _ => 0,
    }
}

/// The height of an expression, counting the bodies of the functions in its constants.
pub open spec fn expr_depth(e: Expr) -> nat
    decreases e,
{
    match e {
        Expr::Const(v) => 1 + value_depth(v),
        Expr::Variable(_) => 1,
        Expr::Call(f, _, args) => 1 + if expr_depth(*f) >= items_depth(args) {
            expr_depth(*f)
        } else {
            items_depth(args)
        },
        Expr::Block(items) => 1 + items_depth(items),
    }
}

pub open spec fn items_depth(items: Seq<(Expr, Span)>) -> nat
    decreases items,
{
    if items.len() == 0 {
        0
    } else {
        let d = expr_depth(items[0].0);
        let r = items_depth(items.drop_first());
        if d >= r {
            d
        } else {
            r
        }
    }
}

pub proof fn lemma_expr_closed_is_wf(e: Expr)
    requires
        expr_closed(e),
    ensures
        expr_wf(e),
    decreases e,
{
    match e {
        Expr::Call(f, _, args) => {
            lemma_expr_closed_is_wf(*f);
            assert forall|i: int| 0 <= i < args.len() implies expr_wf(#[trigger] args[i].0) by {
                assert(items_closed(args));
                lemma_expr_closed_is_wf(args[i].0);
            }
        },
        Expr::Block(items) => {
            assert forall|i: int| 0 <= i < items.len() implies expr_wf(#[trigger] items[i].0) by {
                assert(items_closed(items));
                lemma_expr_closed_is_wf(items[i].0);
            }
        },
        _ => {},
    }
}

pub proof fn lemma_items_depth(items: Seq<(Expr, Span)>, i: int)
    requires
        0 <= i < items.len(),
    ensures
        expr_depth(items[i].0) <= items_depth(items),
    decreases items.len(),
{
    if i > 0 {
        lemma_items_depth(items.drop_first(), i - 1);
    }
}

} // verus!
