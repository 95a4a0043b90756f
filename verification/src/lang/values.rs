//! The executable types of Qwy Script, their views in the model,
//! and the operations on types and values.

use vstd::prelude::*;

use super::model::{builtin_function, builtin_name, builtin_sig, expr_closed, satisfies, type_of, value_closed, items_closed, Body, Tok, Constraint, Expr, Func, Sig, Ty, Val};

verus! {

broadcast use vstd::std_specs::vec::group_vec_axioms;

/// A type in Qwy Script.
#[derive(Debug, PartialEq, Eq)]
pub enum Type {
    Nothing,
    Integer,
    Function(FunctionTypeSignature),
    Type,
    Name,
}

/// A value in Qwy Script.
#[derive(Debug)]
pub enum Value {
    Nothing,
    Integer(i32),
    Function(Function),
    Type(Type),
    Name(String),
}

/// Constraints on a type. Function signatures constrain the types of their arguments,
/// so that functions such as `type_of` can take a value of any type as argument.
#[derive(Debug, PartialEq, Eq)]
pub enum TypeConstraints {
    /// Only one type satisfies the constraints.
    Only(Type),
    /// Any type does.
    Any,
}

#[derive(Debug, PartialEq, Eq)]
pub struct FunctionTypeSignature {
    pub arg_types: Vec<TypeConstraints>,
    /// The returned type is a type and not a constraint, so that all expressions can be typed.
    pub return_type: Box<Type>,
}

/// The functions that the language provides.
#[derive(Clone, Copy, Debug, PartialEq, Eq)]
pub enum BuiltInFunctionBody {
    PrintInteger,
    PrintThreeIntegers,
    ToType,
    PrintType,
    DeclareAndSetGlobalVariable,
}

#[derive(Debug)]
pub enum FunctionBody {
    BuiltIn(BuiltInFunctionBody),
    Expression(Box<Expression>),
}

#[derive(Debug)]
pub struct Function {
    pub signature: FunctionTypeSignature,
    pub body: FunctionBody,
}

/// A non-empty interval of characters in the source code, `end` included.
#[derive(Clone, Copy, Debug)]
pub struct Span {
    pub start: usize,
    pub end: usize,
}

#[derive(Debug)]
pub enum Expression {
    Const(Value),
    Variable(String),
    FunctionCall { func: Box<(Expression, Span)>, args: Vec<(Expression, Span)> },
    Block(Vec<(Expression, Span)>),
}

// ---------------------------------------------------------------- views of types

pub open spec fn type_view(t: Type) -> Ty
    decreases t,
{
    match t {
        Type::Nothing => Ty::Nothing,
        Type::Integer => Ty::Integer,
        Type::Function(sig) => Ty::Function(sig_view(sig)),
        Type::Type => Ty::Type,
        Type::Name => Ty::Name,
    }
}

pub open spec fn sig_view(s: FunctionTypeSignature) -> Sig
    decreases s,
{
    Sig { args: constraints_view(s.arg_types@), ret: Box::new(type_view(*s.return_type)) }
}

pub open spec fn constraints_view(cs: Seq<TypeConstraints>) -> Seq<Constraint>
    decreases cs,
{
    if cs.len() == 0 {
        Seq::empty()
    } else {
        constraints_view(cs.drop_last()).push(constraint_view(cs.last()))
    }
}

pub open spec fn constraint_view(c: TypeConstraints) -> Constraint
    decreases c,
{
    match c {
        TypeConstraints::Only(t) => Constraint::Only(type_view(t)),
        TypeConstraints::Any => Constraint::Any,
    }
}

impl View for Type {
    type V = Ty;

    open spec fn view(&self) -> Ty {
        type_view(*self)
    }
}

impl View for FunctionTypeSignature {
    type V = Sig;

    open spec fn view(&self) -> Sig {
        sig_view(*self)
    }
}

impl View for TypeConstraints {
    type V = Constraint;

    open spec fn view(&self) -> Constraint {
        constraint_view(*self)
    }
}

pub proof fn lemma_constraints_view(cs: Seq<TypeConstraints>)
    ensures
        constraints_view(cs).len() == cs.len(),
        forall|i: int| 0 <= i < cs.len() ==> #[trigger] constraints_view(cs)[i] == constraint_view(cs[i]),
    decreases cs.len(),
{
    if cs.len() > 0 {
        lemma_constraints_view(cs.drop_last());
    }
}


// ---------------------------------------------------------------- views of values and expressions

pub open spec fn value_view(v: Value) -> Val
    decreases v,
{
    match v {
        Value::Nothing => Val::Nothing,
        Value::Integer(i) => Val::Integer(i),
        Value::Function(f) => Val::Function(function_view(f)),
        Value::Type(t) => Val::Type(type_view(t)),
        Value::Name(n) => Val::Name(n@),
    }
}

pub open spec fn function_view(f: Function) -> Func
    decreases f,
{
    Func { sig: sig_view(f.signature), body: body_view(f.body) }
}

pub open spec fn body_view(b: FunctionBody) -> Body
    decreases b,
{
    match b {
        FunctionBody::BuiltIn(bi) => Body::BuiltIn(bi),
        FunctionBody::Expression(e) => Body::Expression(Box::new(expr_view(*e))),
    }
}

pub open spec fn expr_view(e: Expression) -> Expr
    decreases e,
{
    match e {
        Expression::Const(v) => Expr::Const(value_view(v)),
        Expression::Variable(n) => Expr::Variable(n@),
        Expression::FunctionCall { func, args } => Expr::Call(
            Box::new(expr_view(func.0)),
            func.1,
            items_view(args@),
        ),
        Expression::Block(items) => Expr::Block(items_view(items@)),
    }
}

pub open spec fn items_view(items: Seq<(Expression, Span)>) -> Seq<(Expr, Span)>
    decreases items,
{
    if items.len() == 0 {
        Seq::empty()
    } else {
        items_view(items.drop_last()).push((expr_view(items.last().0), items.last().1))
    }
}

pub proof fn lemma_items_view(items: Seq<(Expression, Span)>)
    ensures
        items_view(items).len() == items.len(),
        forall|i: int|
            0 <= i < items.len() ==> #[trigger] items_view(items)[i] == (
                expr_view(items[i].0),
                items[i].1,
            ),
    decreases items.len(),
{
    if items.len() > 0 {
        lemma_items_view(items.drop_last());
    }
}

impl View for Value {
    type V = Val;

    open spec fn view(&self) -> Val {
        value_view(*self)
    }
}

impl View for Function {
    type V = Func;

    open spec fn view(&self) -> Func {
        function_view(*self)
    }
}

impl View for Expression {
    type V = Expr;

    open spec fn view(&self) -> Expr {
        expr_view(*self)
    }
}

// ---------------------------------------------------------------- operations on types

/// Equality of two types.
pub fn type_eq(a: &Type, b: &Type) -> (r: bool)
    ensures
        r == (a@ == b@),
    decreases a,
{
    match (a, b) {
        (Type::Nothing, Type::Nothing) => true,
        (Type::Integer, Type::Integer) => true,
        (Type::Type, Type::Type) => true,
        (Type::Name, Type::Name) => true,
        (Type::Function(sa), Type::Function(sb)) => {
            proof {
                lemma_constraints_view(sa.arg_types@);
                lemma_constraints_view(sb.arg_types@);
            }
            if sa.arg_types.len() != sb.arg_types.len() {
                assert(constraints_view(sa.arg_types@).len() != constraints_view(sb.arg_types@).len());
                return false;
            }
            let n = sa.arg_types.len();
            let mut i: usize = 0;
            while i < n
                invariant
                    *a == Type::Function(*sa),
                    *b == Type::Function(*sb),
                    n == sa.arg_types.len(),
                    n == sb.arg_types.len(),
                    i <= n,
                    constraints_view(sa.arg_types@).len() == n,
                    constraints_view(sb.arg_types@).len() == n,
                    forall|j: int| 0 <= j < n ==> #[trigger] constraints_view(sa.arg_types@)[j] == constraint_view(sa.arg_types@[j]),
                    forall|j: int| 0 <= j < n ==> #[trigger] constraints_view(sb.arg_types@)[j] == constraint_view(sb.arg_types@[j]),
                    forall|j: int| 0 <= j < i ==> constraint_view(#[trigger] sa.arg_types@[j]) == constraint_view(sb.arg_types@[j]),
                decreases n - i,
            {
                let ca = &sa.arg_types[i];
                let cb = &sb.arg_types[i];
                let same = match (ca, cb) {
                    (TypeConstraints::Any, TypeConstraints::Any) => true,
                    (TypeConstraints::Only(ta), TypeConstraints::Only(tb)) => {
                        proof {
                            assert(decreases_to!(sa.arg_types => sa.arg_types[i as int]));
                            assert(decreases_to!(*a => (*a)->Function_0));
                            assert(decreases_to!(*sa => sa.arg_types));
                            assert(decreases_to!(sa.arg_types[i as int] => *ta));
                        }
                        type_eq(ta, tb)
                    },
                    _ => false,
                };
                if !same {
                    assert(constraints_view(sa.arg_types@)[i as int] != constraints_view(sb.arg_types@)[i as int]);
                    assert(sig_view(*sa).args != sig_view(*sb).args);
                    return false;
                }
                i = i + 1;
            }
            assert(constraints_view(sa.arg_types@) =~= constraints_view(sb.arg_types@));
            type_eq(&sa.return_type, &sb.return_type)
        },
        _ => false,
    }
}

impl TypeConstraints {
    pub fn is_satisfied_by_type(&self, some_type: &Type) -> (r: bool)
        ensures
            r == satisfies(self@, some_type@),
    {
        match self {
            TypeConstraints::Only(expected_type) => type_eq(expected_type, some_type),
            TypeConstraints::Any => true,
        }
    }
}


// ---------------------------------------------------------------- copies

impl Type {
    /// A copy of the type.
    pub fn duplicate(&self) -> (r: Type)
        ensures
            r@ == self@,
        decreases self,
    {
        match self {
            Type::Nothing => Type::Nothing,
            Type::Integer => Type::Integer,
            Type::Type => Type::Type,
            Type::Name => Type::Name,
            Type::Function(sig) => {
                proof {
                    assert(decreases_to!(*self => (*self)->Function_0));
                }
                Type::Function(sig.duplicate())
            },
        }
    }
}

impl TypeConstraints {
    pub fn duplicate(&self) -> (r: TypeConstraints)
        ensures
            r@ == self@,
        decreases self,
    {
        match self {
            TypeConstraints::Only(t) => {
                proof {
                    assert(decreases_to!(*self => (*self)->Only_0));
                }
                TypeConstraints::Only(t.duplicate())
            },
            TypeConstraints::Any => TypeConstraints::Any,
        }
    }
}

impl FunctionTypeSignature {
    pub fn duplicate(&self) -> (r: FunctionTypeSignature)
        ensures
            r@ == self@,
        decreases self,
    {
        let mut arg_types: Vec<TypeConstraints> = Vec::new();
        let n = self.arg_types.len();
        let mut i: usize = 0;
        while i < n
            invariant
                n == self.arg_types.len(),
                i <= n,
                arg_types.len() == i,
                forall|j: int| 0 <= j < i ==> constraint_view(#[trigger] arg_types@[j]) == constraint_view(self.arg_types@[j]),
            decreases n - i,
        {
            proof {
                assert(decreases_to!(self.arg_types => self.arg_types[i as int]));
            }
            arg_types.push(self.arg_types[i].duplicate());
            i = i + 1;
        }
        proof {
            lemma_constraints_view(arg_types@);
            lemma_constraints_view(self.arg_types@);
            assert(constraints_view(arg_types@) =~= constraints_view(self.arg_types@));
        }
        let return_type = Box::new(self.return_type.duplicate());
        FunctionTypeSignature { arg_types, return_type }
    }
}

impl Value {
    pub fn duplicate(&self) -> (r: Value)
        ensures
            r@ == self@,
        decreases self,
    {
        match self {
            Value::Nothing => Value::Nothing,
            Value::Integer(i) => Value::Integer(*i),
            Value::Function(f) => {
                proof {
                    assert(decreases_to!(*self => (*self)->Function_0));
                }
                Value::Function(f.duplicate())
            },
            Value::Type(t) => Value::Type(t.duplicate()),
            Value::Name(n) => Value::Name(n.clone()),
        }
    }
}

impl Function {
    pub fn duplicate(&self) -> (r: Function)
        ensures
            r@ == self@,
        decreases self,
    {
        let signature = self.signature.duplicate();
        let body = match &self.body {
            FunctionBody::BuiltIn(b) => FunctionBody::BuiltIn(*b),
            FunctionBody::Expression(e) => {
                proof {
                    assert(decreases_to!(*self => self.body));
                    assert(decreases_to!(self.body => (self.body)->Expression_0));
                }
                FunctionBody::Expression(Box::new(e.duplicate()))
            },
        };
        Function { signature, body }
    }
}

impl Expression {
    pub fn duplicate(&self) -> (r: Expression)
        ensures
            r@ == self@,
        decreases self,
    {
        match self {
            Expression::Const(v) => Expression::Const(v.duplicate()),
            Expression::Variable(n) => Expression::Variable(n.clone()),
            Expression::FunctionCall { func, args } => {
                proof {
                    assert(decreases_to!(*self => (*self)->func));
                    assert(decreases_to!(*self => (*self)->args));
                }
                let f = Box::new((func.0.duplicate(), func.1));
                let a = duplicate_items(args);
                Expression::FunctionCall { func: f, args: a }
            },
            Expression::Block(items) => {
                proof {
                    assert(decreases_to!(*self => (*self)->Block_0));
                }
                Expression::Block(duplicate_items(items))
            },
        }
    }
}

/// A copy of a sequence of expressions with their spans.
pub fn duplicate_items(items: &Vec<(Expression, Span)>) -> (r: Vec<(Expression, Span)>)
    ensures
        items_view(r@) == items_view(items@),
    decreases items,
{
    let mut out: Vec<(Expression, Span)> = Vec::new();
    let n = items.len();
    let mut i: usize = 0;
    while i < n
        invariant
            n == items.len(),
            i <= n,
            out.len() == i,
            forall|j: int| 0 <= j < i ==> expr_view(#[trigger] out@[j].0) == expr_view(items@[j].0) && out@[j].1 == items@[j].1,
        decreases n - i,
    {
        proof {
            assert(decreases_to!(*items => items[i as int]));
            assert(decreases_to!(items[i as int] => items[i as int].0));
        }
        let e = items[i].0.duplicate();
        out.push((e, items[i].1));
        i = i + 1;
    }
    proof {
        lemma_items_view(out@);
        lemma_items_view(items@);
        assert(items_view(out@) =~= items_view(items@));
    }
    out
}


// ---------------------------------------------------------------- values and built-ins

impl Value {
    pub fn get_type(&self) -> (r: Type)
        ensures
            r@ == type_of(self@),
    {
        match self {
            Value::Nothing => Type::Nothing,
            Value::Integer(_) => Type::Integer,
            Value::Function(f) => Type::Function(f.signature.duplicate()),
            Value::Type(_) => Type::Type,
            Value::Name(_) => Type::Name,
        }
    }
}

impl BuiltInFunctionBody {
    pub fn default_name(self) -> (r: &'static str)
        ensures
            r@ == builtin_name(self),
    {
        match self {
            BuiltInFunctionBody::PrintInteger => "print_integer",
            BuiltInFunctionBody::PrintThreeIntegers => "print_three_integers",
            BuiltInFunctionBody::ToType => "type_of",
            BuiltInFunctionBody::PrintType => "print_type",
            BuiltInFunctionBody::DeclareAndSetGlobalVariable => "declare_and_set_global_variable",
        }
    }

    pub fn function_type_signature(self) -> (r: FunctionTypeSignature)
        ensures
            r@ == builtin_sig(self),
    {
        let (arg_types, return_type) = match self {
            BuiltInFunctionBody::PrintInteger => {
                (vec![TypeConstraints::Only(Type::Integer)], Type::Nothing)
            },
            BuiltInFunctionBody::PrintThreeIntegers => {
                (
                    vec![
                        TypeConstraints::Only(Type::Integer),
                        TypeConstraints::Only(Type::Integer),
                        TypeConstraints::Only(Type::Integer),
                    ],
                    Type::Nothing,
                )
            },
            BuiltInFunctionBody::ToType => (vec![TypeConstraints::Any], Type::Type),
            BuiltInFunctionBody::PrintType => {
                (vec![TypeConstraints::Only(Type::Type)], Type::Nothing)
            },
            BuiltInFunctionBody::DeclareAndSetGlobalVariable => {
                (vec![TypeConstraints::Only(Type::Name), TypeConstraints::Any], Type::Nothing)
            },
        };
        proof {
            lemma_constraints_view(arg_types@);
            assert(constraints_view(arg_types@) =~= builtin_sig(self).args);
        }
        FunctionTypeSignature { arg_types, return_type: Box::new(return_type) }
    }

    pub fn function(self) -> (r: Function)
        ensures
            r@ == builtin_function(self),
    {
        Function { signature: self.function_type_signature(), body: FunctionBody::BuiltIn(self) }
    }
}


// ---------------------------------------------------------------- tokens

#[derive(Clone, Debug)]
pub enum Token {
    Word(String),
    Integer(i32),
    OpenParenthesis,
    CloseParenthesis,
    Comma,
    OpenCurly,
    CloseCurly,
    Semicolon,
    Sigil,
}

impl View for Token {
    type V = Tok;

    open spec fn view(&self) -> Tok {
        match self {
            Token::Word(w) => Tok::Word(w@),
            Token::Integer(i) => Tok::Integer(*i),
            Token::OpenParenthesis => Tok::OpenParenthesis,
            Token::CloseParenthesis => Tok::CloseParenthesis,
            Token::Comma => Tok::Comma,
            Token::OpenCurly => Tok::OpenCurly,
            Token::CloseCurly => Tok::CloseCurly,
            Token::Semicolon => Tok::Semicolon,
            Token::Sigil => Tok::Sigil,
        }
    }
}

/// The model of a sequence of tokens with their spans.
impl Token {
    /// A copy of the token.
    pub fn duplicate(&self) -> (r: Token)
        ensures
            r@ == self@,
    {
        match self {
            Token::Word(w) => Token::Word(w.clone()),
            Token::Integer(i) => Token::Integer(*i),
            Token::OpenParenthesis => Token::OpenParenthesis,
            Token::CloseParenthesis => Token::CloseParenthesis,
            Token::Comma => Token::Comma,
            Token::OpenCurly => Token::OpenCurly,
            Token::CloseCurly => Token::CloseCurly,
            Token::Semicolon => Token::Semicolon,
            Token::Sigil => Token::Sigil,
        }
    }
}

pub open spec fn tokens_view(tokens: Seq<(Token, Span)>) -> Seq<(Tok, Span)> {
    tokens.map_values(|p: (Token, Span)| (p.0@, p.1))
}


// ---------------------------------------------------------------- construction and closedness

impl FunctionTypeSignature {
    pub fn new(arg_types: Vec<TypeConstraints>, return_type: Type) -> (r: FunctionTypeSignature)
        ensures
            r.arg_types == arg_types,
            r.return_type == return_type,
    {
        FunctionTypeSignature { arg_types, return_type: Box::new(return_type) }
    }
}

impl Function {
    pub fn new(signature: FunctionTypeSignature, body: FunctionBody) -> (r: Function)
        ensures
            r.signature == signature,
            r.body == body,
    {
        Function { signature, body }
    }
}

impl Value {
    /// Whether the value is closed: the body of the function it may be refers to no variable.
    pub fn is_closed(&self) -> (r: bool)
        ensures
            r == value_closed(self@),
        decreases self,
    {
        match self {
            Value::Function(f) => {
                match &f.body {
                    FunctionBody::BuiltIn(_) => true,
                    FunctionBody::Expression(b) => {
                        proof {
                            assert(decreases_to!(*self => (*self)->Function_0));
                            assert(decreases_to!(*f => f.body));
                            assert(decreases_to!(f.body => (f.body)->Expression_0));
                        }
                        b.is_closed()
                    },
                }
            },
            _ => true,
        }
    }
}

impl Expression {
    /// Whether the expression refers to no variable, at any depth.
    pub fn is_closed(&self) -> (r: bool)
        ensures
            r == expr_closed(self@),
        decreases self,
    {
        match self {
            Expression::Const(v) => v.is_closed(),
            Expression::Variable(_) => false,
            Expression::FunctionCall { func, args } => {
                proof {
                    assert(decreases_to!(*self => (*self)->func));
                    assert(decreases_to!(*self => (*self)->args));
                }
                let a = func.0.is_closed();
                let b = items_are_closed(args);
                a && b
            },
            Expression::Block(items) => {
                proof {
                    assert(decreases_to!(*self => (*self)->Block_0));
                }
                items_are_closed(items)
            },
        }
    }
}

/// Whether all the expressions are closed.
pub fn items_are_closed(items: &Vec<(Expression, Span)>) -> (r: bool)
    ensures
        r == items_closed(items_view(items@)),
    decreases items,
{
    proof {
        lemma_items_view(items@);
    }
    let n = items.len();
    let mut i: usize = 0;
    while i < n
        invariant
            n == items@.len(),
            i <= n,
            items_view(items@).len() == n,
            forall|j: int| 0 <= j < n ==> #[trigger] items_view(items@)[j] == (expr_view(items@[j].0), items@[j].1),
            forall|j: int| 0 <= j < i ==> expr_closed(#[trigger] items_view(items@)[j].0),
        decreases n - i,
    {
        proof {
            assert(decreases_to!(*items => items[i as int]));
            assert(decreases_to!(items[i as int] => items[i as int].0));
        }
        if !items[i].0.is_closed() {
            // This expression is not closed, so neither are the expressions.
            assert(!expr_closed(items_view(items@)[i as int].0));
            return false;
        }
        i = i + 1;
    }
    true
}

} // verus!
