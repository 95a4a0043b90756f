//! Static typing of Qwy Script expressions, and the contexts in which they are typed
//! and evaluated.

use vstd::prelude::*;

use super::model::{builtin_function, builtin_name, lookup, satisfies, type_of, value_closed, CallErr, Constraint, Expr, Sig, Ty, TypingErr, Val};
use super::values::{
    constraints_view, expr_view, items_view, BuiltInFunctionBody, lemma_constraints_view, lemma_items_view, Expression,
    FunctionTypeSignature, Span, Type, TypeConstraints, Value,
};

verus! {

broadcast use {vstd::std_specs::vec::group_vec_axioms, vstd::string::group_string_axioms};

// ---------------------------------------------------------------- contexts

/// The global variables of a running program, each with its value.
pub struct Context {
    pub(crate) variables: Vec<(String, Value)>,
}

/// The built-in functions, in their order of declaration.
pub open spec fn all_builtins() -> Seq<BuiltInFunctionBody> {
    seq![
        BuiltInFunctionBody::PrintInteger,
        BuiltInFunctionBody::PrintThreeIntegers,
        BuiltInFunctionBody::ToType,
        BuiltInFunctionBody::PrintType,
        BuiltInFunctionBody::DeclareAndSetGlobalVariable,
    ]
}

/// The context of the built-in functions, each under its name.
pub open spec fn builtins_context() -> Seq<(Seq<char>, Val)> {
    all_builtins().map_values(|b: BuiltInFunctionBody| (builtin_name(b), Val::Function(builtin_function(b))))
}

/// Every value of the context is closed.
pub open spec fn ctx_closed(ctx: Seq<(Seq<char>, Val)>) -> bool {
    forall|i: int| 0 <= i < ctx.len() ==> value_closed(#[trigger] ctx[i].1)
}

impl Context {
    #[verifier::type_invariant]
    closed spec fn values_closed(self) -> bool {
        ctx_closed(vars_view(self.variables@))
    }

    /// A context holding the built-in functions, each under its name.
    pub fn with_builtins() -> (r: Context)
        ensures
            r@ == builtins_context(),
    {
        let all = [
            BuiltInFunctionBody::PrintInteger,
            BuiltInFunctionBody::PrintThreeIntegers,
            BuiltInFunctionBody::ToType,
            BuiltInFunctionBody::PrintType,
            BuiltInFunctionBody::DeclareAndSetGlobalVariable,
        ];
        let mut variables: Vec<(String, Value)> = Vec::new();
        let mut i: usize = 0;
        while i < 5
            invariant
                all@ == all_builtins(),
                i <= 5,
                variables@.len() == i,
                vars_view(variables@) == builtins_context().take(i as int),
                ctx_closed(vars_view(variables@)),
            decreases 5 - i,
        {
            let b = all[i];
            let name = b.default_name().to_string();
            let entry = (name, Value::Function(b.function()));
            proof {
                let pushed = variables@.push(entry);
                assert(pushed[i as int] == entry);
                assert(vars_view(pushed)[i as int] == (entry.0@, entry.1@));
                assert(all_builtins()[i as int] == b);
                assert(builtins_context()[i as int] == (builtin_name(b), Val::Function(builtin_function(b))));
                assert(vars_view(pushed) =~= builtins_context().take(i + 1));
            }
            variables.push(entry);
            i = i + 1;
        }
        proof {
            assert(builtins_context().take(5) =~= builtins_context());
        }
        Context { variables }
    }

    /// A copy of the context.
    pub fn duplicate(&self) -> (r: Context)
        ensures
            r@ == self@,
    {
        proof {
            use_type_invariant(self);
        }
        let mut variables: Vec<(String, Value)> = Vec::new();
        let n = self.variables.len();
        let mut i: usize = 0;
        while i < n
            invariant
                n == self.variables.len(),
                i <= n,
                variables@.len() == i,
                vars_view(variables@) == vars_view(self.variables@).take(i as int),
                ctx_closed(vars_view(self.variables@)),
            decreases n - i,
        {
            let entry = (self.variables[i].0.clone(), self.variables[i].1.duplicate());
            proof {
                let pushed = variables@.push(entry);
                assert(pushed[i as int] == entry);
                assert(vars_view(pushed)[i as int] == (entry.0@, entry.1@));
                assert(vars_view(self.variables@)[i as int] == (self.variables@[i as int].0@, self.variables@[i as int].1@));
                assert(entry.0@ == self.variables@[i as int].0@);
                assert(vars_view(pushed) =~= vars_view(self.variables@).take(i + 1));
            }
            variables.push(entry);
            i = i + 1;
        }
        proof {
            assert(vars_view(self.variables@).take(n as int) =~= vars_view(self.variables@));
        }
        Context { variables }
    }

    /// Sets the variable named `name` to the value (replacing the value of the first variable of
    /// that name, or adding a variable), if the value is closed; returns whether it did so.
    pub fn insert_variable(&mut self, name: String, value: Value) -> (inserted: bool)
        ensures
            inserted == value_closed(value@),
            inserted ==> final(self)@ == set_variable(old(self)@, name@, value@),
            !inserted ==> final(self)@ == old(self)@,
    {
        if !value.is_closed() {
            return false;
        }
        proof {
            use_type_invariant(&*self);
        }
        let ghost before = self@;
        match find_variable(&self.variables, &name) {
            Some(i) => {
                proof {
                    lemma_set_variable_at(before, name@, value@, i as int);
                }
                let mut variables: Vec<(String, Value)> = Vec::new();
                std::mem::swap(&mut variables, &mut self.variables);
                proof {
                    assert(vars_view(variables@.update(i as int, (name, value))) =~= before.update(i as int, (name@, value@)));
                }
                variables.set(i, (name, value));
                self.variables = variables;
            },
            None => {
                proof {
                    lemma_set_variable_absent(before, name@, value@);
                }
                self.push_variable(name, value);
            },
        }
        true
    }

    /// The index of the first variable named `name`, if any.
    pub(crate) fn find(&self, name: &String) -> (r: Option<usize>)
        ensures
            match r {
                Some(i) => i < self@.len() && lookup(self@, name@) == Some(self@[i as int].1),
                None => lookup(self@, name@) is None,
            },
    {
        find_variable(&self.variables, name)
    }

    /// The value of the variable at index `i`.
    pub(crate) fn value_at(&self, i: usize) -> (r: &Value)
        requires
            i < self@.len(),
        ensures
            r@ == self@[i as int].1,
    {
        &self.variables[i].1
    }

    /// Adds a variable after the others.
    pub(crate) fn push_variable(&mut self, name: String, value: Value)
        requires
            value_closed(value@),
        ensures
            final(self)@ == old(self)@.push((name@, value@)),
    {
        proof {
            use_type_invariant(&*self);
        }
        let ghost before = self@;
        let mut variables: Vec<(String, Value)> = Vec::new();
        std::mem::swap(&mut variables, &mut self.variables);
        proof {
            assert(vars_view(variables@.push((name, value))) =~= before.push((name@, value@)));
        }
        variables.push((name, value));
        self.variables = variables;
    }

    /// The values of a context are closed.
    pub(crate) fn values_are_closed(&self)
        ensures
            ctx_closed(self@),
    {
        proof {
            use_type_invariant(self);
        }
    }
}

/// The context where the first variable named `name` takes the value `v`, or where a variable
/// of that name and value is added after the others.
pub open spec fn set_variable(ctx: Seq<(Seq<char>, Val)>, name: Seq<char>, v: Val) -> Seq<(Seq<char>, Val)>
    decreases ctx.len(),
{
    if ctx.len() == 0 {
        seq![(name, v)]
    } else if ctx[0].0 == name {
        ctx.update(0, (name, v))
    } else {
        seq![ctx[0]] + set_variable(ctx.drop_first(), name, v)
    }
}

proof fn lemma_set_variable_at(ctx: Seq<(Seq<char>, Val)>, name: Seq<char>, v: Val, i: int)
    requires
        0 <= i < ctx.len(),
        ctx[i].0 == name,
        forall|j: int| 0 <= j < i ==> ctx[j].0 != name,
    ensures
        set_variable(ctx, name, v) == ctx.update(i, (name, v)),
    decreases i,
{
    if i > 0 {
        let rest = ctx.drop_first();
        assert forall|j: int| 0 <= j < i - 1 implies rest[j].0 != name by {
            assert(rest[j] == ctx[j + 1]);
        }
        lemma_set_variable_at(rest, name, v, i - 1);
        assert(seq![ctx[0]] + rest.update(i - 1, (name, v)) =~= ctx.update(i, (name, v)));
    }
}

proof fn lemma_set_variable_absent(ctx: Seq<(Seq<char>, Val)>, name: Seq<char>, v: Val)
    requires
        lookup(ctx, name) is None,
    ensures
        set_variable(ctx, name, v) == ctx.push((name, v)),
    decreases ctx.len(),
{
    if ctx.len() > 0 {
        lemma_set_variable_absent(ctx.drop_first(), name, v);
        assert(seq![ctx[0]] + ctx.drop_first().push((name, v)) =~= ctx.push((name, v)));
    } else {
        assert(seq![(name, v)] =~= ctx.push((name, v)));
    }
}

/// The global variables with their types, in which a program is typed.
pub struct TypeContext {
    pub(crate) variables: Vec<(String, Type)>,
}

pub open spec fn vars_view<T: View>(vars: Seq<(String, T)>) -> Seq<(Seq<char>, T::V)> {
    vars.map_values(|p: (String, T)| (p.0@, p.1@))
}

impl View for Context {
    type V = Seq<(Seq<char>, Val)>;

    closed spec fn view(&self) -> Seq<(Seq<char>, Val)> {
        vars_view(self.variables@)
    }
}

impl View for TypeContext {
    type V = Seq<(Seq<char>, Ty)>;

    closed spec fn view(&self) -> Seq<(Seq<char>, Ty)> {
        vars_view(self.variables@)
    }
}

/// The types of the variables of a context.
pub open spec fn type_context_of(ctx: Seq<(Seq<char>, Val)>) -> Seq<(Seq<char>, Ty)> {
    ctx.map_values(|p: (Seq<char>, Val)| (p.0, type_of(p.1)))
}

pub proof fn lemma_lookup_first<V>(vars: Seq<(Seq<char>, V)>, name: Seq<char>, i: int)
    requires
        0 <= i <= vars.len(),
        forall|j: int| 0 <= j < i ==> (#[trigger] vars[j]).0 != name,
    ensures
        i < vars.len() && vars[i].0 == name ==> lookup(vars, name) == Some(vars[i].1),
        i == vars.len() ==> lookup(vars, name) is None,
    decreases i,
{
    if i > 0 {
        assert(vars[0].0 != name);
        let rest = vars.drop_first();
        assert forall|j: int| 0 <= j < i - 1 implies (#[trigger] rest[j]).0 != name by {
            assert(rest[j] == vars[j + 1]);
        }
        lemma_lookup_first(rest, name, i - 1);
    }
}

pub proof fn lemma_lookup_type_context(ctx: Seq<(Seq<char>, Val)>, name: Seq<char>)
    ensures
        lookup(type_context_of(ctx), name) == match lookup(ctx, name) {
            Some(v) => Some(type_of(v)),
            None => None,
        },
    decreases ctx.len(),
{
    if ctx.len() > 0 {
        assert(type_context_of(ctx).drop_first() =~= type_context_of(ctx.drop_first()));
        lemma_lookup_type_context(ctx.drop_first(), name);
    }
}

/// The index of the first variable named `name`, if any.
pub(crate) fn find_variable<T: View>(vars: &Vec<(String, T)>, name: &String) -> (r: Option<usize>)
    ensures
        match r {
            Some(i) => i < vars@.len() && vars@[i as int].0@ == name@ && lookup(vars_view(vars@), name@)
                == Some(vars@[i as int].1@) && forall|j: int| 0 <= j < i ==> vars_view(vars@)[j].0 != name@,
            None => lookup(vars_view(vars@), name@) is None,
        },
{
    let ghost vv = vars_view(vars@);
    let mut i: usize = 0;
    while i < vars.len()
        invariant
            vv == vars_view(vars@),
            i <= vars.len(),
            forall|j: int| 0 <= j < i ==> (#[trigger] vv[j]).0 != name@,
        decreases vars.len() - i,
    {
        if vars[i].0 == *name {
            proof {
                lemma_lookup_first(vv, name@, i as int);
            }
            return Some(i);
        }
        i = i + 1;
    }
    proof {
        lemma_lookup_first(vv, name@, i as int);
    }
    None
}

impl Context {
    pub fn get_type_context(&self) -> (r: TypeContext)
        ensures
            r@ == type_context_of(self@),
    {
        let mut variables: Vec<(String, Type)> = Vec::new();
        let n = self.variables.len();
        let mut i: usize = 0;
        while i < n
            invariant
                n == self.variables.len(),
                i <= n,
                variables.len() == i,
                forall|j: int|
                    0 <= j < i ==> (#[trigger] variables@[j]).0@ == self.variables@[j].0@
                        && variables@[j].1@ == type_of(self.variables@[j].1@),
            decreases n - i,
        {
            let name = self.variables[i].0.clone();
            let t = self.variables[i].1.get_type();
            variables.push((name, t));
            i = i + 1;
        }
        let r = TypeContext { variables };
        proof {
            assert(r@ =~= type_context_of(self@));
        }
        r
    }
}

// ---------------------------------------------------------------- typing of expressions

#[derive(Debug)]
pub enum ExpressionTypingError {
    FunctionCallOnNotAFunction,
    FunctionCallOnErroneousType,
    UnknownVariable,
}

impl View for ExpressionTypingError {
    type V = TypingErr;

    open spec fn view(&self) -> TypingErr {
        match self {
            ExpressionTypingError::FunctionCallOnNotAFunction => TypingErr::FunctionCallOnNotAFunction,
            ExpressionTypingError::FunctionCallOnErroneousType => TypingErr::FunctionCallOnErroneousType,
            ExpressionTypingError::UnknownVariable => TypingErr::UnknownVariable,
        }
    }
}

/// No block of the expression is empty.
pub open spec fn blocks_nonempty(e: Expr) -> bool
    decreases e,
{
    match e {
        Expr::Const(_) => true,
        Expr::Variable(_) => true,
        Expr::Call(f, _, args) => blocks_nonempty(*f) && forall|i: int|
            0 <= i < args.len() ==> blocks_nonempty(#[trigger] args[i].0),
        Expr::Block(items) => items.len() > 0 && forall|i: int|
            0 <= i < items.len() ==> blocks_nonempty(#[trigger] items[i].0),
    }
}

/// Typing the expression meets no empty block: the blocks that typing looks into (the last
/// expression of a block, the called expression of a call) are not empty.
pub open spec fn typeable(e: Expr) -> bool
    decreases e,
{
    match e {
        Expr::Const(_) => true,
        Expr::Variable(_) => true,
        Expr::Call(f, _, _) => typeable(*f),
        Expr::Block(items) => items.len() > 0 && typeable(items[items.len() - 1].0),
    }
}

/// An expression without empty blocks can be typed.
pub proof fn lemma_blocks_nonempty_typeable(e: Expr)
    requires
        blocks_nonempty(e),
    ensures
        typeable(e),
    decreases e,
{
    match e {
        Expr::Call(f, _, _) => {
            lemma_blocks_nonempty_typeable(*f);
        },
        Expr::Block(items) => {
            assert(blocks_nonempty(items[items.len() - 1].0));
            lemma_blocks_nonempty_typeable(items[items.len() - 1].0);
        },
        _ => {},
    }
}

/// The arguments before the `i`-th are typed, each of a type that satisfies its constraint.
pub open spec fn args_ok_before(
    constraints: Seq<Constraint>,
    args: Seq<(Expr, Span)>,
    tctx: Seq<(Seq<char>, Ty)>,
    i: int,
) -> bool {
    forall|j: int|
        0 <= j < i ==> (match #[trigger] expr_type(args[j].0, tctx) {
            Ok(t) => satisfies(constraints[j], t),
            Err(_) => false,
        })
}

/// The static type of an expression: that of its value, of its variable, what the called
/// function returns, or the type of the last expression of a block.
pub open spec fn expr_type(e: Expr, tctx: Seq<(Seq<char>, Ty)>) -> Result<Ty, TypingErr>
    decreases e,
{
    match e {
        Expr::Const(v) => Ok(type_of(v)),
        Expr::Variable(name) => match lookup(tctx, name) {
            Some(t) => Ok(t),
            None => Err(TypingErr::UnknownVariable),
        },
        Expr::Call(f, _, _) => match expr_type(*f, tctx) {
            Ok(Ty::Function(sig)) => Ok(*sig.ret),
            Err(_) => Err(TypingErr::FunctionCallOnErroneousType),
            Ok(_) => Err(TypingErr::FunctionCallOnNotAFunction),
        },
        Expr::Block(items) => if items.len() > 0 {
            expr_type(items.last().0, tctx)
        } else {
            Err(TypingErr::UnknownVariable)
        },
    }
}

impl Expression {
    pub fn get_type(&self, type_context: &TypeContext) -> (r: Result<Type, ExpressionTypingError>)
        requires
            typeable(self@),
        ensures
            match (r, expr_type(self@, type_context@)) {
                (Ok(t), Ok(u)) => t@ == u,
                (Err(e), Err(u)) => e@ == u,
                _ => false,
            },
        decreases self,
    {
        match self {
            Expression::Const(value) => Ok(value.get_type()),
            Expression::Variable(name) => {
                match find_variable(&type_context.variables, name) {
                    Some(i) => Ok(type_context.variables[i].1.duplicate()),
                    None => Err(ExpressionTypingError::UnknownVariable),
                }
            },
            Expression::FunctionCall { func, .. } => {
                proof {
                    assert(decreases_to!(*self => (*self)->func));
                }
                let func_type = func.0.get_type(type_context);
                match func_type {
                    Ok(Type::Function(signature)) => Ok(signature.return_type.duplicate()),
                    Err(_) => Err(ExpressionTypingError::FunctionCallOnErroneousType),
                    Ok(_) => Err(ExpressionTypingError::FunctionCallOnNotAFunction),
                }
            },
            Expression::Block(expr_sequence) => {
                proof {
                    lemma_items_view(expr_sequence@);
                    assert(decreases_to!(*self => (*self)->Block_0));
                    assert(decreases_to!(*expr_sequence => expr_sequence[expr_sequence.len() - 1]));
                    let k = expr_sequence@.len() - 1;
                    assert(items_view(expr_sequence@)[k] == (expr_view(expr_sequence@[k].0), expr_sequence@[k].1));
                }
                expr_sequence[expr_sequence.len() - 1].0.get_type(type_context)
            },
        }
    }
}


// ---------------------------------------------------------------- typing of function calls

#[derive(Debug)]
pub enum FunctionCallTypingError {
    /// How many arguments are missing.
    MissingArguments {
        how_many_args_missing: u32,
        args_list_in_parenthesis_span: Span,
        function_span: Span,
        function_call_span: Span,
    },
    /// How many arguments are there above the expected number of arguments.
    TooManyArguments {
        how_many_args_in_excess: u32,
        args_in_excess_span: Span,
        function_span: Span,
        function_call_span: Span,
    },
    /// Argument expression typing error and argument span.
    ArgumentExpressionTypingError {
        arg_typing_error: ExpressionTypingError,
        faulty_arg_span: Span,
        faulty_arg_index: usize,
        function_span: Span,
        function_call_span: Span,
    },
    /// The constraints of the parameter, the (wrong) type of the argument, its span and index.
    ArgumentOfTheWrongType {
        parameter_type_constraints: TypeConstraints,
        wrong_arg_type: Type,
        wrong_arg_span: Span,
        wrong_arg_index: usize,
        function_span: Span,
        function_call_span: Span,
    },
}

impl View for FunctionCallTypingError {
    type V = CallErr;

    open spec fn view(&self) -> CallErr {
        match self {
            FunctionCallTypingError::MissingArguments {
                how_many_args_missing,
                args_list_in_parenthesis_span,
                function_span,
                function_call_span,
            } => CallErr::MissingArguments {
                how_many: *how_many_args_missing,
                args_list_span: *args_list_in_parenthesis_span,
                function_span: *function_span,
                call_span: *function_call_span,
            },
            FunctionCallTypingError::TooManyArguments {
                how_many_args_in_excess,
                args_in_excess_span,
                function_span,
                function_call_span,
            } => CallErr::TooManyArguments {
                how_many: *how_many_args_in_excess,
                args_in_excess_span: *args_in_excess_span,
                function_span: *function_span,
                call_span: *function_call_span,
            },
            FunctionCallTypingError::ArgumentExpressionTypingError {
                arg_typing_error,
                faulty_arg_span,
                faulty_arg_index,
                function_span,
                function_call_span,
            } => CallErr::ArgumentExpressionTypingError {
                error: arg_typing_error@,
                arg_span: *faulty_arg_span,
                arg_index: *faulty_arg_index as int,
                function_span: *function_span,
                call_span: *function_call_span,
            },
            FunctionCallTypingError::ArgumentOfTheWrongType {
                parameter_type_constraints,
                wrong_arg_type,
                wrong_arg_span,
                wrong_arg_index,
                function_span,
                function_call_span,
            } => CallErr::ArgumentOfTheWrongType {
                constraint: parameter_type_constraints@,
                wrong_type: wrong_arg_type@,
                arg_span: *wrong_arg_span,
                arg_index: *wrong_arg_index as int,
                function_span: *function_span,
                call_span: *function_call_span,
            },
        }
    }
}

/// The first argument, from index `i` on, whose typing fails or whose type does not satisfy
/// the constraints of its parameter, as an error.
pub open spec fn check_args_from(
    constraints: Seq<Constraint>,
    args: Seq<(Expr, Span)>,
    tctx: Seq<(Seq<char>, Ty)>,
    i: int,
    function_span: Span,
    call_span: Span,
) -> Result<(), CallErr>
    decreases args.len() - i,
{
    if i < 0 || i >= args.len() {
        Ok(())
    } else {
        match expr_type(args[i].0, tctx) {
            Err(e) => Err(
                CallErr::ArgumentExpressionTypingError {
                    error: e,
                    arg_span: args[i].1,
                    arg_index: i,
                    function_span,
                    call_span,
                },
            ),
            Ok(t) => if !satisfies(constraints[i], t) {
                Err(
                    CallErr::ArgumentOfTheWrongType {
                        constraint: constraints[i],
                        wrong_type: t,
                        arg_span: args[i].1,
                        arg_index: i,
                        function_span,
                        call_span,
                    },
                )
            } else {
                check_args_from(constraints, args, tctx, i + 1, function_span, call_span)
            },
        }
    }
}

/// Checking a call of a function of signature `sig` on the arguments `args`: first their
/// number, then each argument in order.
pub open spec fn check_call(
    sig: Sig,
    function_span: Span,
    args_list_span: Span,
    args: Seq<(Expr, Span)>,
    tctx: Seq<(Seq<char>, Ty)>,
) -> Result<(), CallErr> {
    let call_span = Span { start: function_span.start, end: args_list_span.end };
    let expected = sig.args.len();
    let actual = args.len();
    if expected > actual {
        Err(
            CallErr::MissingArguments {
                how_many: (expected - actual) as u32,
                args_list_span,
                function_span,
                call_span,
            },
        )
    } else if expected < actual {
        Err(
            CallErr::TooManyArguments {
                how_many: (actual - expected) as u32,
                args_in_excess_span: Span { start: args[expected as int].1.start, end: args[actual - 1].1.end },
                function_span,
                call_span,
            },
        )
    } else {
        check_args_from(sig.args, args, tctx, 0, function_span, call_span)
    }
}

pub fn check_function_call_argument_types(
    function_type_signature: FunctionTypeSignature,
    function_span: Span,
    args_list_in_parenthesis_span: Span,
    args: &[(Expression, Span)],
    type_context: &TypeContext,
) -> (r: Result<(), FunctionCallTypingError>)
    requires
        function_type_signature.arg_types@.len() == args@.len() ==> forall|i: int|
            0 <= i < args@.len() && args_ok_before(
                constraints_view(function_type_signature.arg_types@),
                items_view(args@),
                type_context@,
                i,
            ) ==> typeable(#[trigger] args@[i].0@),
    ensures
        match (r, check_call(function_type_signature@, function_span, args_list_in_parenthesis_span, items_view(args@), type_context@)) {
            (Ok(()), Ok(())) => true,
            (Err(e), Err(u)) => e@ == u,
            _ => false,
        },
{
    proof {
        lemma_items_view(args@);
        lemma_constraints_view(function_type_signature.arg_types@);
    }
    let ghost items = items_view(args@);
    let ghost cs = constraints_view(function_type_signature.arg_types@);
    let function_call_span = Span { start: function_span.start, end: args_list_in_parenthesis_span.end };
    let expected_arg_count = function_type_signature.arg_types.len();
    let actual_arg_count = args.len();
    if expected_arg_count > actual_arg_count {
        return Err(
            FunctionCallTypingError::MissingArguments {
                how_many_args_missing: (expected_arg_count - actual_arg_count) as u32,
                args_list_in_parenthesis_span,
                function_span,
                function_call_span,
            },
        );
    }
    if expected_arg_count < actual_arg_count {
        let args_in_excess_span = Span {
            start: args[expected_arg_count].1.start,
            end: args[actual_arg_count - 1].1.end,
        };
        return Err(
            FunctionCallTypingError::TooManyArguments {
                how_many_args_in_excess: (actual_arg_count - expected_arg_count) as u32,
                args_in_excess_span,
                function_span,
                function_call_span,
            },
        );
    }
    let mut arg_i: usize = 0;
    while arg_i < actual_arg_count
        invariant
            actual_arg_count == args@.len(),
            expected_arg_count == actual_arg_count,
            function_type_signature.arg_types@.len() == expected_arg_count,
            items == items_view(args@),
            cs == constraints_view(function_type_signature.arg_types@),
            items.len() == args@.len(),
            cs.len() == expected_arg_count,
            forall|i: int| 0 <= i < args@.len() ==> #[trigger] items[i] == (expr_view(args@[i].0), args@[i].1),
            forall|i: int| 0 <= i < expected_arg_count ==> #[trigger] cs[i] == function_type_signature.arg_types@[i]@,
            forall|i: int|
                0 <= i < args@.len() && args_ok_before(cs, items, type_context@, i) ==> typeable(
                    #[trigger] args@[i].0@,
                ),
            args_ok_before(cs, items, type_context@, arg_i as int),
            function_call_span == (Span { start: function_span.start, end: args_list_in_parenthesis_span.end }),
            arg_i <= actual_arg_count,
            check_args_from(cs, items, type_context@, 0, function_span, function_call_span)
                == check_args_from(cs, items, type_context@, arg_i as int, function_span, function_call_span),
        decreases actual_arg_count - arg_i,
    {
        let type_constraints = &function_type_signature.arg_types[arg_i];
        let arg = &args[arg_i].0;
        let arg_span = args[arg_i].1;
        let actual_type = match arg.get_type(type_context) {
            Ok(actual_type) => actual_type,
            Err(type_error) => {
                return Err(
                    FunctionCallTypingError::ArgumentExpressionTypingError {
                        arg_typing_error: type_error,
                        faulty_arg_span: arg_span,
                        faulty_arg_index: arg_i,
                        function_span,
                        function_call_span,
                    },
                );
            },
        };
        if !type_constraints.is_satisfied_by_type(&actual_type) {
            return Err(
                FunctionCallTypingError::ArgumentOfTheWrongType {
                    parameter_type_constraints: type_constraints.duplicate(),
                    wrong_arg_type: actual_type,
                    wrong_arg_span: arg_span,
                    wrong_arg_index: arg_i,
                    function_span,
                    function_call_span,
                },
            );
        }
        arg_i = arg_i + 1;
    }
    Ok(())
}

} // verus!
