use qwy3::lang::eval::evaluate_expression;
use qwy3::lang::{
    can_be_tokenized, parse, run, run_would_fail, tokenize, BuiltInFunctionBody, Context,
    Expression, ExpressionParsingError, ExpressionTypingError, Function, FunctionBody,
    FunctionCallTypingError, FunctionTypeSignature, Output, Token, Type, TypeConstraints, Value,
};

fn printed_integers(outputs: &[Output]) -> Vec<i32> {
    let mut integers = vec![];
    for output in outputs {
        if let Output::PrintedInteger(i) = output {
            integers.push(*i);
        }
    }
    integers
}

#[test]
fn lang_prints_an_integer() {
    let outputs = run("print_integer(69)", &mut Context::with_builtins()).unwrap();
    assert_eq!(outputs.len(), 1);
    assert!(matches!(outputs[0], Output::PrintedInteger(69)));
}

#[test]
fn lang_prints_three_integers() {
    let outputs = run("print_three_integers(42, 2, 8)", &mut Context::with_builtins()).unwrap();
    assert_eq!(outputs.len(), 1);
    match &outputs[0] {
        Output::PrintedIntegers(integers) => assert_eq!(integers, &vec![42, 2, 8]),
        _ => panic!("expected three integers"),
    }
}

#[test]
fn lang_prints_the_type_of_a_function() {
    let outputs =
        run("print_type(type_of(print_integer))", &mut Context::with_builtins()).unwrap();
    assert_eq!(outputs.len(), 1);
    let expected = Type::Function(FunctionTypeSignature::new(
        vec![TypeConstraints::Only(Type::Integer)],
        Type::Nothing,
    ));
    match &outputs[0] {
        Output::PrintedType(t) => assert_eq!(t, &expected),
        _ => panic!("expected a type"),
    }
}

#[test]
fn lang_calls_a_function_of_the_context() {
    let mut context = Context::with_builtins();
    let jaaj = Value::Function(Function::new(
        FunctionTypeSignature::new(vec![], Type::Integer),
        FunctionBody::Expression(Box::new(Expression::Const(Value::Integer(420)))),
    ));
    assert!(context.insert_variable("jaaj".to_string(), jaaj));
    let outputs = run("print_integer(jaaj())", &mut context).unwrap();
    assert_eq!(printed_integers(&outputs), vec![420]);
}

#[test]
fn lang_reports_missing_arguments() {
    let context = Context::with_builtins();
    let parsing_error = parse("print_integer()", &context.get_type_context()).unwrap_err();
    match parsing_error {
        ExpressionParsingError::FunctionCallTypingError(
            FunctionCallTypingError::MissingArguments { how_many_args_missing, .. },
            _,
        ) => assert_eq!(how_many_args_missing, 1),
        other => panic!("unexpected error {other:?}"),
    }
}

#[test]
fn lang_declares_a_global_variable() {
    let mut context = Context::with_builtins();
    let outputs = run("declare_and_set_global_variable($test, 8)", &mut context).unwrap();
    assert!(matches!(&outputs[0], Output::Declared(name, Value::Integer(8)) if name == "test"));
    let outputs = run("print_integer(test)", &mut context).unwrap();
    assert_eq!(printed_integers(&outputs), vec![8]);
}

#[test]
fn lang_evaluates_a_block_in_order() {
    let outputs = run(
        "{print_integer(1); print_integer(2); print_integer(3)}",
        &mut Context::with_builtins(),
    )
    .unwrap();
    assert_eq!(printed_integers(&outputs), vec![1, 2, 3]);
}

#[test]
fn lang_declares_the_value_of_a_block() {
    let mut context = Context::with_builtins();
    let outputs = run(
        "declare_and_set_global_variable($test, {print_integer(42); 8})",
        &mut context,
    )
    .unwrap();
    assert_eq!(printed_integers(&outputs), vec![42]);
    let outputs = run("print_integer(test)", &mut context).unwrap();
    assert_eq!(printed_integers(&outputs), vec![8]);
}

#[test]
fn lang_redeclaring_would_fail() {
    let mut context = Context::with_builtins();
    run("declare_and_set_global_variable($x, 1)", &mut context).unwrap();
    assert!(run_would_fail("declare_and_set_global_variable($x, 2)", &context));
    assert!(!run_would_fail("print_integer(x)", &context));
    assert!(!run_would_fail("print_integer(", &context));
}

#[test]
fn lang_tokens() {
    assert!(can_be_tokenized("print_integer(12, $a) {;}"));
    assert!(!can_be_tokenized("print_integer(-12)"));
    assert!(!can_be_tokenized("print_integer(99999999999)"));
    let tokens = tokenize("f(12, $a)");
    let kinds: Vec<Token> = tokens.iter().map(|(t, _)| t.clone()).collect();
    assert!(matches!(&kinds[0], Token::Word(w) if w == "f"));
    assert!(matches!(kinds[1], Token::OpenParenthesis));
    assert!(matches!(kinds[2], Token::Integer(12)));
    assert!(matches!(kinds[3], Token::Comma));
    assert!(matches!(kinds[4], Token::Sigil));
    assert!(matches!(&kinds[5], Token::Word(w) if w == "a"));
    assert!(matches!(kinds[6], Token::CloseParenthesis));
    assert_eq!(tokens.len(), 7);
    assert_eq!((tokens[0].1.start, tokens[0].1.end), (0, 0));
    assert_eq!((tokens[2].1.start, tokens[2].1.end), (2, 3));
}

#[test]
fn lang_parse_errors() {
    let type_context = Context::with_builtins().get_type_context();
    assert!(matches!(
        parse("", &type_context),
        Err(ExpressionParsingError::ExpectedStartOfExpressionButGotNoMoreTokens)
    ));
    assert!(matches!(
        parse("unknown", &type_context),
        Err(ExpressionParsingError::ExpressionTypingError(ExpressionTypingError::UnknownVariable, _))
    ));
    assert!(matches!(
        parse("4(2)", &type_context),
        Err(ExpressionParsingError::FunctionCallOnNotAFunction(Type::Integer, _))
    ));
    assert!(matches!(
        parse("print_integer(1 2)", &type_context),
        Err(ExpressionParsingError::ExpectedCommaToSeparateArgumentsButGotUnexpectedToken(..))
    ));
    assert!(matches!(
        parse("print_integer(print_integer)", &type_context),
        Err(ExpressionParsingError::FunctionCallTypingError(
            FunctionCallTypingError::ArgumentOfTheWrongType { wrong_arg_index: 0, .. },
            _
        ))
    ));
    assert!(matches!(
        parse("print_integer(1, 2)", &type_context),
        Err(ExpressionParsingError::FunctionCallTypingError(
            FunctionCallTypingError::TooManyArguments { how_many_args_in_excess: 1, .. },
            _
        ))
    ));
    assert!(matches!(
        parse("{print_integer(1) print_integer(2)}", &type_context),
        Err(ExpressionParsingError::ExpectedSemicolonToSeparateExpressionsInBlockButGotUnexpectedToken(..))
    ));
    assert!(matches!(
        parse("$(", &type_context),
        Err(ExpressionParsingError::ExpectedWordAfterSigilButGotUnexpectedToken(..))
    ));
}

#[test]
fn lang_types_and_builtins() {
    assert_eq!(Value::Integer(3).get_type(), Type::Integer);
    assert_eq!(Value::Name("n".to_string()).get_type(), Type::Name);
    assert!(TypeConstraints::Any.is_satisfied_by_type(&Type::Nothing));
    assert!(TypeConstraints::Only(Type::Integer).is_satisfied_by_type(&Type::Integer));
    assert!(!TypeConstraints::Only(Type::Integer).is_satisfied_by_type(&Type::Type));
    assert_eq!(BuiltInFunctionBody::ToType.default_name(), "type_of");
    assert_eq!(BuiltInFunctionBody::PrintInteger.default_name(), "print_integer");
    let signature = BuiltInFunctionBody::DeclareAndSetGlobalVariable.function_type_signature();
    assert_eq!(signature.arg_types, vec![TypeConstraints::Only(Type::Name), TypeConstraints::Any]);
    assert_eq!(*signature.return_type, Type::Nothing);
    let type_context = Context::with_builtins().get_type_context();
    let call = parse("type_of(1)", &type_context).unwrap().0;
    assert_eq!(call.get_type(&type_context).unwrap(), Type::Type);
}

#[test]
fn lang_values_have_their_static_types() {
    let mut context = Context::with_builtins();
    run("declare_and_set_global_variable($answer, 42)", &mut context).unwrap();
    for code in [
        "answer",
        "type_of(answer)",
        "print_integer(answer)",
        "{print_integer(1); type_of(print_type)}",
        "print_three_integers",
        "$name",
    ] {
        let type_context = context.get_type_context();
        let (expression, _span) = parse(code, &type_context).unwrap();
        let static_type = expression.get_type(&type_context).unwrap();
        let mut outputs = vec![];
        let value = evaluate_expression(&expression, &mut context, &mut outputs).unwrap();
        assert_eq!(value.get_type(), static_type, "code {code:?}");
    }
}

#[test]
fn lang_parsed_programs_fail_only_by_redeclaration() {
    let mut context = Context::with_builtins();
    run("declare_and_set_global_variable($y, 5)", &mut context).unwrap();
    for code in [
        "print_integer(y)",
        "print_three_integers(1, y, 3)",
        "{print_type(type_of(y)); type_of(print_integer)}",
        "declare_and_set_global_variable($z, y)",
        "$y",
    ] {
        assert!(!run_would_fail(code, &context), "code {code:?}");
    }
    for code in [
        "declare_and_set_global_variable($y, 6)",
        "{print_integer(y); declare_and_set_global_variable($print_integer, 0)}",
    ] {
        assert!(run_would_fail(code, &context), "code {code:?}");
    }
}
