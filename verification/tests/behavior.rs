use musath::body::Body;
use musath::context::Context;
use musath::eval::{eval_output, EvalError};
use musath::expression::{BinaryOperator, Expression, UnaryOperator};
use musath::file::Musath;
use musath::token::{lex, ParseError};

fn parse_expression(source: &str) -> Expression {
    let tokens = lex(source.as_bytes()).unwrap();
    Expression::parse(&tokens, 0).unwrap().0
}

fn eval_str(source: &str) -> f64 {
    f64::from_bits(parse_expression(source).eval(&Context::default()).unwrap())
}

fn eval_err(source: &str) -> EvalError {
    parse_expression(source).eval(&Context::default()).unwrap_err()
}

#[test]
fn precedence() {
    assert_eq!(eval_str("2+3*4"), 14.0);
    assert_eq!(eval_str("(2+3)*4"), 20.0);
}

#[test]
fn exponentiation_is_right_associative() {
    assert_eq!(eval_str("2^3^2"), 512.0);
}

#[test]
fn negation_binds_the_base_of_a_power() {
    assert_eq!(eval_str("-2^2"), 4.0);
}

#[test]
fn remainder_is_euclidean() {
    assert_eq!(eval_str("-1 % 3"), 2.0);
    assert_eq!(eval_str("3.5 % 2"), 1.5);
}

#[test]
fn arithmetic_operators() {
    assert_eq!(eval_str("1 + 2"), 3.0);
    assert_eq!(eval_str("5 - 1"), 4.0);
    assert_eq!(eval_str("2 * 3"), 6.0);
    assert_eq!(eval_str("1 / 4"), 0.25);
    assert_eq!(eval_str("2 ^ 0.5"), 2.0f64.powf(0.5));
    assert_eq!(eval_str("0.1 + 0.2"), 0.1f64 + 0.2f64);
}

#[test]
fn literals_convert_exactly() {
    assert_eq!(eval_str("2.3"), 2.3f64);
    assert_eq!(eval_str("0.0001"), 0.0001f64);
    assert_eq!(eval_str("1024"), 1024.0);
}

#[test]
fn seed_constants() {
    assert_eq!(eval_str("pi"), std::f64::consts::PI);
    assert_eq!(eval_str("tau"), std::f64::consts::TAU);
    assert_eq!(eval_str("e"), std::f64::consts::E);
}

#[test]
fn unary_and_binary_operator_eval() {
    assert_eq!(
        UnaryOperator::Negate.eval(2.0f64.to_bits()),
        (-2.0f64).to_bits(),
    );
    assert_eq!(
        BinaryOperator::Add.eval(1.5f64.to_bits(), 2.25f64.to_bits()),
        3.75f64.to_bits(),
    );
    assert_eq!(
        BinaryOperator::Remainder.eval((-1.0f64).to_bits(), 3.0f64.to_bits()),
        2.0f64.to_bits(),
    );
}

#[test]
fn math_builtins() {
    assert_eq!(eval_str("abs(-3)"), 3.0);
    assert_eq!(eval_str("abs(3)"), 3.0);
    assert_eq!(eval_str("min(2, 5)"), 2.0);
    assert_eq!(eval_str("max(2, 5)"), 5.0);
    assert_eq!(eval_str("floor(3.7)"), 3.0);
    assert_eq!(eval_str("ceil(3.2)"), 4.0);
    assert_eq!(eval_str("sin(0)"), 0.0);
    assert_eq!(eval_str("cos(0)"), 1.0);
    assert!((eval_str("sin(1)") - 1.0f64.sin()).abs() < 1e-15);
    assert!((eval_str("cos(1)") - 1.0f64.cos()).abs() < 1e-15);
}

#[test]
fn mix_is_the_arithmetic_mean() {
    assert_eq!(eval_str("mix(1, 2, 6)"), 3.0);
    assert_eq!(eval_str("mix(5)"), 5.0);
}

#[test]
fn sum_and_prod_fold_the_half_open_range() {
    assert_eq!(eval_str("sum(i, 0, 5, i)"), 10.0);
    assert_eq!(eval_str("prod(i, 1, 5, i)"), 24.0);
    assert_eq!(eval_str("sum(i, 5, 5, i)"), 0.0);
    assert_eq!(eval_str("prod(i, 5, 5, i)"), 1.0);
}

#[test]
fn sum_bounds_round_to_nearest() {
    assert_eq!(eval_str("sum(i, 0.4, 2.6, i)"), 3.0);
    assert_eq!(eval_str("sum(i, -1, 2, i)"), 0.0);
}

#[test]
fn undefined_names_fail_loudly() {
    assert_eq!(eval_err("foo(1)"), EvalError::UndefinedFunction(b"foo".to_vec()));
    assert_eq!(eval_err("bar"), EvalError::UndefinedIdentifier(b"bar".to_vec()));
}

#[test]
fn call_errors_name_the_operation() {
    assert_eq!(eval_err("abs(1, 2)"), EvalError::FunctionCallError(b"abs".to_vec()));
    assert_eq!(eval_err("min(1)"), EvalError::FunctionCallError(b"min".to_vec()));
    assert_eq!(eval_err("sum(1, 0, 5, 2)"), EvalError::FunctionCallError(b"sum".to_vec()));
}

#[test]
fn wrong_arity_names_the_function() {
    let body = Body::parse(b"f(a, b) = a\noutput(t) = f(1)").unwrap();
    assert_eq!(
        eval_output(body.context(), 0.0f64.to_bits()).unwrap_err(),
        EvalError::FunctionCallError(b"f".to_vec()),
    );
}

#[test]
fn shadowing_inside_a_call_scope() {
    let body = Body::parse(b"f(pi) = pi\noutput(t) = f(1)").unwrap();
    assert_eq!(
        f64::from_bits(eval_output(body.context(), 0.0f64.to_bits()).unwrap()),
        1.0,
    );
    assert_eq!(eval_str("pi"), std::f64::consts::PI);
}

#[test]
fn user_functions_bind_eagerly_in_order() {
    let body = Body::parse(b"g(a, b) = a - b\noutput(t) = g(5, 2)").unwrap();
    assert_eq!(
        f64::from_bits(eval_output(body.context(), 0.0f64.to_bits()).unwrap()),
        3.0,
    );
}

#[test]
fn output_receives_the_time_value() {
    let body = Body::parse(b"output(t) = t * 2").unwrap();
    assert_eq!(
        f64::from_bits(eval_output(body.context(), 0.25f64.to_bits()).unwrap()),
        0.5,
    );
}

#[test]
fn missing_entry_point() {
    let body = Body::parse(b"f(x) = x\n").unwrap();
    assert_eq!(
        eval_output(body.context(), 0.0f64.to_bits()).unwrap_err(),
        EvalError::MissingEntryPoint,
    );
}

#[test]
fn cyclic_definitions_hit_the_recursion_limit() {
    let body = Body::parse(b"f(x) = f(x)\noutput(t) = f(1)").unwrap();
    assert_eq!(
        eval_output(body.context(), 0.0f64.to_bits()).unwrap_err(),
        EvalError::RecursionLimit,
    );
}

#[test]
fn recursion_through_shrinking_fold_ranges_terminates() {
    let body = Body::parse(b"h(x) = sum(i, 0, min(x, 1), h(x - 1))\noutput(t) = h(50)").unwrap();
    assert_eq!(
        f64::from_bits(eval_output(body.context(), 0.0f64.to_bits()).unwrap()),
        0.0,
    );
}

#[test]
fn call_chains_within_the_table_evaluate() {
    let body = Body::parse(b"a(x) = x + 1\nb(x) = a(x) + 1\nc(x) = b(x) + 1\noutput(t) = c(t)")
        .unwrap();
    assert_eq!(
        f64::from_bits(eval_output(body.context(), 1.0f64.to_bits()).unwrap()),
        4.0,
    );
}

#[test]
fn parse_errors() {
    let tokens = lex(b"@").unwrap_err();
    assert_eq!(tokens, ParseError::BadByte { at: 0 });
    let tokens = lex(b"\"open").unwrap_err();
    assert_eq!(tokens, ParseError::BadByte { at: 0 });

    let tokens = lex(b"1 +").unwrap();
    assert_eq!(Expression::parse(&tokens, 0).unwrap_err(), ParseError::UnexpectedEnd);

    let tokens = lex(b")").unwrap();
    assert_eq!(
        Expression::parse(&tokens, 0).unwrap_err(),
        ParseError::UnexpectedToken { at: 0 },
    );

    assert_eq!(
        Body::parse(b"f(a, a) = a").unwrap_err(),
        ParseError::DuplicateParameter { at: 0 },
    );

    assert!(Body::parse(b"f(x) = x g(x) = x").is_err());
}

#[test]
fn parsing_is_deterministic() {
    let tokens = lex(b"-1 * 2 + 3 / 4 ^ 5").unwrap();
    let first = Expression::parse(&tokens, 0).unwrap();
    let second = Expression::parse(&tokens, 0).unwrap();
    assert_eq!(first, second);

    let once = Body::parse(b"output(t) = sin(t * tau) * 0.5").unwrap();
    let twice = Body::parse(b"output(t) = sin(t * tau) * 0.5").unwrap();
    assert_eq!(once.context(), twice.context());
}

#[test]
fn evaluation_is_deterministic() {
    let body = Body::parse(b"output(t) = sin(t * tau) + sum(i, 0, 4, i ^ t)").unwrap();
    let t = 0.3f64.to_bits();
    let first = eval_output(body.context(), t).unwrap();
    let second = eval_output(body.context(), t).unwrap();
    assert_eq!(first, second);
}

#[test]
fn whole_file_with_header() {
    let source = b"TITLE = \"song\"\nDURATION = 2.5\n\noutput(t) = t + pi\n";
    let file = Musath::parse(source).unwrap();
    assert_eq!(file.header().title().unwrap().as_slice(), b"song");
    assert_eq!(f64::from_bits(file.header().duration().unwrap()), 2.5);
    assert_eq!(
        f64::from_bits(file.eval(1.0f64.to_bits()).unwrap()),
        1.0 + std::f64::consts::PI,
    );
}

#[test]
fn header_defaults_are_absent() {
    let file = Musath::parse(b"output(t) = t\n").unwrap();
    assert!(file.header().title().is_none());
    assert!(file.header().duration().is_none());
}

#[test]
fn context_bindings_push_and_pop() {
    let mut context = Context::default();
    let name = b"x".to_vec();
    assert!(context.value(&name).is_none());
    context.push_value(name.clone(), 1.5f64.to_bits());
    assert_eq!(context.value(&name), Some(1.5f64.to_bits()));
    context.push_value(name.clone(), 2.5f64.to_bits());
    assert_eq!(context.value(&name), Some(2.5f64.to_bits()));
    context.pop_value(name.clone());
    assert_eq!(context.value(&name), Some(1.5f64.to_bits()));
    context.pop_value(name.clone());
    assert!(context.value(&name).is_none());
}

#[test]
fn division_by_zero_is_not_an_error() {
    assert_eq!(eval_str("1 / 0"), f64::INFINITY);
    assert_eq!(eval_str("-1 / 0"), f64::NEG_INFINITY);
    assert!(eval_str("0 / 0").is_nan());
}

#[test]
fn invalid_power_propagates_nan() {
    assert!(eval_str("(0 - 2) ^ 0.5").is_nan());
}
