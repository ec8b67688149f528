use musath::context::Context;
use musath::expression::{
    BinaryOperator, Expression, Power, Primary, Remainder, Term, Unary, UnaryOperator,
};
use musath::function::{Function, FunctionBody, FunctionSignature};
use musath::header::{HeaderDeclaration, HeaderValue};
use musath::token::{lex, Token};

fn tokens_of(source: &str) -> Vec<Token> {
    lex(source.as_bytes()).unwrap()
}

fn number(value: f64) -> Expression {
    Expression::Primary(Primary::Number(value.to_bits()))
}

fn identifier(name: &str) -> Expression {
    Expression::Primary(Primary::Identifier(name.as_bytes().to_vec()))
}

fn eval_f64(expression: &Expression) -> f64 {
    f64::from_bits(expression.eval(&Context::default()).unwrap())
}

#[test]
fn test_parse_primary() {
    assert_eq!(
        Primary::parse(&tokens_of("1"), 0).unwrap().0,
        number(1.0),
    );

    assert_eq!(
        Primary::parse(&tokens_of("2.3"), 0).unwrap().0,
        number(2.3),
    );

    assert_eq!(
        Primary::parse(&tokens_of("test"), 0).unwrap().0,
        identifier("test"),
    );

    assert_eq!(
        Primary::parse(&tokens_of("(1)"), 0).unwrap().0,
        Expression::Primary(Primary::Grouping(Box::new(number(1.0)))),
    );

    assert_eq!(
        Primary::parse(&tokens_of("test(1)"), 0).unwrap().0,
        Expression::Primary(Primary::Call(b"test".to_vec(), vec![number(1.0)])),
    );

    assert_eq!(
        Primary::parse(&tokens_of("test( 1 , 2 + 3 )"), 0).unwrap().0,
        Expression::Primary(Primary::Call(
            b"test".to_vec(),
            vec![
                number(1.0),
                Expression::Binary(
                    Box::new(number(2.0)),
                    BinaryOperator::Add,
                    Box::new(number(3.0)),
                ),
            ],
        )),
    );
}

#[test]
fn test_parse_unary() {
    assert_eq!(Unary::parse(&tokens_of("1"), 0).unwrap().0, number(1.0));

    assert_eq!(
        Unary::parse(&tokens_of("-1"), 0).unwrap().0,
        Expression::Unary(UnaryOperator::Negate, Box::new(number(1.0))),
    );

    assert_eq!(
        Unary::parse(&tokens_of("--1"), 0).unwrap().0,
        Expression::Unary(
            UnaryOperator::Negate,
            Box::new(Expression::Unary(UnaryOperator::Negate, Box::new(number(1.0)))),
        ),
    );
}

#[test]
fn test_parse_power() {
    assert_eq!(
        Power::parse(&tokens_of("1^2"), 0).unwrap().0,
        Expression::Binary(
            Box::new(number(1.0)),
            BinaryOperator::Exponentiate,
            Box::new(number(2.0)),
        ),
    );

    assert_eq!(
        Power::parse(&tokens_of("1^2^3"), 0).unwrap().0,
        Expression::Binary(
            Box::new(number(1.0)),
            BinaryOperator::Exponentiate,
            Box::new(Expression::Binary(
                Box::new(number(2.0)),
                BinaryOperator::Exponentiate,
                Box::new(number(3.0)),
            )),
        ),
    );

    assert_eq!(
        Power::parse(&tokens_of("(1^2)^3"), 0).unwrap().0,
        Expression::Binary(
            Box::new(Expression::Primary(Primary::Grouping(Box::new(Expression::Binary(
                Box::new(number(1.0)),
                BinaryOperator::Exponentiate,
                Box::new(number(2.0)),
            ))))),
            BinaryOperator::Exponentiate,
            Box::new(number(3.0)),
        ),
    );
}

#[test]
fn test_parse_term() {
    assert_eq!(
        Term::parse(&tokens_of("1 + 2"), 0).unwrap().0,
        Expression::Binary(Box::new(number(1.0)), BinaryOperator::Add, Box::new(number(2.0))),
    );

    assert_eq!(
        Term::parse(&tokens_of("1 + 2 - 3"), 0).unwrap().0,
        Expression::Binary(
            Box::new(Expression::Binary(
                Box::new(number(1.0)),
                BinaryOperator::Add,
                Box::new(number(2.0)),
            )),
            BinaryOperator::Subtract,
            Box::new(number(3.0)),
        ),
    );

    assert_eq!(
        Term::parse(&tokens_of("1 + -2 - 3"), 0).unwrap().0,
        Expression::Binary(
            Box::new(Expression::Binary(
                Box::new(number(1.0)),
                BinaryOperator::Add,
                Box::new(Expression::Unary(UnaryOperator::Negate, Box::new(number(2.0)))),
            )),
            BinaryOperator::Subtract,
            Box::new(number(3.0)),
        ),
    );
}

#[test]
fn test_parse_remainder() {
    let remainder = Remainder::parse(&tokens_of("1 % 2"), 0).unwrap().0;

    assert_eq!(
        remainder,
        Expression::Binary(
            Box::new(number(1.0)),
            BinaryOperator::Remainder,
            Box::new(number(2.0)),
        ),
    );

    assert_eq!(eval_f64(&remainder), 1.0);

    let remainder = Remainder::parse(&tokens_of("3.5 % 2"), 0).unwrap().0;

    assert_eq!(
        remainder,
        Expression::Binary(
            Box::new(number(3.5)),
            BinaryOperator::Remainder,
            Box::new(number(2.0)),
        ),
    );

    assert_eq!(eval_f64(&remainder), 1.5);
}

#[test]
fn test_parse_expression() {
    assert_eq!(
        Expression::parse(&tokens_of("1 + 2"), 0).unwrap().0,
        Expression::Binary(Box::new(number(1.0)), BinaryOperator::Add, Box::new(number(2.0))),
    );

    assert_eq!(
        Expression::parse(&tokens_of("1 + 2 - 3"), 0).unwrap().0,
        Expression::Binary(
            Box::new(Expression::Binary(
                Box::new(number(1.0)),
                BinaryOperator::Add,
                Box::new(number(2.0)),
            )),
            BinaryOperator::Subtract,
            Box::new(number(3.0)),
        ),
    );

    assert_eq!(
        Expression::parse(&tokens_of("1 * 2 + 3 * 4"), 0).unwrap().0,
        Expression::Binary(
            Box::new(Expression::Binary(
                Box::new(number(1.0)),
                BinaryOperator::Multiply,
                Box::new(number(2.0)),
            )),
            BinaryOperator::Add,
            Box::new(Expression::Binary(
                Box::new(number(3.0)),
                BinaryOperator::Multiply,
                Box::new(number(4.0)),
            )),
        ),
    );

    assert_eq!(
        Expression::parse(&tokens_of("-1 * 2 + 3 / 4"), 0).unwrap().0,
        Expression::Binary(
            Box::new(Expression::Binary(
                Box::new(Expression::Unary(UnaryOperator::Negate, Box::new(number(1.0)))),
                BinaryOperator::Multiply,
                Box::new(number(2.0)),
            )),
            BinaryOperator::Add,
            Box::new(Expression::Binary(
                Box::new(number(3.0)),
                BinaryOperator::Divide,
                Box::new(number(4.0)),
            )),
        ),
    );

    assert_eq!(
        Expression::parse(&tokens_of("2 ^ 3"), 0).unwrap().0,
        Expression::Binary(
            Box::new(number(2.0)),
            BinaryOperator::Exponentiate,
            Box::new(number(3.0)),
        ),
    );

    assert_eq!(
        Expression::parse(&tokens_of("1 + 2 ^ 3"), 0).unwrap().0,
        Expression::Binary(
            Box::new(number(1.0)),
            BinaryOperator::Add,
            Box::new(Expression::Binary(
                Box::new(number(2.0)),
                BinaryOperator::Exponentiate,
                Box::new(number(3.0)),
            )),
        ),
    );

    let expression = Expression::parse(&tokens_of("-1 * 2 + 3 / 4 ^ 5"), 0).unwrap().0;

    assert_eq!(
        expression,
        Expression::Binary(
            Box::new(Expression::Binary(
                Box::new(Expression::Unary(UnaryOperator::Negate, Box::new(number(1.0)))),
                BinaryOperator::Multiply,
                Box::new(number(2.0)),
            )),
            BinaryOperator::Add,
            Box::new(Expression::Binary(
                Box::new(number(3.0)),
                BinaryOperator::Divide,
                Box::new(Expression::Binary(
                    Box::new(number(4.0)),
                    BinaryOperator::Exponentiate,
                    Box::new(number(5.0)),
                )),
            )),
        ),
    );

    assert_eq!(eval_f64(&expression), -2.0 + (3.0 / 1024.0));
}

#[test]
fn test_parse_function_signature() {
    let (signature, _) = FunctionSignature::parse(&tokens_of("test(t)"), 0).unwrap();

    assert_eq!(
        (signature.identifier().as_slice(), signature.parameters().as_slice()),
        (b"test".as_slice(), vec![b"t".to_vec()].as_slice()),
    );
}

#[test]
fn test_parse_function() {
    let (function, _) = Function::parse(&tokens_of("test(t) = t + 1"), 0).unwrap();

    assert_eq!(function.signature().identifier().as_slice(), b"test");
    assert_eq!(function.signature().parameters().as_slice(), vec![b"t".to_vec()].as_slice());
    assert_eq!(
        function.body(),
        &FunctionBody::Expression(Expression::Binary(
            Box::new(identifier("t")),
            BinaryOperator::Add,
            Box::new(number(1.0)),
        )),
    );
}

#[test]
fn test_parse_header_value() {
    assert_eq!(
        HeaderValue::parse(&tokens_of("\"test\""), 0).unwrap().0,
        HeaderValue::String(b"test".to_vec()),
    );

    assert_eq!(
        HeaderValue::parse(&tokens_of("1.0"), 0).unwrap().0,
        HeaderValue::Number(1.0f64.to_bits()),
    );
}

#[test]
fn test_parse_header_declaration() {
    assert_eq!(
        HeaderDeclaration::parse(&tokens_of("TEST = 1.0"), 0).unwrap().0,
        HeaderDeclaration {
            key: b"TEST".to_vec(),
            value: HeaderValue::Number(1.0f64.to_bits()),
        },
    );
}
