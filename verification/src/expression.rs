//! The abstract syntax tree of the expression language, its mathematical
//! image, and the evaluation of the operators over the numeric domain.
//!
//! The parsers that build these trees from tokens stand in `parse`.

use vstd::prelude::*;

use crate::num::{add_bits, div_bits, mul_bits, neg_bits, pow_bits, rem_euclid_bits, sub_bits};
use crate::num::{add_exec, div_exec, mul_exec, neg_exec, pow_exec, rem_euclid_exec, sub_exec};
use crate::num::{is_number_literal, lit_bits};
use crate::num::{lit_exec, number_literal_exec};
use crate::token::{ParseError, Token, TokenKind, TokenModel, token_views};

verus! {

broadcast use vstd::seq::axiom_seq_index_decreases, vstd::seq::axiom_seq_subrange_decreases, vstd::std_specs::vec::axiom_vec_index_decreases, vstd::std_specs::vec::axiom_vec_decreases_to_view;

/// Prefix negation.
#[derive(Clone, Copy, PartialEq, Eq, Structural, Debug)]
pub enum UnaryOperator {
    Negate,
}

/// The six infix operators.
#[derive(Clone, Copy, PartialEq, Eq, Structural, Debug)]
pub enum BinaryOperator {
    Add,
    Subtract,
    Multiply,
    Divide,
    Exponentiate,
    Remainder,
}

/// A parsed arithmetic expression: immutable once built; evaluation never
/// changes a tree.
#[derive(PartialEq, Eq, Debug)]
pub enum Expression {
    Primary(Primary),
    Unary(UnaryOperator, Box<Expression>),
    Binary(Box<Expression>, BinaryOperator, Box<Expression>),
}

/// A primary expression: a literal, a name, a call or a parenthesized
/// sub-expression.
#[derive(PartialEq, Eq, Debug)]
pub enum Primary {
    /// A numeric literal, as the encoding of its double value.
    Number(u64),
    /// A variable reference.
    Identifier(Vec<u8>),
    /// A function call with its arguments in source order.
    Call(Vec<u8>, Vec<Expression>),
    /// A parenthesized sub-expression, semantically transparent.
    Grouping(Box<Expression>),
}

/// The mathematical image of an `Expression`.
pub enum ExpressionModel {
    Primary(Box<PrimaryModel>),
    Unary(UnaryOperator, Box<ExpressionModel>),
    Binary(Box<ExpressionModel>, BinaryOperator, Box<ExpressionModel>),
}

/// The mathematical image of a `Primary`.
pub enum PrimaryModel {
    Number(u64),
    Identifier(Seq<u8>),
    Call(Seq<u8>, Seq<ExpressionModel>),
    Grouping(Box<ExpressionModel>),
}

/// The image of an expression tree.
pub open spec fn expr_view(e: Expression) -> ExpressionModel
    decreases e,
{
    match e {
        Expression::Primary(p) => ExpressionModel::Primary(Box::new(primary_view(p))),
        Expression::Unary(op, operand) => ExpressionModel::Unary(
            op,
            Box::new(expr_view(*operand)),
        ),
        Expression::Binary(l, op, r) => ExpressionModel::Binary(
            Box::new(expr_view(*l)),
            op,
            Box::new(expr_view(*r)),
        ),
    }
}

/// The image of a primary expression.
pub open spec fn primary_view(p: Primary) -> PrimaryModel
    decreases p,
{
    match p {
        Primary::Number(bits) => PrimaryModel::Number(bits),
        Primary::Identifier(name) => PrimaryModel::Identifier(name@),
        Primary::Call(name, args) => PrimaryModel::Call(name@, exprs_view(args@)),
        Primary::Grouping(e) => PrimaryModel::Grouping(Box::new(expr_view(*e))),
    }
}

/// The images of a list of argument expressions, in order.
pub open spec fn exprs_view(args: Seq<Expression>) -> Seq<ExpressionModel>
    decreases args,
{
    if args.len() == 0 {
        Seq::empty()
    } else {
        exprs_view(args.drop_last()).push(expr_view(args.last()))
    }
}

/// Each image in the list is the image of the expression at its place.
pub proof fn lemma_exprs_view(args: Seq<Expression>)
    ensures
        exprs_view(args).len() == args.len(),
        forall|i: int| 0 <= i < args.len() ==> exprs_view(args)[i] == expr_view(#[trigger] args[i]),
    decreases args.len(),
{
    if args.len() > 0 {
        lemma_exprs_view(args.drop_last());
        assert forall|i: int| 0 <= i < args.len() implies exprs_view(args)[i] == expr_view(
            #[trigger] args[i],
        ) by {
            if i < args.len() - 1 {
                assert(args.drop_last()[i] == args[i]);
            } else {
                assert(args.last() == args[i]);
            }
        }
    }
}

impl View for Expression {
    type V = ExpressionModel;

    open spec fn view(&self) -> ExpressionModel {
        expr_view(*self)
    }
}

impl View for Primary {
    type V = PrimaryModel;

    open spec fn view(&self) -> PrimaryModel {
        primary_view(*self)
    }
}

/// What prefix negation returns on the encoding.
pub open spec fn unary_bits(op: UnaryOperator, x: u64) -> u64 {
    match op {
        UnaryOperator::Negate => neg_bits(x),
    }
}

/// What each infix operator returns on the encodings.
pub open spec fn binary_bits(op: BinaryOperator, a: u64, b: u64) -> u64 {
    match op {
        BinaryOperator::Add => add_bits(a, b),
        BinaryOperator::Subtract => sub_bits(a, b),
        BinaryOperator::Multiply => mul_bits(a, b),
        BinaryOperator::Divide => div_bits(a, b),
        BinaryOperator::Exponentiate => pow_bits(a, b),
        BinaryOperator::Remainder => rem_euclid_bits(a, b),
    }
}

impl UnaryOperator {
    /// Apply the operator to an evaluated operand.
    pub fn eval(&self, operand: u64) -> (r: u64)
        ensures
            r == unary_bits(*self, operand),
    {
        match self {
            UnaryOperator::Negate => neg_exec(operand),
        }
    }
}

impl BinaryOperator {
    /// Apply the operator to evaluated operands. The remainder is the
    /// Euclidean one, so that periodic signals wrap at zero.
    pub fn eval(&self, left: u64, right: u64) -> (r: u64)
        ensures
            r == binary_bits(*self, left, right),
    {
        match self {
            BinaryOperator::Add => add_exec(left, right),
            BinaryOperator::Subtract => sub_exec(left, right),
            BinaryOperator::Multiply => mul_exec(left, right),
            BinaryOperator::Divide => div_exec(left, right),
            BinaryOperator::Exponentiate => pow_exec(left, right),
            BinaryOperator::Remainder => rem_euclid_exec(left, right),
        }
    }
}

impl Expression {
    /// A structurally identical copy of the tree.
    pub fn duplicate(&self) -> (r: Expression)
        ensures
            r@ == self@,
        decreases self,
    {
        match self {
            Expression::Primary(p) => Expression::Primary(p.duplicate()),
            Expression::Unary(op, e) => Expression::Unary(*op, Box::new(e.duplicate())),
            Expression::Binary(l, op, r) => Expression::Binary(
                Box::new(l.duplicate()),
                *op,
                Box::new(r.duplicate()),
            ),
        }
    }
}


/// The image of an executable argument-list parse result.
pub open spec fn args_result_view(r: Result<(Vec<Expression>, usize), ParseError>) -> Result<
    (Seq<ExpressionModel>, int),
    ParseError,
> {
    match r {
        Ok((list, j)) => Ok((exprs_view(list@), j as int)),
        Err(p) => Err(p),
    }
}

/// Parse the arguments of a call from `pos`, extending those already
/// read; mirrors `parse_args_at` step for step.
fn parse_call_args(tokens: &Vec<Token>, pos: usize, args: Vec<Expression>) -> (r: Result<
    (Vec<Expression>, usize),
    ParseError,
>)
    ensures
        args_result_view(r) == parse_args_at(token_views(tokens@), pos as int, exprs_view(args@)),
    decreases tokens@.len() - pos, 7int,
{
    let ghost ts = token_views(tokens@);
    match Expression::parse(tokens, pos) {
        Err(e) => Err(e),
        Ok((e, j)) => {
            if !(pos < j && j <= tokens.len()) {
                return Err(ParseError::UnexpectedToken { at: pos });
            }
            proof {
                if j < tokens@.len() {
                    lemma_token_view(tokens@, j as int);
                }
                lemma_exprs_view_push(args@, e);
            }
            if j < tokens.len() && tokens[j].kind == TokenKind::Comma {
                let mut grown = args;
                grown.push(e);
                parse_call_args(tokens, j + 1, grown)
            } else if j < tokens.len() && tokens[j].kind == TokenKind::RParen {
                let mut grown = args;
                grown.push(e);
                Ok((grown, j + 1))
            } else if j >= tokens.len() {
                Err(ParseError::UnexpectedEnd)
            } else {
                Err(ParseError::UnexpectedToken { at: j })
            }
        },
    }
}

impl Primary {
    /// A structurally identical copy.
    pub fn duplicate(&self) -> (r: Primary)
        ensures
            r@ == self@,
        decreases self,
    {
        match self {
            Primary::Number(bits) => Primary::Number(*bits),
            Primary::Identifier(name) => Primary::Identifier(copy_bytes(name)),
            Primary::Call(name, args) => Primary::Call(copy_bytes(name), duplicate_exprs(args)),
            Primary::Grouping(e) => Primary::Grouping(Box::new(e.duplicate())),
        }
    }
}

/// A structurally identical copy of an argument list.
pub fn duplicate_exprs(args: &Vec<Expression>) -> (r: Vec<Expression>)
    ensures
        exprs_view(r@) == exprs_view(args@),
    decreases args,
{
    let mut list: Vec<Expression> = Vec::new();
    let mut k: usize = 0;
    while k < args.len()
        invariant
            k <= args.len(),
            list@.len() == k,
            forall|j: int| 0 <= j < k ==> list@[j]@ == args@[j]@,
        decreases args.len() - k,
    {
        list.push(args[k].duplicate());
        k = k + 1;
    }
    proof {
        lemma_exprs_view(list@);
        lemma_exprs_view(args@);
        assert forall|i: int| 0 <= i < args@.len() implies exprs_view(list@)[i] == exprs_view(
            args@,
        )[i] by {
            assert(list@[i]@ == args@[i]@);
        }
        assert(exprs_view(list@) =~= exprs_view(args@));
    }
    list
}


/// The parser levels, lowest binding first: remainder, then addition,
/// then multiplication, then exponentiation, then prefix negation, then
/// primaries. Each level is a unit struct with a `parse` method and a
/// mirror specification `..._at`; parsing a level never stands still, and
/// the bounds checks on every returned position keep the mutual recursion
/// well-founded.
pub struct Remainder;

/// The additive level: `+` and `-`, left-associative.
pub struct Term;

/// The multiplicative level: `*` and `/`, left-associative.
pub struct Factor;

/// The exponentiation level: `^`, right-associative over unary operands.
pub struct Power;

/// The prefix level: any run of `-` before a primary. Negation binds the
/// base of an exponentiation, so `-2^2` is `(-2)^2`.
pub struct Unary;

/// The token kind at `i`, if any.
pub open spec fn tok_at(ts: Seq<TokenModel>, i: int) -> Option<TokenKind> {
    if 0 <= i < ts.len() {
        Some(ts[i].kind)
    } else {
        None
    }
}

/// The error for a token that no production accepts at `i`.
pub open spec fn refuse_at(i: int) -> ParseError {
    ParseError::UnexpectedToken { at: i as usize }
}

/// A full expression is the remainder level.
pub open spec fn parse_expression_at(ts: Seq<TokenModel>, i: int) -> Result<
    (ExpressionModel, int),
    ParseError,
>
    decreases ts.len() - i, 6int,
{
    parse_remainder_at(ts, i)
}

/// The remainder level: a term, then any number of `% term`.
pub open spec fn parse_remainder_at(ts: Seq<TokenModel>, i: int) -> Result<
    (ExpressionModel, int),
    ParseError,
>
    decreases ts.len() - i, 5int,
{
    match parse_term_at(ts, i) {
        Err(e) => Err(e),
        Ok((first, j)) => if i < j <= ts.len() {
            remainder_rest_at(ts, j, first)
        } else {
            Err(refuse_at(i))
        },
    }
}

/// Fold further `% term` steps onto `left`, left-associatively.
pub open spec fn remainder_rest_at(ts: Seq<TokenModel>, i: int, left: ExpressionModel) -> Result<
    (ExpressionModel, int),
    ParseError,
>
    decreases ts.len() - i, 5int,
{
    if tok_at(ts, i) == Some(TokenKind::Percent) {
        match parse_term_at(ts, i + 1) {
            Err(e) => Err(e),
            Ok((next, j)) => if i < j <= ts.len() {
                remainder_rest_at(
                    ts,
                    j,
                    ExpressionModel::Binary(
                        Box::new(left),
                        BinaryOperator::Remainder,
                        Box::new(next),
                    ),
                )
            } else {
                Err(refuse_at(i))
            },
        }
    } else {
        Ok((left, i))
    }
}

/// The additive level: a factor, then any number of `+ factor` or
/// `- factor`.
pub open spec fn parse_term_at(ts: Seq<TokenModel>, i: int) -> Result<
    (ExpressionModel, int),
    ParseError,
>
    decreases ts.len() - i, 4int,
{
    match parse_factor_at(ts, i) {
        Err(e) => Err(e),
        Ok((first, j)) => if i < j <= ts.len() {
            term_rest_at(ts, j, first)
        } else {
            Err(refuse_at(i))
        },
    }
}

/// Fold further `+ factor` and `- factor` steps onto `left`.
pub open spec fn term_rest_at(ts: Seq<TokenModel>, i: int, left: ExpressionModel) -> Result<
    (ExpressionModel, int),
    ParseError,
>
    decreases ts.len() - i, 4int,
{
    if tok_at(ts, i) == Some(TokenKind::Plus) || tok_at(ts, i) == Some(TokenKind::Minus) {
        let op = if tok_at(ts, i) == Some(TokenKind::Plus) {
            BinaryOperator::Add
        } else {
            BinaryOperator::Subtract
        };
        match parse_factor_at(ts, i + 1) {
            Err(e) => Err(e),
            Ok((next, j)) => if i < j <= ts.len() {
                term_rest_at(
                    ts,
                    j,
                    ExpressionModel::Binary(Box::new(left), op, Box::new(next)),
                )
            } else {
                Err(refuse_at(i))
            },
        }
    } else {
        Ok((left, i))
    }
}

/// The multiplicative level: a power, then any number of `* power` or
/// `/ power`.
pub open spec fn parse_factor_at(ts: Seq<TokenModel>, i: int) -> Result<
    (ExpressionModel, int),
    ParseError,
>
    decreases ts.len() - i, 3int,
{
    match parse_power_at(ts, i) {
        Err(e) => Err(e),
        Ok((first, j)) => if i < j <= ts.len() {
            factor_rest_at(ts, j, first)
        } else {
            Err(refuse_at(i))
        },
    }
}

/// Fold further `* power` and `/ power` steps onto `left`.
pub open spec fn factor_rest_at(ts: Seq<TokenModel>, i: int, left: ExpressionModel) -> Result<
    (ExpressionModel, int),
    ParseError,
>
    decreases ts.len() - i, 3int,
{
    if tok_at(ts, i) == Some(TokenKind::Star) || tok_at(ts, i) == Some(TokenKind::Slash) {
        let op = if tok_at(ts, i) == Some(TokenKind::Star) {
            BinaryOperator::Multiply
        } else {
            BinaryOperator::Divide
        };
        match parse_power_at(ts, i + 1) {
            Err(e) => Err(e),
            Ok((next, j)) => if i < j <= ts.len() {
                factor_rest_at(
                    ts,
                    j,
                    ExpressionModel::Binary(Box::new(left), op, Box::new(next)),
                )
            } else {
                Err(refuse_at(i))
            },
        }
    } else {
        Ok((left, i))
    }
}

/// The exponentiation level: a unary operand and, after `^`, a whole
/// power again, which makes `^` right-associative.
pub open spec fn parse_power_at(ts: Seq<TokenModel>, i: int) -> Result<
    (ExpressionModel, int),
    ParseError,
>
    decreases ts.len() - i, 2int,
{
    match parse_unary_at(ts, i) {
        Err(e) => Err(e),
        Ok((base, j)) => if i < j <= ts.len() {
            if tok_at(ts, j) == Some(TokenKind::Caret) {
                match parse_power_at(ts, j + 1) {
                    Err(e) => Err(e),
                    Ok((exponent, j2)) => Ok(
                        (
                            ExpressionModel::Binary(
                                Box::new(base),
                                BinaryOperator::Exponentiate,
                                Box::new(exponent),
                            ),
                            j2,
                        ),
                    ),
                }
            } else {
                Ok((base, j))
            }
        } else {
            Err(refuse_at(i))
        },
    }
}

/// The prefix level: `-` applies to a unary operand, so negation sits on
/// the base of a power, never around a whole power.
pub open spec fn parse_unary_at(ts: Seq<TokenModel>, i: int) -> Result<
    (ExpressionModel, int),
    ParseError,
>
    decreases ts.len() - i, 1int,
{
    if tok_at(ts, i) == Some(TokenKind::Minus) {
        match parse_unary_at(ts, i + 1) {
            Err(e) => Err(e),
            Ok((operand, j)) => Ok(
                (ExpressionModel::Unary(UnaryOperator::Negate, Box::new(operand)), j),
            ),
        }
    } else {
        parse_primary_at(ts, i)
    }
}

/// A primary: a numeric literal, an identifier, a call, or a
/// parenthesized expression.
pub open spec fn parse_primary_at(ts: Seq<TokenModel>, i: int) -> Result<
    (ExpressionModel, int),
    ParseError,
>
    decreases ts.len() - i, 0int,
{
    if !(0 <= i < ts.len()) {
        Err(ParseError::UnexpectedEnd)
    } else {
        let t = ts[i];
        match t.kind {
            TokenKind::Number => if is_number_literal(t.text) {
                Ok(
                    (
                        ExpressionModel::Primary(Box::new(PrimaryModel::Number(lit_bits(t.text)))),
                        i + 1,
                    ),
                )
            } else {
                Err(refuse_at(i))
            },
            TokenKind::Ident => if tok_at(ts, i + 1) == Some(TokenKind::LParen) {
                if tok_at(ts, i + 2) == Some(TokenKind::RParen) {
                    Ok(
                        (
                            ExpressionModel::Primary(
                                Box::new(PrimaryModel::Call(t.text, Seq::empty())),
                            ),
                            i + 3,
                        ),
                    )
                } else {
                    match parse_args_at(ts, i + 2, Seq::empty()) {
                        Err(e) => Err(e),
                        Ok((args, j)) => Ok(
                            (
                                ExpressionModel::Primary(
                                    Box::new(PrimaryModel::Call(t.text, args)),
                                ),
                                j,
                            ),
                        ),
                    }
                }
            } else {
                Ok((ExpressionModel::Primary(Box::new(PrimaryModel::Identifier(t.text))), i + 1))
            },
            TokenKind::LParen => match parse_expression_at(ts, i + 1) {
                Err(e) => Err(e),
                Ok((inner, j)) => if tok_at(ts, j) == Some(TokenKind::RParen) {
                    Ok((ExpressionModel::Primary(Box::new(PrimaryModel::Grouping(Box::new(inner)))), j + 1))
                } else if j >= ts.len() {
                    Err(ParseError::UnexpectedEnd)
                } else {
                    Err(refuse_at(j))
                },
            },
            _ => Err(refuse_at(i)),
        }
    }
}

/// One or more comma-separated arguments, then the closing parenthesis;
/// the returned position stands after it.
pub open spec fn parse_args_at(ts: Seq<TokenModel>, i: int, acc: Seq<ExpressionModel>) -> Result<
    (Seq<ExpressionModel>, int),
    ParseError,
>
    decreases ts.len() - i, 7int,
{
    match parse_expression_at(ts, i) {
        Err(e) => Err(e),
        Ok((e, j)) => if i < j <= ts.len() {
            if tok_at(ts, j) == Some(TokenKind::Comma) {
                parse_args_at(ts, j + 1, acc.push(e))
            } else if tok_at(ts, j) == Some(TokenKind::RParen) {
                Ok((acc.push(e), j + 1))
            } else if j >= ts.len() {
                Err(ParseError::UnexpectedEnd)
            } else {
                Err(refuse_at(j))
            }
        } else {
            Err(refuse_at(i))
        },
    }
}

/// The image of an executable parse result.
pub open spec fn parse_result_view(r: Result<(Expression, usize), ParseError>) -> Result<
    (ExpressionModel, int),
    ParseError,
> {
    match r {
        Ok((e, j)) => Ok((e@, j as int)),
        Err(p) => Err(p),
    }
}


/// The image of a pushed argument list grows by the pushed image.
pub proof fn lemma_exprs_view_push(s: Seq<Expression>, e: Expression)
    ensures
        exprs_view(s.push(e)) == exprs_view(s).push(expr_view(e)),
{
    assert(s.push(e).drop_last() =~= s);
    assert(s.push(e).last() == e);
}

/// The token image at an index is the image of the token there.
pub proof fn lemma_token_view(tokens: Seq<Token>, i: int)
    requires
        0 <= i < tokens.len(),
    ensures
        token_views(tokens).len() == tokens.len(),
        token_views(tokens)[i] == tokens[i]@,
{
}

impl Expression {
    /// Parse a full expression from `pos`; on success the returned
    /// position stands on the first token after it.
    pub fn parse(tokens: &Vec<Token>, pos: usize) -> (r: Result<(Expression, usize), ParseError>)
        ensures
            parse_result_view(r) == parse_expression_at(token_views(tokens@), pos as int),
        decreases tokens@.len() - pos, 6int,
    {
        Remainder::parse(tokens, pos)
    }
}

impl Remainder {
    /// Parse the remainder level from `pos`.
    #[verifier::rlimit(60)]
    pub fn parse(tokens: &Vec<Token>, pos: usize) -> (r: Result<(Expression, usize), ParseError>)
        ensures
            parse_result_view(r) == parse_remainder_at(token_views(tokens@), pos as int),
        decreases tokens@.len() - pos, 5int,
    {
        let ghost ts = token_views(tokens@);
        let (mut left, mut i) = match Term::parse(tokens, pos) {
            Ok(p) => p,
            Err(e) => {
                return Err(e);
            },
        };
        if !(pos < i && i <= tokens.len()) {
            return Err(ParseError::UnexpectedToken { at: pos });
        }
        loop
            invariant
                pos < i <= tokens@.len(),
                ts == token_views(tokens@),
                parse_remainder_at(ts, pos as int) == remainder_rest_at(ts, i as int, left@),
            decreases tokens@.len() - i,
        {
            proof {
                if i < tokens@.len() {
                    lemma_token_view(tokens@, i as int);
                }
            }
            if i < tokens.len() && tokens[i].kind == TokenKind::Percent {
                match Term::parse(tokens, i + 1) {
                    Err(e) => {
                        return Err(e);
                    },
                    Ok((next, j)) => {
                        if !(i < j && j <= tokens.len()) {
                            return Err(ParseError::UnexpectedToken { at: i });
                        }
                        left = Expression::Binary(
                            Box::new(left),
                            BinaryOperator::Remainder,
                            Box::new(next),
                        );
                        i = j;
                    },
                }
            } else {
                return Ok((left, i));
            }
        }
    }
}

impl Term {
    /// Parse the additive level from `pos`.
    #[verifier::rlimit(60)]
    pub fn parse(tokens: &Vec<Token>, pos: usize) -> (r: Result<(Expression, usize), ParseError>)
        ensures
            parse_result_view(r) == parse_term_at(token_views(tokens@), pos as int),
        decreases tokens@.len() - pos, 4int,
    {
        let ghost ts = token_views(tokens@);
        let (mut left, mut i) = match Factor::parse(tokens, pos) {
            Ok(p) => p,
            Err(e) => {
                return Err(e);
            },
        };
        if !(pos < i && i <= tokens.len()) {
            return Err(ParseError::UnexpectedToken { at: pos });
        }
        loop
            invariant
                pos < i <= tokens@.len(),
                ts == token_views(tokens@),
                parse_term_at(ts, pos as int) == term_rest_at(ts, i as int, left@),
            decreases tokens@.len() - i,
        {
            proof {
                if i < tokens@.len() {
                    lemma_token_view(tokens@, i as int);
                }
            }
            if i < tokens.len() && (tokens[i].kind == TokenKind::Plus || tokens[i].kind
                == TokenKind::Minus) {
                let op = if tokens[i].kind == TokenKind::Plus {
                    BinaryOperator::Add
                } else {
                    BinaryOperator::Subtract
                };
                match Factor::parse(tokens, i + 1) {
                    Err(e) => {
                        return Err(e);
                    },
                    Ok((next, j)) => {
                        if !(i < j && j <= tokens.len()) {
                            return Err(ParseError::UnexpectedToken { at: i });
                        }
                        left = Expression::Binary(Box::new(left), op, Box::new(next));
                        i = j;
                    },
                }
            } else {
                return Ok((left, i));
            }
        }
    }
}

impl Factor {
    /// Parse the multiplicative level from `pos`.
    #[verifier::rlimit(60)]
    pub fn parse(tokens: &Vec<Token>, pos: usize) -> (r: Result<(Expression, usize), ParseError>)
        ensures
            parse_result_view(r) == parse_factor_at(token_views(tokens@), pos as int),
        decreases tokens@.len() - pos, 3int,
    {
        let ghost ts = token_views(tokens@);
        let (mut left, mut i) = match Power::parse(tokens, pos) {
            Ok(p) => p,
            Err(e) => {
                return Err(e);
            },
        };
        if !(pos < i && i <= tokens.len()) {
            return Err(ParseError::UnexpectedToken { at: pos });
        }
        loop
            invariant
                pos < i <= tokens@.len(),
                ts == token_views(tokens@),
                parse_factor_at(ts, pos as int) == factor_rest_at(ts, i as int, left@),
            decreases tokens@.len() - i,
        {
            proof {
                if i < tokens@.len() {
                    lemma_token_view(tokens@, i as int);
                }
            }
            if i < tokens.len() && (tokens[i].kind == TokenKind::Star || tokens[i].kind
                == TokenKind::Slash) {
                let op = if tokens[i].kind == TokenKind::Star {
                    BinaryOperator::Multiply
                } else {
                    BinaryOperator::Divide
                };
                match Power::parse(tokens, i + 1) {
                    Err(e) => {
                        return Err(e);
                    },
                    Ok((next, j)) => {
                        if !(i < j && j <= tokens.len()) {
                            return Err(ParseError::UnexpectedToken { at: i });
                        }
                        left = Expression::Binary(Box::new(left), op, Box::new(next));
                        i = j;
                    },
                }
            } else {
                return Ok((left, i));
            }
        }
    }
}

impl Power {
    /// Parse the exponentiation level from `pos`.
    #[verifier::rlimit(60)]
    pub fn parse(tokens: &Vec<Token>, pos: usize) -> (r: Result<(Expression, usize), ParseError>)
        ensures
            parse_result_view(r) == parse_power_at(token_views(tokens@), pos as int),
        decreases tokens@.len() - pos, 2int,
    {
        let ghost ts = token_views(tokens@);
        match Unary::parse(tokens, pos) {
            Err(e) => Err(e),
            Ok((base, j)) => {
                if !(pos < j && j <= tokens.len()) {
                    return Err(ParseError::UnexpectedToken { at: pos });
                }
                proof {
                    if j < tokens@.len() {
                        lemma_token_view(tokens@, j as int);
                    }
                }
                if j < tokens.len() && tokens[j].kind == TokenKind::Caret {
                    match Power::parse(tokens, j + 1) {
                        Err(e) => Err(e),
                        Ok((exponent, j2)) => Ok(
                            (
                                Expression::Binary(
                                    Box::new(base),
                                    BinaryOperator::Exponentiate,
                                    Box::new(exponent),
                                ),
                                j2,
                            ),
                        ),
                    }
                } else {
                    Ok((base, j))
                }
            },
        }
    }
}

impl Unary {
    /// Parse the prefix level from `pos`.
    #[verifier::rlimit(60)]
    pub fn parse(tokens: &Vec<Token>, pos: usize) -> (r: Result<(Expression, usize), ParseError>)
        ensures
            parse_result_view(r) == parse_unary_at(token_views(tokens@), pos as int),
        decreases tokens@.len() - pos, 1int,
    {
        proof {
            if pos < tokens@.len() {
                lemma_token_view(tokens@, pos as int);
            }
        }
        if pos < tokens.len() && tokens[pos].kind == TokenKind::Minus {
            match Unary::parse(tokens, pos + 1) {
                Err(e) => Err(e),
                Ok((operand, j)) => Ok(
                    (Expression::Unary(UnaryOperator::Negate, Box::new(operand)), j),
                ),
            }
        } else {
            Primary::parse(tokens, pos)
        }
    }
}

impl Primary {
    /// Parse a primary from `pos`.
    #[verifier::rlimit(60)]
    pub fn parse(tokens: &Vec<Token>, pos: usize) -> (r: Result<(Expression, usize), ParseError>)
        ensures
            parse_result_view(r) == parse_primary_at(token_views(tokens@), pos as int),
        decreases tokens@.len() - pos, 0int,
    {
        let ghost ts = token_views(tokens@);
        if pos >= tokens.len() {
            return Err(ParseError::UnexpectedEnd);
        }
        proof {
            lemma_token_view(tokens@, pos as int);
        }
        let t = &tokens[pos];
        match t.kind {
            TokenKind::Number => {
                if number_literal_exec(&t.text) {
                    let bits = lit_exec(&t.text);
                    let p = Primary::Number(bits);
                    let ghost pm = primary_view(p);
                    proof {
                        assert(pm == PrimaryModel::Number(bits));
                    }
                    let result = Expression::Primary(p);
                    proof {
                        assert(result@ == ExpressionModel::Primary(Box::new(pm)));
                    }
                    return Ok((result, pos + 1));
                } else {
                    return Err(ParseError::UnexpectedToken { at: pos });
                }
            },
            TokenKind::Ident => {
                let name = copy_bytes(&t.text);
                let ghost nm = name@;
                proof {
                    if pos + 1 < tokens@.len() {
                        lemma_token_view(tokens@, pos as int + 1);
                    }
                }
                if pos + 1 < tokens.len() && tokens[pos + 1].kind == TokenKind::LParen {
                    proof {
                        if pos + 2 < tokens@.len() {
                            lemma_token_view(tokens@, pos as int + 2);
                        }
                        assert(exprs_view(Seq::<Expression>::empty())
                            =~= Seq::<ExpressionModel>::empty());
                    }
                    if pos + 2 < tokens.len() && tokens[pos + 2].kind == TokenKind::RParen {
                        let p = Primary::Call(name, Vec::new());
                        let ghost pm = primary_view(p);
                        proof {
                            assert(pm == PrimaryModel::Call(nm, Seq::<ExpressionModel>::empty()));
                        }
                        let result = Expression::Primary(p);
                        proof {
                            assert(result@ == ExpressionModel::Primary(Box::new(pm)));
                        }
                        return Ok((result, pos + 3));
                    } else {
                        match parse_call_args(tokens, pos + 2, Vec::new()) {
                            Err(e) => {
                                return Err(e);
                            },
                            Ok((args, j)) => {
                                let ghost am = exprs_view(args@);
                                let p = Primary::Call(name, args);
                                let ghost pm = primary_view(p);
                                proof {
                                    assert(pm == PrimaryModel::Call(nm, am));
                                }
                                let result = Expression::Primary(p);
                                proof {
                                    assert(result@ == ExpressionModel::Primary(Box::new(pm)));
                                }
                                return Ok((result, j));
                            },
                        }
                    }
                } else {
                    let p = Primary::Identifier(name);
                    let ghost pm = primary_view(p);
                    proof {
                        assert(pm == PrimaryModel::Identifier(nm));
                    }
                    let result = Expression::Primary(p);
                    proof {
                        assert(result@ == ExpressionModel::Primary(Box::new(pm)));
                    }
                    return Ok((result, pos + 1));
                }
            },
            TokenKind::LParen => {
                match Expression::parse(tokens, pos + 1) {
                    Err(e) => {
                        return Err(e);
                    },
                    Ok((inner, j)) => {
                        proof {
                            if j < tokens@.len() {
                                lemma_token_view(tokens@, j as int);
                            }
                        }
                        if j < tokens.len() && tokens[j].kind == TokenKind::RParen {
                            let ghost im = inner@;
                            let p = Primary::Grouping(Box::new(inner));
                            let ghost pm = primary_view(p);
                            proof {
                                assert(pm == PrimaryModel::Grouping(Box::new(im)));
                            }
                            let result = Expression::Primary(p);
                            proof {
                                assert(result@ == ExpressionModel::Primary(Box::new(pm)));
                            }
                            return Ok((result, j + 1));
                        } else if j >= tokens.len() {
                            return Err(ParseError::UnexpectedEnd);
                        } else {
                            return Err(ParseError::UnexpectedToken { at: j });
                        }
                    },
                }
            },
            _ => {
                return Err(ParseError::UnexpectedToken { at: pos });
            },
        }
    }
}

/// A copy of a byte vector.
pub fn copy_bytes(v: &Vec<u8>) -> (r: Vec<u8>)
    ensures
        r@ == v@,
{
    let mut r: Vec<u8> = Vec::new();
    let mut k: usize = 0;
    while k < v.len()
        invariant
            k <= v.len(),
            r@ == v@.subrange(0, k as int),
        decreases v.len() - k,
    {
        r.push(v[k]);
        k = k + 1;
        proof {
            assert(r@ =~= v@.subrange(0, k as int));
        }
    }
    proof {
        assert(v@.subrange(0, v@.len() as int) =~= v@);
    }
    r
}

/// Equality of byte sequences, used for name lookups.
pub fn bytes_eq(a: &Vec<u8>, b: &Vec<u8>) -> (r: bool)
    ensures
        r == (a@ == b@),
{
    if a.len() != b.len() {
        proof {
            assert(a@ != b@);
        }
        return false;
    }
    let mut k: usize = 0;
    while k < a.len()
        invariant
            k <= a.len(),
            a@.len() == b@.len(),
            forall|j: int| 0 <= j < k ==> a@[j] == b@[j],
        decreases a.len() - k,
    {
        if a[k] != b[k] {
            return false;
        }
        k = k + 1;
    }
    proof {
        assert(a@ =~= b@);
    }
    true
}

} // verus!
