//! The evaluator: a pure tree walk over an expression, consulting the
//! context for identifiers and functions, producing one encoded value.
//!
//! Termination: evaluation carries a recursion-depth budget, spent one
//! unit per user-defined call. The language has no conditional, so a
//! cycle of definitions can never stop on its own (only a fold over an
//! empty range ends a descent); a call chain deeper than the budget
//! reports `RecursionLimit` instead of exhausting the stack.

use vstd::prelude::*;

use crate::context::{
    pushed_stack, spec_value, Context, ContextModel,
};
use crate::expression::{
    binary_bits, expr_view, exprs_view, lemma_exprs_view, primary_view, unary_bits, Expression,
    ExpressionModel, Primary, PrimaryModel,
};
use crate::expression::copy_bytes;
use crate::function::{byte_lists_view, BodyModel, Builtin, Function, FunctionBody};
use crate::context::{
    abs_name, ceil_name, cos_name, floor_name, max_name, min_name, mix_name, prod_name, sin_name,
    sum_name,
};
use crate::context::{
    abs_ident, ceil_ident, cos_ident, floor_ident, max_ident, min_ident, mix_ident, prod_ident,
    sin_ident, sum_ident,
};
use crate::context::{output_ident, output_name};
use crate::num::{
    abs_bits, add_bits, ceil_bits, cos_bits, div_bits, floor_bits, int_bits, max_bits, min_bits,
    mul_bits, round_int_bits, sin_bits, ONE_BITS, ZERO_BITS,
};
use crate::num::{
    abs_exec, add_exec, ceil_exec, cos_exec, div_exec, floor_exec, int_exec, max_exec, min_exec,
    mul_exec, round_int_exec, sin_exec, usize_bits_exec,
};

verus! {

/// Why an evaluation failed.
#[derive(PartialEq, Eq, Debug)]
pub enum EvalError {
    /// A name with no visible value binding.
    UndefinedIdentifier(Vec<u8>),
    /// A call of a name that denotes no function.
    UndefinedFunction(Vec<u8>),
    /// A call with the wrong number of arguments, or a malformed bound
    /// variable in `sum`/`prod`; carries the failing operation's name.
    FunctionCallError(Vec<u8>),
    /// No function named `output` to start from.
    MissingEntryPoint,
    /// The chain of user-defined calls outgrew the evaluation depth
    /// budget.
    RecursionLimit,
}

/// The mathematical image of an evaluation error.
pub enum EvalErrorModel {
    UndefinedIdentifier(Seq<u8>),
    UndefinedFunction(Seq<u8>),
    FunctionCallError(Seq<u8>),
    MissingEntryPoint,
    RecursionLimit,
}

impl View for EvalError {
    type V = EvalErrorModel;

    open spec fn view(&self) -> EvalErrorModel {
        match self {
            EvalError::UndefinedIdentifier(n) => EvalErrorModel::UndefinedIdentifier(n@),
            EvalError::UndefinedFunction(n) => EvalErrorModel::UndefinedFunction(n@),
            EvalError::FunctionCallError(n) => EvalErrorModel::FunctionCallError(n@),
            EvalError::MissingEntryPoint => EvalErrorModel::MissingEntryPoint,
            EvalError::RecursionLimit => EvalErrorModel::RecursionLimit,
        }
    }
}

/// The image of an executable evaluation result.
pub open spec fn eval_result_view(r: Result<u64, EvalError>) -> Result<u64, EvalErrorModel> {
    match r {
        Ok(v) => Ok(v),
        Err(e) => Err(e@),
    }
}

/// The name of a native operation, for its error reports.
pub open spec fn builtin_name(b: Builtin) -> Seq<u8> {
    match b {
        Builtin::Abs => abs_name(),
        Builtin::Min => min_name(),
        Builtin::Max => max_name(),
        Builtin::Sin => sin_name(),
        Builtin::Cos => cos_name(),
        Builtin::Floor => floor_name(),
        Builtin::Ceil => ceil_name(),
        Builtin::Mix => mix_name(),
        Builtin::Sum => sum_name(),
        Builtin::Prod => prod_name(),
    }
}

/// The context with one more binding pushed.
pub open spec fn push_one(m: ContextModel, name: Seq<u8>, value: u64) -> ContextModel {
    ContextModel {
        values: m.values.insert(name, pushed_stack(m.values, name, value)),
        functions: m.functions,
    }
}

/// The context after binding the parameters from `k` on to their
/// argument values, in signature order.
pub open spec fn bind_from(
    m: ContextModel,
    params: Seq<Seq<u8>>,
    vals: Seq<u64>,
    k: int,
) -> ContextModel
    decreases params.len() - k,
{
    if k < 0 || k >= params.len() {
        m
    } else {
        bind_from(push_one(m, params[k], vals[k]), params, vals, k + 1)
    }
}

/// The encoded sum of the values, left to right from `+0.0`, as the
/// running total of `mix` forms it.
pub open spec fn sum_values(vals: Seq<u64>) -> u64
    decreases vals.len(),
{
    if vals.len() == 0 {
        ZERO_BITS
    } else {
        add_bits(sum_values(vals.drop_last()), vals.last())
    }
}

/// What an expression evaluates to, or the first failure, walking the
/// tree left to right.
pub open spec fn spec_eval(e: ExpressionModel, ctx: ContextModel, fuel: nat) -> Result<
    u64,
    EvalErrorModel,
>
    decreases fuel, e, 0int,
{
    match e {
        ExpressionModel::Primary(p) => spec_eval_primary(*p, ctx, fuel),
        ExpressionModel::Unary(op, operand) => match spec_eval(*operand, ctx, fuel) {
            Err(err) => Err(err),
            Ok(v) => Ok(unary_bits(op, v)),
        },
        ExpressionModel::Binary(l, op, r) => match spec_eval(*l, ctx, fuel) {
            Err(err) => Err(err),
            Ok(a) => match spec_eval(*r, ctx, fuel) {
                Err(err) => Err(err),
                Ok(b) => Ok(binary_bits(op, a, b)),
            },
        },
    }
}

/// What a primary evaluates to.
pub open spec fn spec_eval_primary(p: PrimaryModel, ctx: ContextModel, fuel: nat) -> Result<
    u64,
    EvalErrorModel,
>
    decreases fuel, p, 0int,
{
    match p {
        PrimaryModel::Number(bits) => Ok(bits),
        PrimaryModel::Identifier(name) => match spec_value(ctx, name) {
            Some(v) => Ok(v),
            None => Err(EvalErrorModel::UndefinedIdentifier(name)),
        },
        PrimaryModel::Grouping(inner) => spec_eval(*inner, ctx, fuel),
        PrimaryModel::Call(name, args) => spec_call(name, args, ctx, fuel),
    }
}

/// What a call evaluates to: the named function, user-defined bodies
/// with eagerly evaluated arguments bound in a private extension of the
/// caller's context, native bodies by their own rules.
pub open spec fn spec_call(
    name: Seq<u8>,
    args: Seq<ExpressionModel>,
    ctx: ContextModel,
    fuel: nat,
) -> Result<u64, EvalErrorModel>
    decreases fuel, args, args.len() + 2,
{
    if !ctx.functions.contains_key(name) {
        Err(EvalErrorModel::UndefinedFunction(name))
    } else {
        let f = ctx.functions[name];
        match f.body {
            BodyModel::Native(b) => spec_builtin(b, args, ctx, fuel),
            BodyModel::Expression(body) => if args.len() != f.signature.parameters.len() {
                Err(EvalErrorModel::FunctionCallError(name))
            } else {
                match spec_eval_args(args, 0, ctx, fuel, Seq::empty()) {
                    Err(err) => Err(err),
                    Ok(vals) => if fuel == 0 {
                        Err(EvalErrorModel::RecursionLimit)
                    } else {
                        spec_eval(
                            body,
                            bind_from(ctx, f.signature.parameters, vals, 0),
                            (fuel - 1) as nat,
                        )
                    },
                }
            },
        }
    }
}

/// The values of the arguments from `k` on, evaluated left to right in
/// the caller's context, after those already evaluated.
pub open spec fn spec_eval_args(
    args: Seq<ExpressionModel>,
    k: int,
    ctx: ContextModel,
    fuel: nat,
    acc: Seq<u64>,
) -> Result<Seq<u64>, EvalErrorModel>
    decreases fuel, args, args.len() - k,
{
    if k < 0 {
        Ok(acc)
    } else if k >= args.len() {
        Ok(acc)
    } else {
        match spec_eval(args[k], ctx, fuel) {
            Err(err) => Err(err),
            Ok(v) => spec_eval_args(args, k + 1, ctx, fuel, acc.push(v)),
        }
    }
}

/// A successful argument evaluation yields one value per remaining
/// argument, after those already in hand.
pub proof fn lemma_eval_args_len(
    args: Seq<ExpressionModel>,
    k: int,
    ctx: ContextModel,
    fuel: nat,
    acc: Seq<u64>,
)
    ensures
        match spec_eval_args(args, k, ctx, fuel, acc) {
            Ok(vals) => vals.len() == acc.len() + (if 0 <= k <= args.len() {
                args.len() - k
            } else {
                0int
            }),
            Err(_) => true,
        },
    decreases args.len() - k,
{
    if 0 <= k < args.len() {
        match spec_eval(args[k], ctx, fuel) {
            Err(_) => {},
            Ok(v) => {
                lemma_eval_args_len(args, k + 1, ctx, fuel, acc.push(v));
            },
        }
    }
}

/// What a native operation returns on its raw argument expressions.
pub open spec fn spec_builtin(
    b: Builtin,
    args: Seq<ExpressionModel>,
    ctx: ContextModel,
    fuel: nat,
) -> Result<u64, EvalErrorModel>
    decreases fuel, args, args.len() + 1,
{
    match b {
        Builtin::Abs => spec_unary_builtin(b, args, ctx, fuel),
        Builtin::Sin => spec_unary_builtin(b, args, ctx, fuel),
        Builtin::Cos => spec_unary_builtin(b, args, ctx, fuel),
        Builtin::Floor => spec_unary_builtin(b, args, ctx, fuel),
        Builtin::Ceil => spec_unary_builtin(b, args, ctx, fuel),
        Builtin::Min => spec_binary_builtin(b, args, ctx, fuel),
        Builtin::Max => spec_binary_builtin(b, args, ctx, fuel),
        Builtin::Mix => if args.len() < 1 {
            Err(EvalErrorModel::FunctionCallError(mix_name()))
        } else {
            match spec_eval_args(args, 0, ctx, fuel, Seq::empty()) {
                Err(err) => Err(err),
                Ok(vals) => Ok(div_bits(sum_values(vals), int_bits(args.len() as int))),
            }
        },
        Builtin::Sum => spec_fold_builtin(b, args, ctx, fuel),
        Builtin::Prod => spec_fold_builtin(b, args, ctx, fuel),
    }
}

/// A one-argument native operation: the math function over the evaluated
/// argument.
pub open spec fn spec_unary_builtin(
    b: Builtin,
    args: Seq<ExpressionModel>,
    ctx: ContextModel,
    fuel: nat,
) -> Result<u64, EvalErrorModel>
    decreases fuel, args, args.len(),
{
    if args.len() != 1 {
        Err(EvalErrorModel::FunctionCallError(builtin_name(b)))
    } else {
        match spec_eval(args[0], ctx, fuel) {
            Err(err) => Err(err),
            Ok(v) => Ok(
                match b {
                    Builtin::Sin => sin_bits(v),
                    Builtin::Cos => cos_bits(v),
                    Builtin::Floor => floor_bits(v),
                    Builtin::Ceil => ceil_bits(v),
                    _ => abs_bits(v),
                },
            ),
        }
    }
}

/// A two-argument native operation: the comparison over the evaluated
/// arguments.
pub open spec fn spec_binary_builtin(
    b: Builtin,
    args: Seq<ExpressionModel>,
    ctx: ContextModel,
    fuel: nat,
) -> Result<u64, EvalErrorModel>
    decreases fuel, args, args.len(),
{
    if args.len() != 2 {
        Err(EvalErrorModel::FunctionCallError(builtin_name(b)))
    } else {
        match spec_eval(args[0], ctx, fuel) {
            Err(err) => Err(err),
            Ok(a) => match spec_eval(args[1], ctx, fuel) {
                Err(err) => Err(err),
                Ok(c) => Ok(
                    if b == Builtin::Min {
                        min_bits(a, c)
                    } else {
                        max_bits(a, c)
                    },
                ),
            },
        }
    }
}

/// `sum` and `prod`: the first argument must be a bare identifier, the
/// bounds are evaluated in the caller's context and rounded to integers,
/// and the body is folded over the half-open range.
pub open spec fn spec_fold_builtin(
    b: Builtin,
    args: Seq<ExpressionModel>,
    ctx: ContextModel,
    fuel: nat,
) -> Result<u64, EvalErrorModel>
    decreases fuel, args, args.len(),
{
    if args.len() != 4 {
        Err(EvalErrorModel::FunctionCallError(builtin_name(b)))
    } else {
        match args[0] {
            ExpressionModel::Primary(p) => match *p {
                PrimaryModel::Identifier(binder) => match spec_eval(args[1], ctx, fuel) {
                    Err(err) => Err(err),
                    Ok(start_bits) => match spec_eval(args[2], ctx, fuel) {
                        Err(err) => Err(err),
                        Ok(end_bits) => spec_fold_range(
                            b == Builtin::Sum,
                            binder,
                            args[3],
                            ctx,
                            round_int_bits(start_bits),
                            round_int_bits(end_bits),
                            fuel,
                            if b == Builtin::Sum {
                                ZERO_BITS
                            } else {
                                ONE_BITS
                            },
                        ),
                    },
                },
                _ => Err(EvalErrorModel::FunctionCallError(builtin_name(b))),
            },
            _ => Err(EvalErrorModel::FunctionCallError(builtin_name(b))),
        }
    }
}

/// Fold the body over the integers in `[i, end)`: each step evaluates
/// the body with the bound variable pushed onto a private extension of
/// the caller's context, and adds to or multiplies the running value.
pub open spec fn spec_fold_range(
    adding: bool,
    binder: Seq<u8>,
    body: ExpressionModel,
    ctx: ContextModel,
    i: int,
    end: int,
    fuel: nat,
    acc: u64,
) -> Result<u64, EvalErrorModel>
    decreases fuel, body, (if i < end {
        end - i
    } else {
        0int
    }),
{
    if i >= end {
        Ok(acc)
    } else {
        match spec_eval(body, push_one(ctx, binder, int_bits(i)), fuel) {
            Err(err) => Err(err),
            Ok(v) => spec_fold_range(
                adding,
                binder,
                body,
                ctx,
                i + 1,
                end,
                fuel,
                if adding {
                    add_bits(acc, v)
                } else {
                    mul_bits(acc, v)
                },
            ),
        }
    }
}

/// What a function body returns: an expression body is evaluated in the
/// given context (the caller has bound the parameters), a native body
/// runs on the raw argument expressions.
pub open spec fn spec_body_eval(
    b: BodyModel,
    args: Seq<ExpressionModel>,
    ctx: ContextModel,
    fuel: nat,
) -> Result<u64, EvalErrorModel> {
    match b {
        BodyModel::Expression(e) => spec_eval(e, ctx, fuel),
        BodyModel::Native(native) => spec_builtin(native, args, ctx, fuel),
    }
}

/// The image of an executable argument-values result.
pub open spec fn vals_result_view(r: Result<Vec<u64>, EvalError>) -> Result<
    Seq<u64>,
    EvalErrorModel,
> {
    match r {
        Ok(vals) => Ok(vals@),
        Err(e) => Err(e@),
    }
}

/// The name of a native operation as a fresh byte vector.
pub fn builtin_ident(b: Builtin) -> (v: Vec<u8>)
    ensures
        v@ == builtin_name(b),
{
    match b {
        Builtin::Abs => abs_ident(),
        Builtin::Min => min_ident(),
        Builtin::Max => max_ident(),
        Builtin::Sin => sin_ident(),
        Builtin::Cos => cos_ident(),
        Builtin::Floor => floor_ident(),
        Builtin::Ceil => ceil_ident(),
        Builtin::Mix => mix_ident(),
        Builtin::Sum => sum_ident(),
        Builtin::Prod => prod_ident(),
    }
}

/// Evaluate an expression; mirrors `spec_eval`.
pub(crate) fn eval_rec(e: &Expression, context: &Context, fuel: u64) -> (r: Result<u64, EvalError>)
    ensures
        eval_result_view(r) == spec_eval(e@, context@, fuel as nat),
    decreases fuel, e, 0int,
{
    match e {
        Expression::Primary(p) => eval_primary_rec(p, context, fuel),
        Expression::Unary(op, operand) => match eval_rec(operand, context, fuel) {
            Err(err) => Err(err),
            Ok(v) => Ok(op.eval(v)),
        },
        Expression::Binary(l, op, r2) => match eval_rec(l, context, fuel) {
            Err(err) => Err(err),
            Ok(a) => match eval_rec(r2, context, fuel) {
                Err(err) => Err(err),
                Ok(c) => Ok(op.eval(a, c)),
            },
        },
    }
}

/// Evaluate a primary; mirrors `spec_eval_primary`.
pub(crate) fn eval_primary_rec(p: &Primary, context: &Context, fuel: u64) -> (r: Result<
    u64,
    EvalError,
>)
    ensures
        eval_result_view(r) == spec_eval_primary(p@, context@, fuel as nat),
    decreases fuel, p, 1int,
{
    match p {
        Primary::Number(bits) => Ok(*bits),
        Primary::Identifier(name) => match context.value(name) {
            Some(v) => Ok(v),
            None => Err(EvalError::UndefinedIdentifier(copy_bytes(name))),
        },
        Primary::Grouping(inner) => eval_rec(inner, context, fuel),
        Primary::Call(name, args) => eval_call(name, args, context, fuel),
    }
}

/// Evaluate the arguments from `from` on, left to right, after those
/// already evaluated; mirrors `spec_eval_args`.
fn eval_args(
    args: &Vec<Expression>,
    from: usize,
    context: &Context,
    fuel: u64,
    acc: Vec<u64>,
) -> (r: Result<Vec<u64>, EvalError>)
    ensures
        vals_result_view(r) == spec_eval_args(
            exprs_view(args@),
            from as int,
            context@,
            fuel as nat,
            acc@,
        ),
    decreases fuel, args, args@.len() - from,
{
    proof {
        lemma_exprs_view(args@);
    }
    if from >= args.len() {
        return Ok(acc);
    }
    match eval_rec(&args[from], context, fuel) {
        Err(err) => Err(err),
        Ok(v) => {
            let mut grown = acc;
            grown.push(v);
            eval_args(args, from + 1, context, fuel, grown)
        },
    }
}

/// Resolve and perform a call; mirrors `spec_call`.
#[verifier::rlimit(60)]
fn eval_call(name: &Vec<u8>, args: &Vec<Expression>, context: &Context, fuel: u64) -> (r: Result<
    u64,
    EvalError,
>)
    ensures
        eval_result_view(r) == spec_call(name@, exprs_view(args@), context@, fuel as nat),
    decreases fuel, args, args@.len() + 2,
{
    proof {
        lemma_exprs_view(args@);
    }
    let f = match context.function(name) {
        None => {
            return Err(EvalError::UndefinedFunction(copy_bytes(name)));
        },
        Some(f) => f,
    };
    match f.body() {
        FunctionBody::Native(b) => eval_builtin(*b, args, context, fuel),
        FunctionBody::Expression(body) => {
            let params = f.signature().parameters();
            if args.len() != params.len() {
                return Err(EvalError::FunctionCallError(copy_bytes(name)));
            }
            let vals = match eval_args(args, 0, context, fuel, Vec::new()) {
                Err(err) => {
                    return Err(err);
                },
                Ok(v) => v,
            };
            if fuel == 0 {
                return Err(EvalError::RecursionLimit);
            }
            proof {
                lemma_eval_args_len(
                    exprs_view(args@),
                    0,
                    context@,
                    fuel as nat,
                    Seq::<u64>::empty(),
                );
            }
            let ghost pv = byte_lists_view(params@);
            let ghost vv = vals@;
            let mut inner = context.duplicate();
            let mut k: usize = 0;
            #[verifier::loop_isolation(false)]
            while k < params.len()
                invariant
                    k <= params@.len(),
                    vals@.len() == params@.len(),
                    bind_from(context@, pv, vv, 0) == bind_from(inner@, pv, vv, k as int),
                decreases params@.len() - k,
            {
                proof {
                    assert(pv[k as int] == params@[k as int]@);
                }
                let bound = copy_bytes(&params[k]);
                inner.push_value(bound, vals[k]);
                k = k + 1;
            }
            eval_rec(body, &inner, fuel - 1)
        },
    }
}

/// Run a native operation on raw arguments; mirrors `spec_builtin`.
fn eval_builtin(b: Builtin, args: &Vec<Expression>, context: &Context, fuel: u64) -> (r: Result<
    u64,
    EvalError,
>)
    ensures
        eval_result_view(r) == spec_builtin(b, exprs_view(args@), context@, fuel as nat),
    decreases fuel, args, args@.len() + 1,
{
    match b {
        Builtin::Abs => eval_unary_builtin(b, args, context, fuel),
        Builtin::Sin => eval_unary_builtin(b, args, context, fuel),
        Builtin::Cos => eval_unary_builtin(b, args, context, fuel),
        Builtin::Floor => eval_unary_builtin(b, args, context, fuel),
        Builtin::Ceil => eval_unary_builtin(b, args, context, fuel),
        Builtin::Min => eval_binary_builtin(b, args, context, fuel),
        Builtin::Max => eval_binary_builtin(b, args, context, fuel),
        Builtin::Mix => {
            proof {
                lemma_exprs_view(args@);
            }
            if args.len() < 1 {
                return Err(EvalError::FunctionCallError(mix_ident()));
            }
            match eval_args(args, 0, context, fuel, Vec::new()) {
                Err(err) => Err(err),
                Ok(vals) => {
                    let mut acc: u64 = crate::num::ZERO_BITS;
                    let mut k: usize = 0;
                    #[verifier::loop_isolation(false)]
                    while k < vals.len()
                        invariant
                            k <= vals@.len(),
                            acc == sum_values(vals@.take(k as int)),
                        decreases vals@.len() - k,
                    {
                        proof {
                            assert(vals@.take(k as int + 1).drop_last() =~= vals@.take(k as int));
                            assert(vals@.take(k as int + 1).last() == vals@[k as int]);
                        }
                        acc = add_exec(acc, vals[k]);
                        k = k + 1;
                    }
                    proof {
                        assert(vals@.take(vals@.len() as int) =~= vals@);
                    }
                    Ok(div_exec(acc, usize_bits_exec(args.len())))
                },
            }
        },
        Builtin::Sum => eval_fold_builtin(b, args, context, fuel),
        Builtin::Prod => eval_fold_builtin(b, args, context, fuel),
    }
}

/// The one-argument native operations; mirrors `spec_unary_builtin`.
fn eval_unary_builtin(
    b: Builtin,
    args: &Vec<Expression>,
    context: &Context,
    fuel: u64,
) -> (r: Result<u64, EvalError>)
    ensures
        eval_result_view(r) == spec_unary_builtin(b, exprs_view(args@), context@, fuel as nat),
    decreases fuel, args, args@.len(),
{
    proof {
        lemma_exprs_view(args@);
    }
    if args.len() != 1 {
        return Err(EvalError::FunctionCallError(builtin_ident(b)));
    }
    match eval_rec(&args[0], context, fuel) {
        Err(err) => Err(err),
        Ok(v) => Ok(
            match b {
                Builtin::Sin => sin_exec(v),
                Builtin::Cos => cos_exec(v),
                Builtin::Floor => floor_exec(v),
                Builtin::Ceil => ceil_exec(v),
                _ => abs_exec(v),
            },
        ),
    }
}

/// The two-argument native operations; mirrors `spec_binary_builtin`.
fn eval_binary_builtin(
    b: Builtin,
    args: &Vec<Expression>,
    context: &Context,
    fuel: u64,
) -> (r: Result<u64, EvalError>)
    ensures
        eval_result_view(r) == spec_binary_builtin(b, exprs_view(args@), context@, fuel as nat),
    decreases fuel, args, args@.len(),
{
    proof {
        lemma_exprs_view(args@);
    }
    if args.len() != 2 {
        return Err(EvalError::FunctionCallError(builtin_ident(b)));
    }
    match eval_rec(&args[0], context, fuel) {
        Err(err) => Err(err),
        Ok(a) => match eval_rec(&args[1], context, fuel) {
            Err(err) => Err(err),
            Ok(c) => Ok(
                if b == Builtin::Min {
                    min_exec(a, c)
                } else {
                    max_exec(a, c)
                },
            ),
        },
    }
}

/// `sum` and `prod`; mirrors `spec_fold_builtin` and `spec_fold_range`.
#[verifier::rlimit(60)]
fn eval_fold_builtin(
    b: Builtin,
    args: &Vec<Expression>,
    context: &Context,
    fuel: u64,
) -> (r: Result<u64, EvalError>)
    ensures
        eval_result_view(r) == spec_fold_builtin(b, exprs_view(args@), context@, fuel as nat),
    decreases fuel, args, args@.len(),
{
    proof {
        lemma_exprs_view(args@);
    }
    if args.len() != 4 {
        return Err(EvalError::FunctionCallError(builtin_ident(b)));
    }
    let adding = b == Builtin::Sum;
    let a0 = &args[0];
    proof {
        assert(exprs_view(args@)[0] == expr_view(args@[0]));
    }
    let binder: &Vec<u8> = match a0 {
        Expression::Primary(p) => {
            proof {
                assert(expr_view(args@[0]) == ExpressionModel::Primary(
                    Box::new(primary_view(*p)),
                ));
            }
            match p {
                Primary::Identifier(binder) => {
                    proof {
                        assert(primary_view(*p) == PrimaryModel::Identifier(binder@));
                    }
                    binder
                },
                _ => {
                    proof {
                        assert(!(primary_view(*p) is Identifier));
                    }
                    return Err(EvalError::FunctionCallError(builtin_ident(b)));
                },
            }
        },
        _ => {
            proof {
                assert(!(expr_view(args@[0]) is Primary));
            }
            return Err(EvalError::FunctionCallError(builtin_ident(b)));
        },
    };
    let start_bits = match eval_rec(&args[1], context, fuel) {
        Err(err) => {
            return Err(err);
        },
        Ok(v) => v,
    };
    let end_bits = match eval_rec(&args[2], context, fuel) {
        Err(err) => {
            return Err(err);
        },
        Ok(v) => v,
    };
    let start = round_int_exec(start_bits);
    let end = round_int_exec(end_bits);
    let mut acc: u64 = if adding {
        ZERO_BITS
    } else {
        ONE_BITS
    };
    let mut i: i64 = start;
    let ghost bodyv = exprs_view(args@)[3];
    #[verifier::loop_isolation(false)]
    while i < end
        invariant
            spec_fold_range(
                adding,
                binder@,
                bodyv,
                context@,
                i as int,
                end as int,
                fuel as nat,
                acc,
            ) == spec_fold_range(
                adding,
                binder@,
                bodyv,
                context@,
                start as int,
                end as int,
                fuel as nat,
                if adding {
                    ZERO_BITS
                } else {
                    ONE_BITS
                },
            ),
        decreases end - i,
    {
        let mut inner = context.duplicate();
        inner.push_value(copy_bytes(binder), int_exec(i));
        proof {
            assert(inner@ == push_one(context@, binder@, int_bits(i as int)));
        }
        let v = match eval_rec(&args[3], &inner, fuel) {
            Err(err) => {
                return Err(err);
            },
            Ok(v) => v,
        };
        acc = if adding {
            add_exec(acc, v)
        } else {
            crate::num::mul_exec(acc, v)
        };
        i = i + 1;
    }
    Ok(acc)
}

/// How deeply user-defined calls may nest in one evaluation.
pub const CALL_DEPTH_LIMIT: u64 = 1024;

/// The fuel every public evaluation starts with.
pub open spec fn entry_fuel() -> nat {
    CALL_DEPTH_LIMIT as nat
}

/// What evaluating the entry point at `t` yields: the function named
/// `output` with its sole parameter bound to `t` in a private extension
/// of the context.
pub open spec fn spec_eval_output(ctx: ContextModel, t: u64, fuel: nat) -> Result<
    u64,
    EvalErrorModel,
> {
    if !ctx.functions.contains_key(output_name()) {
        Err(EvalErrorModel::MissingEntryPoint)
    } else {
        let f = ctx.functions[output_name()];
        match f.body {
            BodyModel::Expression(body) => if f.signature.parameters.len() != 1 {
                Err(EvalErrorModel::FunctionCallError(output_name()))
            } else {
                spec_eval(body, push_one(ctx, f.signature.parameters[0], t), fuel)
            },
            BodyModel::Native(_) => Err(EvalErrorModel::FunctionCallError(output_name())),
        }
    }
}

/// Evaluate the entry point at time value `t`.
pub fn eval_output(context: &Context, t: u64) -> (r: Result<u64, EvalError>)
    ensures
        eval_result_view(r) == spec_eval_output(context@, t, entry_fuel()),
{
    let fuel = CALL_DEPTH_LIMIT;
    let name = output_ident();
    let f = match context.function(&name) {
        None => {
            return Err(EvalError::MissingEntryPoint);
        },
        Some(f) => f,
    };
    match f.body() {
        FunctionBody::Native(_) => Err(EvalError::FunctionCallError(output_ident())),
        FunctionBody::Expression(body) => {
            let params = f.signature().parameters();
            if params.len() != 1 {
                return Err(EvalError::FunctionCallError(output_ident()));
            }
            proof {
                assert(byte_lists_view(params@)[0] == params@[0]@);
            }
            let mut inner = context.duplicate();
            inner.push_value(copy_bytes(&params[0]), t);
            proof {
                assert(inner@ == push_one(context@, context@.functions[output_name()].signature
                    .parameters[0], t));
            }
            eval_rec(body, &inner, fuel)
        },
    }
}

impl Expression {
    /// Evaluate the tree in a context; never mutates the context.
    pub fn eval(&self, context: &Context) -> (r: Result<u64, EvalError>)
        ensures
            eval_result_view(r) == spec_eval(self@, context@, entry_fuel()),
    {
        eval_rec(self, context, CALL_DEPTH_LIMIT)
    }
}

impl Primary {
    /// Evaluate a primary in a context.
    pub fn eval(&self, context: &Context) -> (r: Result<u64, EvalError>)
        ensures
            eval_result_view(r) == spec_eval_primary(self@, context@, entry_fuel()),
    {
        eval_primary_rec(self, context, CALL_DEPTH_LIMIT)
    }
}

impl FunctionBody {
    /// Run a body on raw arguments: an expression body is evaluated in
    /// the given context (the caller has bound the parameters), a native
    /// body takes the raw expressions.
    pub fn eval(&self, arguments: &Vec<Expression>, context: &Context) -> (r: Result<
        u64,
        EvalError,
    >)
        ensures
            eval_result_view(r) == spec_body_eval(
                self@,
                exprs_view(arguments@),
                context@,
                entry_fuel(),
            ),
    {
        let fuel = CALL_DEPTH_LIMIT;
        match self {
            FunctionBody::Expression(e) => eval_rec(e, context, fuel),
            FunctionBody::Native(b) => eval_builtin(*b, arguments, context, fuel),
        }
    }
}

impl Function {
    /// Run the function's body on raw arguments.
    pub fn eval(&self, arguments: &Vec<Expression>, context: &Context) -> (r: Result<
        u64,
        EvalError,
    >)
        ensures
            eval_result_view(r) == spec_body_eval(
                self@.body,
                exprs_view(arguments@),
                context@,
                entry_fuel(),
            ),
    {
        self.body().eval(arguments, context)
    }
}

/// Evaluation is deterministic and side-effect-free: any two results of
/// the entry point on one table, one time value and one fuel are the
/// same bits; a context is never mutated, since evaluation only reads it.
pub proof fn lemma_output_deterministic(
    ctx: ContextModel,
    t: u64,
    fuel: nat,
    r1: Result<u64, EvalErrorModel>,
    r2: Result<u64, EvalErrorModel>,
)
    requires
        r1 == spec_eval_output(ctx, t, fuel),
        r2 == spec_eval_output(ctx, t, fuel),
    ensures
        r1 == r2,
{
}

/// An unbound identifier or an unknown function name fails with its own
/// named error - never a silent value in its place.
pub proof fn lemma_undefined_names_fail(
    name: Seq<u8>,
    args: Seq<ExpressionModel>,
    ctx: ContextModel,
    fuel: nat,
)
    ensures
        spec_value(ctx, name) is None ==> spec_eval_primary(
            PrimaryModel::Identifier(name),
            ctx,
            fuel,
        ) == Err::<u64, EvalErrorModel>(EvalErrorModel::UndefinedIdentifier(name)),
        !ctx.functions.contains_key(name) ==> spec_call(name, args, ctx, fuel) == Err::<
            u64,
            EvalErrorModel,
        >(EvalErrorModel::UndefinedFunction(name)),
{
}

/// The context with the top binding of a name popped, as a returning
/// call discards it: an unbound name stays as it is.
pub open spec fn pop_one(m: ContextModel, name: Seq<u8>) -> ContextModel {
    if m.values.contains_key(name) {
        ContextModel {
            values: m.values.insert(name, crate::context::popped_stack(m.values, name)),
            functions: m.functions,
        }
    } else {
        m
    }
}

/// Shadowing: a pushed binding is what the name then evaluates to; every
/// other name keeps its value; and once the binding is popped again, the
/// earlier binding of the name - or its absence - is visible as before.
pub proof fn lemma_shadowing(m: ContextModel, name: Seq<u8>, value: u64, other: Seq<u8>)
    ensures
        spec_value(push_one(m, name, value), name) == Some(value),
        other != name ==> spec_value(push_one(m, name, value), other) == spec_value(m, other),
        spec_value(pop_one(push_one(m, name, value), name), name) == spec_value(m, name),
{
    if m.values.contains_key(name) {
        assert(m.values[name].push(value).drop_last() =~= m.values[name]);
    } else {
        assert(seq![value].drop_last() =~= Seq::<u64>::empty());
    }
}

} // verus!
