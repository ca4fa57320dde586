//! Looking names up, and arithmetic and comparison on evaluated operands.

use crate::decimal::Decimal;
use crate::decimal::DecimalAnswer;
use crate::decimal::DecimalQuery;
use crate::decimal::Ledger;
use crate::decimal::NumericOp;
use crate::env::Env;
use crate::error::result_view;
use crate::error::Error;
use crate::error::ErrorView;
use crate::error::TypeFault;
use crate::integer::Integer;
use crate::semantics::applied;
use crate::semantics::as_decimal;
use crate::semantics::decimals_combined;
use crate::semantics::integers_combined;
use crate::semantics::looked_up;
use crate::semantics::number_answer;
use crate::semantics::operands_combined;
use crate::semantics::reduced;
use crate::semantics::resolved;
use crate::semantics::text_answer;
use crate::semantics::truth_answer;
use crate::semantics::Answers;
use crate::semantics::Scope;
use crate::token::OpView;
use crate::token::Op;
use crate::tree::objects_view;
use crate::tree::ObjectView;
use crate::tree::StutterObject;
use vstd::prelude::*;

verus! {

/// The decimal that the host has given to `query`.
pub fn decimal_number(ledger: &Ledger, query: DecimalQuery) -> (r: Result<Decimal, Error>)
    ensures
        match r {
            Ok(d) => number_answer(query@, ledger@) == Ok::<Decimal, ErrorView>(d),
            Err(e) => number_answer(query@, ledger@) == Err::<Decimal, ErrorView>(e@),
        },
{
    match ledger.answer(&query) {
        None => Err(Error::NeedsDecimal(query)),
        Some(DecimalAnswer::Number(d)) => Ok(*d),
        Some(_) => Err(Error::Arithmetic),
    }
}

/// The truth value that the host has given to `query`.
pub fn decimal_truth(ledger: &Ledger, query: DecimalQuery) -> (r: Result<bool, Error>)
    ensures
        match r {
            Ok(b) => truth_answer(query@, ledger@) == Ok::<bool, ErrorView>(b),
            Err(e) => truth_answer(query@, ledger@) == Err::<bool, ErrorView>(e@),
        },
{
    match ledger.answer(&query) {
        None => Err(Error::NeedsDecimal(query)),
        Some(DecimalAnswer::Truth(b)) => Ok(*b),
        Some(_) => Err(Error::Arithmetic),
    }
}

/// The text that the host has given to `query`.
pub fn decimal_text(ledger: &Ledger, query: DecimalQuery) -> (r: Result<String, Error>)
    ensures
        match r {
            Ok(text) => text_answer(query@, ledger@) == Ok::<Seq<char>, ErrorView>(text@),
            Err(e) => text_answer(query@, ledger@) == Err::<Seq<char>, ErrorView>(e@),
        },
{
    match ledger.answer(&query) {
        None => Err(Error::NeedsDecimal(query)),
        Some(DecimalAnswer::Text(text)) => Ok(text.clone()),
        Some(_) => Err(Error::Arithmetic),
    }
}

/// The decimal nearest to `n`.
pub fn bigint_to_f64(n: &Integer, ledger: &Ledger) -> (r: Result<Decimal, Error>)
    ensures
        match r {
            Ok(d) => as_decimal(n@, ledger@) == Ok::<Decimal, ErrorView>(d),
            Err(e) => as_decimal(n@, ledger@) == Err::<Decimal, ErrorView>(e@),
        },
{
    decimal_number(ledger, DecimalQuery::FromInteger(n.clone()))
}

/// `n` as a `usize`, where it is one.
pub fn bigint_to_usize(n: &Integer) -> (r: Result<usize, Error>)
    ensures
        r is Ok <==> 0 <= n@ <= usize::MAX,
        r matches Ok(v) ==> v == n@,
        r matches Err(e) ==> e@ == ErrorView::Arithmetic,
{
    match n.to_usize() {
        Some(us) => Ok(us),
        None => Err(Error::Arithmetic),
    }
}

/// `n` as an `i64`, where it is one.
pub fn bigint_to_i64(n: &Integer) -> (r: Result<i64, Error>)
    ensures
        r is Ok <==> i64::MIN <= n@ <= i64::MAX,
        r matches Ok(v) ==> v == n@,
        r matches Err(e) ==> e@ == ErrorView::Arithmetic,
{
    match n.to_i64() {
        Some(i) => Ok(i),
        None => Err(Error::Arithmetic),
    }
}

/// `n` as an integer of any size.
pub fn usize_to_bigint(n: usize) -> (r: Result<Integer, Error>)
    ensures
        r matches Ok(i) && i@ == n,
{
    Ok(Integer::from_usize(n))
}

/// `n` as an integer of any size.
pub fn i64_to_bigint(n: i64) -> (r: Result<Integer, Error>)
    ensures
        r matches Ok(i) && i@ == n,
{
    Ok(Integer::from_i64(n))
}

/// What is bound to `variable_name` globally.
pub fn lookup_global_env(variable_name: &String, global_env: &Env) -> (r: Result<
    StutterObject,
    Error,
>)
    ensures
        result_view(r) == looked_up(variable_name@, Map::empty(), global_env@),
{
    match global_env.get(variable_name.as_str()) {
        Some(value) => Ok(value.clone()),
        None => Err(Error::UnboundSymbol(variable_name.clone())),
    }
}

/// The value itself, or what it is bound to where it is a name: locally,
/// or else globally.
pub fn lookup_env(obj: &StutterObject, env: &Env, global_env: &Env) -> (r: Result<
    StutterObject,
    Error,
>)
    ensures
        result_view(r) == resolved(obj@, env@, global_env@),
{
    match obj {
        StutterObject::Id(variable_name) => match env.get(variable_name.as_str()) {
            Some(value) => Ok(value.clone()),
            None => lookup_global_env(variable_name, global_env),
        },
        _ => Ok(obj.clone()),
    }
}

/// What is bound to `name`: locally, or else globally.
pub fn lookup_env_string(name: &String, env: &Env, global_env: &Env) -> (r: Result<
    StutterObject,
    Error,
>)
    ensures
        result_view(r) == looked_up(name@, env@, global_env@),
{
    match env.get(name.as_str()) {
        Some(x) => Ok(x.clone()),
        None => match global_env.get(name.as_str()) {
            Some(y) => Ok(y.clone()),
            None => Err(Error::UnboundSymbol(name.clone())),
        },
    }
}

/// What `op` gives of two decimals, by the host's answer.
pub fn combine_decimals(op: NumericOp, a: Decimal, b: Decimal, ledger: &Ledger) -> (r: Result<
    StutterObject,
    Error,
>)
    ensures
        result_view(r) == decimals_combined(op, a, b, ledger@),
{
    if op.is_comparison() {
        match decimal_truth(ledger, DecimalQuery::Combine(op, a, b)) {
            Ok(truth) => Ok(StutterObject::Bool(truth)),
            Err(e) => Err(e),
        }
    } else {
        match decimal_number(ledger, DecimalQuery::Combine(op, a, b)) {
            Ok(d) => Ok(StutterObject::Dec(d)),
            Err(e) => Err(e),
        }
    }
}

/// What `op` gives of two integers.
pub fn combine_integers(op: NumericOp, a: &Integer, b: &Integer, ledger: &Ledger) -> (r: Result<
    StutterObject,
    Error,
>)
    ensures
        result_view(r) == integers_combined(op, a@, b@, ledger@),
{
    match op {
        NumericOp::Add => Ok(StutterObject::Int(a.add(b))),
        NumericOp::Sub => Ok(StutterObject::Int(a.sub(b))),
        NumericOp::Mul => Ok(StutterObject::Int(a.mul(b))),
        NumericOp::Div => {
            let x = match bigint_to_f64(a, ledger) {
                Ok(x) => x,
                Err(e) => {
                    return Err(e);
                },
            };
            let y = match bigint_to_f64(b, ledger) {
                Ok(y) => y,
                Err(e) => {
                    return Err(e);
                },
            };
            combine_decimals(NumericOp::Div, x, y, ledger)
        },
        NumericOp::Mod => match a.rem(b) {
            Some(n) => Ok(StutterObject::Int(n)),
            None => Err(Error::Arithmetic),
        },
        NumericOp::Pow => match bigint_to_usize(b) {
            Ok(exp) => Ok(StutterObject::Int(a.pow(exp))),
            Err(e) => Err(e),
        },
        NumericOp::Gt => Ok(StutterObject::Bool(b.lt(a))),
        NumericOp::Lt => Ok(StutterObject::Bool(a.lt(b))),
        NumericOp::Eq => Ok(StutterObject::Bool(a.same(b))),
        NumericOp::Gte => Ok(StutterObject::Bool(!a.lt(b))),
        NumericOp::Lte => Ok(StutterObject::Bool(!b.lt(a))),
    }
}

/// What `op` gives of two values that are no names.
pub fn combine_operands(op: &Op, left: StutterObject, right: StutterObject, ledger: &Ledger) -> (r:
    Result<StutterObject, Error>)
    ensures
        result_view(r) == operands_combined(op@, left@, right@, ledger@),
{
    match (left, right) {
        (StutterObject::Int(n1), StutterObject::Int(n2)) => match op.numeric() {
            None => Err(Error::Type(TypeFault::NotArithmetic)),
            Some(n) => combine_integers(n, &n1, &n2, ledger),
        },
        (StutterObject::Dec(f1), StutterObject::Dec(f2)) => match op.numeric() {
            None => Err(Error::Type(TypeFault::NotArithmetic)),
            Some(n) => combine_decimals(n, f1, f2, ledger),
        },
        (StutterObject::Int(n1), StutterObject::Dec(f2)) => match op.numeric() {
            None => Err(Error::Type(TypeFault::NotArithmetic)),
            Some(n) => match bigint_to_f64(&n1, ledger) {
                Err(e) => Err(e),
                Ok(f1) => combine_decimals(n, f1, f2, ledger),
            },
        },
        (StutterObject::Dec(f1), StutterObject::Int(n2)) => match op.numeric() {
            None => Err(Error::Type(TypeFault::NotArithmetic)),
            Some(n) => match bigint_to_f64(&n2, ledger) {
                Err(e) => Err(e),
                Ok(f2) => combine_decimals(n, f1, f2, ledger),
            },
        },
        (left, right) => Err(Error::Operands(op.clone(), left, right)),
    }
}

/// What `op` gives of the accumulated value and the next operand.
pub fn apply_op(
    op: &Op,
    acc: &StutterObject,
    operand: &StutterObject,
    env: &Env,
    global_env: &Env,
    ledger: &Ledger,
) -> (r: Result<StutterObject, Error>)
    ensures
        result_view(r) == applied(op@, acc@, operand@, env@, global_env@, ledger@),
{
    let resolved_operand = match lookup_env(operand, env, global_env) {
        Ok(value) => value,
        Err(e) => {
            return Err(e);
        },
    };
    let resolved_acc = match lookup_env(acc, env, global_env) {
        Ok(value) => value,
        Err(e) => {
            return Err(e);
        },
    };
    combine_operands(op, resolved_acc, resolved_operand, ledger)
}

/// Once the fold of the first operands has failed, the fold of all of
/// them fails in the same way.
proof fn lemma_reduced_fails(
    op: OpView,
    list: Seq<ObjectView>,
    count: int,
    env: Scope,
    globals: Scope,
    answers: Answers,
)
    requires
        0 < count <= list.len(),
        reduced(op, list.take(count), env, globals, answers) is Err,
    ensures
        reduced(op, list, env, globals, answers) == reduced(
            op,
            list.take(count),
            env,
            globals,
            answers,
        ),
    decreases list.len(),
{
    if count == list.len() {
        assert(list.take(count) == list);
    } else {
        assert(list.drop_last().take(count) == list.take(count));
        lemma_reduced_fails(op, list.drop_last(), count, env, globals, answers);
    }
}

/// The operands folded from the left by `op`.
pub fn reduce(op: &Op, list: &Vec<StutterObject>, env: &Env, global_env: &Env, ledger: &Ledger) -> (r:
    Result<StutterObject, Error>)
    ensures
        result_view(r) == reduced(op@, objects_view(list@), env@, global_env@, ledger@),
{
    if list.len() == 0 {
        return Err(Error::Type(TypeFault::MissingOperand));
    }
    let ghost all = objects_view(list@);
    let mut acc = list[0].clone();
    let mut i: usize = 1;
    assert(all.take(1).len() == 1);
    while i < list.len()
        invariant
            1 <= i <= list.len(),
            all == objects_view(list@),
            reduced(op@, all.take(i as int), env@, global_env@, ledger@) == Ok::<
                ObjectView,
                ErrorView,
            >(acc@),
        decreases list.len() - i,
    {
        proof {
            assert(all.take(i + 1).drop_last() == all.take(i as int));
            assert(all.take(i + 1).last() == list[i as int]@);
        }
        match apply_op(op, &acc, &list[i], env, global_env, ledger) {
            Ok(next) => {
                acc = next;
            },
            Err(e) => {
                proof {
                    lemma_reduced_fails(op@, all, i + 1, env@, global_env@, ledger@);
                }
                return Err(e);
            },
        }
        i += 1;
    }
    assert(all.take(i as int) == all);
    Ok(acc)
}

} // verus!
