//! What evaluation gives, stated over mathematical values.
//!
//! A scope is a map from names to values. Evaluation reads the local
//! scope and the global one, may add to the global one, and reads the
//! host's answers on decimals. It is cut off at a depth of nesting, so
//! that it is defined for every form.

use crate::decimal::Decimal;
use crate::decimal::DecimalAnswerView;
use crate::decimal::DecimalQueryView;
use crate::decimal::NumericOp;
use crate::error::ErrorView;
use crate::error::SyntaxFault;
use crate::error::TypeFault;
use crate::integer::truncated_rem;
use crate::token::numeric_of;
use crate::token::OpView;
use crate::token::TokenView;
use crate::tree::ObjectView;
use crate::tree::TreeView;
use vstd::prelude::*;

verus! {

/// The bindings of names to values.
pub type Scope = Map<Seq<char>, ObjectView>;

/// The host's answers.
pub type Answers = Map<DecimalQueryView, DecimalAnswerView>;

/// What a step of evaluation gives, and the global definitions after it.
pub struct Step<T> {
    pub result: Result<T, ErrorView>,
    pub globals: Scope,
}

/// A step that fails and leaves the global definitions as they are.
pub open spec fn failed<T>(error: ErrorView, globals: Scope) -> Step<T> {
    Step { result: Err(error), globals }
}

/// The word that heads a function literal.
pub open spec fn lambda_word() -> Seq<char> {
    "lambda"@
}

/// The value that a token stands for by itself.
pub open spec fn atom(token: TokenView) -> Result<ObjectView, ErrorView> {
    match token {
        TokenView::Id(name) => Ok(ObjectView::Id(name)),
        TokenView::Int(n) => Ok(ObjectView::Int(n)),
        TokenView::Dec(d) => Ok(ObjectView::Dec(d)),
        TokenView::Bool(b) => Ok(ObjectView::Bool(b)),
        _ => Err(ErrorView::Syntax(SyntaxFault::NotAnAtom)),
    }
}

/// What a name is bound to: locally, or else globally.
pub open spec fn looked_up(name: Seq<char>, env: Scope, globals: Scope) -> Result<
    ObjectView,
    ErrorView,
> {
    if env.contains_key(name) {
        Ok(env[name])
    } else if globals.contains_key(name) {
        Ok(globals[name])
    } else {
        Err(ErrorView::UnboundSymbol(name))
    }
}

/// The value itself, or what it is bound to where it is a name.
pub open spec fn resolved(object: ObjectView, env: Scope, globals: Scope) -> Result<
    ObjectView,
    ErrorView,
> {
    match object {
        ObjectView::Id(name) => looked_up(name, env, globals),
        _ => Ok(object),
    }
}

/// The decimal that answers the question.
pub open spec fn number_answer(query: DecimalQueryView, answers: Answers) -> Result<
    Decimal,
    ErrorView,
> {
    if !answers.contains_key(query) {
        Err(ErrorView::NeedsDecimal(query))
    } else {
        match answers[query] {
            DecimalAnswerView::Number(d) => Ok(d),
            _ => Err(ErrorView::Arithmetic),
        }
    }
}

/// The truth value that answers the question.
pub open spec fn truth_answer(query: DecimalQueryView, answers: Answers) -> Result<
    bool,
    ErrorView,
> {
    if !answers.contains_key(query) {
        Err(ErrorView::NeedsDecimal(query))
    } else {
        match answers[query] {
            DecimalAnswerView::Truth(b) => Ok(b),
            _ => Err(ErrorView::Arithmetic),
        }
    }
}

/// The text that answers the question.
pub open spec fn text_answer(query: DecimalQueryView, answers: Answers) -> Result<
    Seq<char>,
    ErrorView,
> {
    if !answers.contains_key(query) {
        Err(ErrorView::NeedsDecimal(query))
    } else {
        match answers[query] {
            DecimalAnswerView::Text(text) => Ok(text),
            _ => Err(ErrorView::Arithmetic),
        }
    }
}

/// The decimal nearest to an integer.
pub open spec fn as_decimal(n: int, answers: Answers) -> Result<Decimal, ErrorView> {
    number_answer(DecimalQueryView::FromInteger(n), answers)
}

/// What an operator gives of two decimals.
pub open spec fn decimals_combined(
    op: NumericOp,
    a: Decimal,
    b: Decimal,
    answers: Answers,
) -> Result<ObjectView, ErrorView> {
    let query = DecimalQueryView::Combine(op, a, b);
    if op.compares() {
        match truth_answer(query, answers) {
            Ok(truth) => Ok(ObjectView::Bool(truth)),
            Err(e) => Err(e),
        }
    } else {
        match number_answer(query, answers) {
            Ok(d) => Ok(ObjectView::Dec(d)),
            Err(e) => Err(e),
        }
    }
}

/// What an operator gives of two integers. Division gives a decimal.
pub open spec fn integers_combined(op: NumericOp, a: int, b: int, answers: Answers) -> Result<
    ObjectView,
    ErrorView,
> {
    match op {
        NumericOp::Add => Ok(ObjectView::Int(a + b)),
        NumericOp::Sub => Ok(ObjectView::Int(a - b)),
        NumericOp::Mul => Ok(ObjectView::Int(a * b)),
        NumericOp::Div => match as_decimal(a, answers) {
            Err(e) => Err(e),
            Ok(x) => match as_decimal(b, answers) {
                Err(e) => Err(e),
                Ok(y) => decimals_combined(NumericOp::Div, x, y, answers),
            },
        },
        NumericOp::Mod => if b == 0 {
            Err(ErrorView::Arithmetic)
        } else {
            Ok(ObjectView::Int(truncated_rem(a, b)))
        },
        NumericOp::Pow => if 0 <= b <= usize::MAX {
            Ok(ObjectView::Int(vstd::arithmetic::power::pow(a, b as nat)))
        } else {
            Err(ErrorView::Arithmetic)
        },
        NumericOp::Gt => Ok(ObjectView::Bool(a > b)),
        NumericOp::Lt => Ok(ObjectView::Bool(a < b)),
        NumericOp::Eq => Ok(ObjectView::Bool(a == b)),
        NumericOp::Gte => Ok(ObjectView::Bool(a >= b)),
        NumericOp::Lte => Ok(ObjectView::Bool(a <= b)),
    }
}

/// What an operator gives of two values: an integer with a decimal is
/// taken as a decimal.
pub open spec fn operands_combined(
    op: OpView,
    left: ObjectView,
    right: ObjectView,
    answers: Answers,
) -> Result<ObjectView, ErrorView> {
    match (left, right) {
        (ObjectView::Int(a), ObjectView::Int(b)) => match numeric_of(op) {
            None => Err(ErrorView::Type(TypeFault::NotArithmetic)),
            Some(n) => integers_combined(n, a, b, answers),
        },
        (ObjectView::Dec(a), ObjectView::Dec(b)) => match numeric_of(op) {
            None => Err(ErrorView::Type(TypeFault::NotArithmetic)),
            Some(n) => decimals_combined(n, a, b, answers),
        },
        (ObjectView::Int(a), ObjectView::Dec(b)) => match numeric_of(op) {
            None => Err(ErrorView::Type(TypeFault::NotArithmetic)),
            Some(n) => match as_decimal(a, answers) {
                Err(e) => Err(e),
                Ok(x) => decimals_combined(n, x, b, answers),
            },
        },
        (ObjectView::Dec(a), ObjectView::Int(b)) => match numeric_of(op) {
            None => Err(ErrorView::Type(TypeFault::NotArithmetic)),
            Some(n) => match as_decimal(b, answers) {
                Err(e) => Err(e),
                Ok(y) => decimals_combined(n, a, y, answers),
            },
        },
        _ => Err(ErrorView::Operands(op, left, right)),
    }
}

/// What an operator gives of an accumulated value and the next operand,
/// each looked up where it is a name: the operand first.
pub open spec fn applied(
    op: OpView,
    acc: ObjectView,
    operand: ObjectView,
    env: Scope,
    globals: Scope,
    answers: Answers,
) -> Result<ObjectView, ErrorView> {
    match resolved(operand, env, globals) {
        Err(e) => Err(e),
        Ok(right) => match resolved(acc, env, globals) {
            Err(e) => Err(e),
            Ok(left) => operands_combined(op, left, right, answers),
        },
    }
}

/// The operands folded from the left by the operator. One operand alone
/// is given back as it is.
pub open spec fn reduced(
    op: OpView,
    list: Seq<ObjectView>,
    env: Scope,
    globals: Scope,
    answers: Answers,
) -> Result<ObjectView, ErrorView>
    decreases list.len(),
{
    if list.len() == 0 {
        Err(ErrorView::Type(TypeFault::MissingOperand))
    } else if list.len() == 1 {
        Ok(list[0])
    } else {
        match reduced(op, list.drop_last(), env, globals, answers) {
            Err(e) => Err(e),
            Ok(acc) => applied(op, acc, list.last(), env, globals, answers),
        }
    }
}

/// `index`: the item of the list at the offset.
pub open spec fn item_at(operands: Seq<ObjectView>) -> Result<ObjectView, ErrorView> {
    if operands.len() < 2 {
        Err(ErrorView::Type(TypeFault::MissingOperand))
    } else {
        match (operands[0], operands[1]) {
            (ObjectView::Int(n), ObjectView::List(items)) => if !(0 <= n <= usize::MAX) {
                Err(ErrorView::Arithmetic)
            } else if n >= items.len() {
                Err(ErrorView::Index)
            } else {
                Ok(items[n])
            },
            _ => Err(ErrorView::Type(TypeFault::IndexForm)),
        }
    }
}

/// `take`: the first items of the list, as many as the number says.
pub open spec fn taken(operands: Seq<ObjectView>) -> Result<ObjectView, ErrorView> {
    if operands.len() < 2 {
        Err(ErrorView::Type(TypeFault::MissingOperand))
    } else {
        match (operands[0], operands[1]) {
            (ObjectView::Int(n), ObjectView::List(items)) => if !(0 <= n <= usize::MAX) {
                Err(ErrorView::Arithmetic)
            } else if n > items.len() {
                Err(ErrorView::Index)
            } else {
                Ok(ObjectView::List(items.take(n)))
            },
            _ => Err(ErrorView::Type(TypeFault::TakeForm)),
        }
    }
}

/// `drop`: the items of the list from the offset on, and no items where the
/// offset is zero or less.
pub open spec fn dropped(operands: Seq<ObjectView>) -> Result<ObjectView, ErrorView> {
    if operands.len() < 2 {
        Err(ErrorView::Type(TypeFault::MissingOperand))
    } else {
        match (operands[0], operands[1]) {
            (ObjectView::Int(n), ObjectView::List(items)) => if n <= 0 {
                Ok(ObjectView::List(Seq::empty()))
            } else if n > usize::MAX {
                Err(ErrorView::Arithmetic)
            } else if n > items.len() {
                Err(ErrorView::Index)
            } else {
                Ok(ObjectView::List(items.skip(n)))
            },
            _ => Err(ErrorView::Type(TypeFault::DropForm)),
        }
    }
}

/// `append`: the list with the value added at its end.
pub open spec fn appended(operands: Seq<ObjectView>) -> Result<ObjectView, ErrorView> {
    if operands.len() < 2 {
        Err(ErrorView::Type(TypeFault::MissingOperand))
    } else {
        match operands[1] {
            ObjectView::List(items) => Ok(ObjectView::List(items.push(operands[0]))),
            _ => Err(ErrorView::Type(TypeFault::AppendForm)),
        }
    }
}

/// `range`: the integers from the lower bound up to, not including, the
/// upper one; none where the lower is not the smaller.
pub open spec fn ranged(operands: Seq<ObjectView>) -> Result<ObjectView, ErrorView> {
    if operands.len() < 2 {
        Err(ErrorView::Type(TypeFault::MissingOperand))
    } else {
        match (operands[0], operands[1]) {
            (ObjectView::Int(lower), ObjectView::Int(upper)) => if lower >= upper {
                Ok(ObjectView::List(Seq::empty()))
            } else if upper - lower > usize::MAX {
                Err(ErrorView::Arithmetic)
            } else if !(i64::MIN <= lower <= i64::MAX) || !(i64::MIN <= upper <= i64::MAX) {
                Err(ErrorView::Arithmetic)
            } else {
                Ok(
                    ObjectView::List(
                        Seq::new((upper - lower) as nat, |k: int| ObjectView::Int(lower + k)),
                    ),
                )
            },
            _ => Err(ErrorView::Type(TypeFault::RangeForm)),
        }
    }
}

/// The items of the lists, one list after the other; none where a value
/// is no list.
pub open spec fn joined(operands: Seq<ObjectView>) -> Option<Seq<ObjectView>>
    decreases operands.len(),
{
    if operands.len() == 0 {
        Some(Seq::empty())
    } else {
        match (joined(operands.drop_last()), operands.last()) {
            (Some(items), ObjectView::List(more)) => Some(items + more),
            _ => None,
        }
    }
}

/// `cat`: the lists joined in order.
pub open spec fn concatenated(operands: Seq<ObjectView>) -> Result<ObjectView, ErrorView> {
    match joined(operands) {
        Some(items) => Ok(ObjectView::List(items)),
        None => Err(ErrorView::Type(TypeFault::CatForm)),
    }
}

/// `len`: the number of items of the list.
pub open spec fn length_of(operands: Seq<ObjectView>) -> Result<ObjectView, ErrorView> {
    if operands.len() < 1 {
        Err(ErrorView::Type(TypeFault::MissingOperand))
    } else {
        match operands[0] {
            ObjectView::List(items) => Ok(ObjectView::Int(items.len() as int)),
            _ => Err(ErrorView::Type(TypeFault::LenForm)),
        }
    }
}

/// What an operator that evaluates all its operands gives of their
/// values.
pub open spec fn operated(
    op: OpView,
    operands: Seq<ObjectView>,
    env: Scope,
    globals: Scope,
    answers: Answers,
) -> Result<ObjectView, ErrorView> {
    match op {
        OpView::List => Ok(ObjectView::List(operands)),
        OpView::Index => item_at(operands),
        OpView::Take => taken(operands),
        OpView::Drop => dropped(operands),
        OpView::Append => appended(operands),
        OpView::Range => ranged(operands),
        OpView::Cat => concatenated(operands),
        OpView::Len => length_of(operands),
        _ => reduced(op, operands, env, globals, answers),
    }
}

/// The name that a tree is, where it is one.
pub open spec fn name_of_leaf(tree: TreeView) -> Option<Seq<char>> {
    match tree {
        TreeView::Leaf(TokenView::Id(name)) => Some(name),
        _ => None,
    }
}

/// The names of a parameter list `(first rest...)`: the name in the place
/// of the operator, then the others.
pub open spec fn parameter_names(tree: TreeView) -> Result<Seq<Seq<char>>, ErrorView> {
    match tree {
        TreeView::Branch(OpView::Func(first), rest) => if forall|i: int|
            0 <= i < rest.len() ==> (#[trigger] name_of_leaf(rest[i])) is Some {
            Ok(seq![first] + Seq::new(rest.len(), |i: int| name_of_leaf(rest[i])->0))
        } else {
            Err(ErrorView::Syntax(SyntaxFault::MalformedParameters))
        },
        _ => Err(ErrorView::Syntax(SyntaxFault::MalformedParameters)),
    }
}

/// The function that `(lambda params body)` is written for. Nothing is
/// evaluated, and no scope is kept.
pub open spec fn lambda_literal(children: Seq<TreeView>) -> Result<ObjectView, ErrorView> {
    if children.len() < 2 {
        Err(ErrorView::Syntax(SyntaxFault::LambdaForm))
    } else {
        match parameter_names(children[0]) {
            Err(e) => Err(e),
            Ok(names) => Ok(ObjectView::Lambda(names, children[1])),
        }
    }
}

/// What a tree evaluates to. With `fully` calls are made; without it only
/// literals and function literals have a value.
pub open spec fn evaluated(
    tree: TreeView,
    env: Scope,
    globals: Scope,
    fully: bool,
    answers: Answers,
    depth: nat,
) -> Step<ObjectView>
    decreases depth, 0nat, 0nat,
{
    if depth == 0 {
        failed(ErrorView::ResourceExhausted, globals)
    } else {
        match tree {
            TreeView::Leaf(token) => Step {
                result: match atom(token) {
                    Err(e) => Err(e),
                    Ok(object) => resolved(object, env, globals),
                },
                globals,
            },
            TreeView::Branch(op, children) => if op == OpView::Func(lambda_word()) {
                Step { result: lambda_literal(children), globals }
            } else if fully {
                branch_evaluated(op, children, env, globals, answers, (depth - 1) as nat)
            } else if op is Func {
                failed(ErrorView::Syntax(SyntaxFault::BareCall), globals)
            } else {
                failed(ErrorView::Syntax(SyntaxFault::NotQuotable), globals)
            },
        }
    }
}

/// The values of the trees, each evaluated in turn under the same local
/// scope.
pub open spec fn all_evaluated(
    trees: Seq<TreeView>,
    env: Scope,
    globals: Scope,
    answers: Answers,
    depth: nat,
) -> Step<Seq<ObjectView>>
    decreases depth, 1nat, trees.len(),
{
    if trees.len() == 0 {
        Step { result: Ok(Seq::empty()), globals }
    } else {
        let before = all_evaluated(trees.drop_last(), env, globals, answers, depth);
        match before.result {
            Err(e) => failed(e, before.globals),
            Ok(values) => {
                let last = evaluated(trees.last(), env, before.globals, true, answers, depth);
                match last.result {
                    Err(e) => failed(e, last.globals),
                    Ok(value) => Step { result: Ok(values.push(value)), globals: last.globals },
                }
            },
        }
    }
}

/// The scope `env` with the first `count` parameters bound to the values
/// of the first `count` arguments. The arguments are evaluated under
/// `env`, the scope of the call.
pub open spec fn arguments_bound(
    params: Seq<Seq<char>>,
    args: Seq<TreeView>,
    count: nat,
    env: Scope,
    globals: Scope,
    answers: Answers,
    depth: nat,
) -> Step<Scope>
    decreases depth, 1nat, count,
{
    if count == 0 {
        Step { result: Ok(env), globals }
    } else {
        let before = arguments_bound(
            params,
            args,
            (count - 1) as nat,
            env,
            globals,
            answers,
            depth,
        );
        match before.result {
            Err(e) => failed(e, before.globals),
            Ok(scope) => {
                let last = evaluated(args[count - 1], env, before.globals, true, answers, depth);
                match last.result {
                    Err(e) => failed(e, last.globals),
                    Ok(value) => Step {
                        result: Ok(scope.insert(params[count - 1], value)),
                        globals: last.globals,
                    },
                }
            },
        }
    }
}

/// A call by name. A function is applied to as many arguments as it has
/// parameters for, its body evaluated under the scope of the call with
/// the parameters bound; any other value is given back as it is.
pub open spec fn call_evaluated(
    name: Seq<char>,
    args: Seq<TreeView>,
    env: Scope,
    globals: Scope,
    answers: Answers,
    depth: nat,
) -> Step<ObjectView>
    decreases depth, 4nat, 0nat,
{
    match looked_up(name, env, globals) {
        Err(e) => failed(e, globals),
        Ok(ObjectView::Lambda(params, body)) => {
            let count = if params.len() <= args.len() {
                params.len()
            } else {
                args.len()
            };
            let bound = arguments_bound(params, args, count, env, globals, answers, depth);
            match bound.result {
                Err(e) => failed(e, bound.globals),
                Ok(scope) => evaluated(body, scope, bound.globals, true, answers, depth),
            }
        },
        Ok(other) => Step { result: Ok(other), globals },
    }
}

/// A name with the value of a function literal or of a single token.
pub open spec fn lambda_bound(
    name: Seq<char>,
    value: TreeView,
    env: Scope,
    globals: Scope,
    answers: Answers,
    depth: nat,
) -> Step<(Seq<char>, ObjectView)>
    decreases depth, 1nat, 0nat,
{
    match value {
        TreeView::Branch(OpView::Func(word), parts) => if word == lambda_word() {
            match lambda_literal(parts) {
                Err(e) => failed(e, globals),
                Ok(function) => Step { result: Ok((name, function)), globals },
            }
        } else {
            failed(ErrorView::Syntax(SyntaxFault::ExpectingLambda), globals)
        },
        TreeView::Branch(_, _) => failed(ErrorView::Syntax(SyntaxFault::ExpectingLambda), globals),
        TreeView::Leaf(_) => {
            let step = evaluated(value, env, globals, true, answers, depth);
            match step.result {
                Err(e) => failed(e, step.globals),
                Ok(object) => Step { result: Ok((name, object)), globals: step.globals },
            }
        },
    }
}

/// The name and the value that a clause `(name expression)` of `let`
/// binds.
pub open spec fn clause_bound(
    clause: TreeView,
    env: Scope,
    globals: Scope,
    answers: Answers,
    depth: nat,
) -> Step<(Seq<char>, ObjectView)>
    decreases depth, 2nat, 0nat,
{
    match clause {
        TreeView::Branch(OpView::Func(name), values) => if values.len() != 1 {
            failed(ErrorView::Syntax(SyntaxFault::LetClause), globals)
        } else {
            match values[0] {
                TreeView::Branch(OpView::List, items) => {
                    let step = all_evaluated(items, env, globals, answers, depth);
                    match step.result {
                        Err(e) => failed(e, step.globals),
                        Ok(objects) => Step {
                            result: Ok((name, ObjectView::List(objects))),
                            globals: step.globals,
                        },
                    }
                },
                TreeView::Branch(_, _) => {
                    let step = evaluated(values[0], env, globals, true, answers, depth);
                    match step.result {
                        Err(e) => failed(e, step.globals),
                        Ok(object) => Step { result: Ok((name, object)), globals: step.globals },
                    }
                },
                TreeView::Leaf(_) => lambda_bound(name, values[0], env, globals, answers, depth),
            }
        },
        _ => failed(ErrorView::Syntax(SyntaxFault::LetClause), globals),
    }
}

/// The scope `env` with the first `count` clauses bound, each evaluated
/// under the bindings of those before it.
pub open spec fn clauses_bound(
    clauses: Seq<TreeView>,
    count: nat,
    env: Scope,
    globals: Scope,
    answers: Answers,
    depth: nat,
) -> Step<Scope>
    decreases depth, 3nat, count,
{
    if count == 0 {
        Step { result: Ok(env), globals }
    } else {
        let before = clauses_bound(clauses, (count - 1) as nat, env, globals, answers, depth);
        match before.result {
            Err(e) => failed(e, before.globals),
            Ok(scope) => {
                let last = clause_bound(clauses[count - 1], scope, before.globals, answers, depth);
                match last.result {
                    Err(e) => failed(e, last.globals),
                    Ok((name, value)) => Step {
                        result: Ok(scope.insert(name, value)),
                        globals: last.globals,
                    },
                }
            },
        }
    }
}

/// `let`: the last child evaluated under the bindings of the clauses
/// before it.
pub open spec fn let_evaluated(
    children: Seq<TreeView>,
    env: Scope,
    globals: Scope,
    answers: Answers,
    depth: nat,
) -> Step<ObjectView>
    decreases depth, 4nat, 0nat,
{
    if children.len() < 2 {
        failed(ErrorView::Syntax(SyntaxFault::LetForm), globals)
    } else {
        let bound = clauses_bound(
            children,
            (children.len() - 1) as nat,
            env,
            globals,
            answers,
            depth,
        );
        match bound.result {
            Err(e) => failed(e, bound.globals),
            Ok(scope) => evaluated(children.last(), scope, bound.globals, true, answers, depth),
        }
    }
}

/// The name and the value that `def` is to bind globally.
pub open spec fn defined(
    children: Seq<TreeView>,
    env: Scope,
    globals: Scope,
    answers: Answers,
    depth: nat,
) -> Step<(Seq<char>, ObjectView)>
    decreases depth, 1nat, 0nat,
{
    if children.len() != 2 {
        failed(ErrorView::Syntax(SyntaxFault::DefForm), globals)
    } else {
        match name_of_leaf(children[0]) {
            None => failed(ErrorView::Syntax(SyntaxFault::DefName), globals),
            Some(name) => {
                let step = evaluated(children[1], env, globals, true, answers, depth);
                match step.result {
                    Err(e) => failed(e, step.globals),
                    Ok(object) => Step { result: Ok((name, object)), globals: step.globals },
                }
            },
        }
    }
}

/// What a form with the operator `op` evaluates to where calls are made.
pub open spec fn branch_evaluated(
    op: OpView,
    children: Seq<TreeView>,
    env: Scope,
    globals: Scope,
    answers: Answers,
    depth: nat,
) -> Step<ObjectView>
    decreases depth, 5nat, 0nat,
{
    match op {
        OpView::Func(name) => call_evaluated(name, children, env, globals, answers, depth),
        OpView::Let => let_evaluated(children, env, globals, answers, depth),
        OpView::Def => {
            let step = defined(children, env, globals, answers, depth);
            match step.result {
                Err(e) => failed(e, step.globals),
                Ok((name, value)) => Step {
                    result: Ok(ObjectView::Nil),
                    globals: step.globals.insert(name, value),
                },
            }
        },
        OpView::Quote => if children.len() != 1 {
            failed(ErrorView::Syntax(SyntaxFault::QuoteForm), globals)
        } else {
            evaluated(children[0], env, globals, false, answers, depth)
        },
        OpView::If => if children.len() != 3 {
            failed(ErrorView::Syntax(SyntaxFault::IfForm), globals)
        } else {
            let condition = evaluated(children[0], env, globals, true, answers, depth);
            match condition.result {
                Err(e) => failed(e, condition.globals),
                Ok(ObjectView::Bool(true)) => evaluated(
                    children[1],
                    env,
                    condition.globals,
                    true,
                    answers,
                    depth,
                ),
                Ok(ObjectView::Bool(false)) => evaluated(
                    children[2],
                    env,
                    condition.globals,
                    true,
                    answers,
                    depth,
                ),
                Ok(_) => failed(ErrorView::Type(TypeFault::Condition), condition.globals),
            }
        },
        _ => {
            let step = all_evaluated(children, env, globals, answers, depth);
            match step.result {
                Err(e) => failed(e, step.globals),
                Ok(operands) => Step {
                    result: operated(op, operands, env, step.globals, answers),
                    globals: step.globals,
                },
            }
        },
    }
}

} // verus!
