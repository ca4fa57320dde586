//! Why the work can be done again once the host has answered.
//!
//! The host's answers enter lexing, evaluation and rendering in one way
//! only: a question is looked up. So a result that does not wait for an
//! answer stays the same when answers are added, and a result that waits
//! waits for a question that has no answer yet. A host that records
//! the answer and has the work done again therefore gets past the
//! question, and loses nothing of what was reached before it.

use crate::decimal::DecimalQueryView;
use crate::decimal::NumericOp;
use crate::error::ErrorView;
use crate::interpreter::ran;
use crate::lexer::lex_step;
use crate::lexer::lexed;
use crate::lexer::lexed_so_far;
use crate::lexer::token_of;
use crate::lexer::LexState;
use crate::parser::parsed;
use crate::render::items_rendered;
use crate::render::rendered;
use crate::semantics::all_evaluated;
use crate::semantics::applied;
use crate::semantics::arguments_bound;
use crate::semantics::as_decimal;
use crate::semantics::branch_evaluated;
use crate::semantics::call_evaluated;
use crate::semantics::clause_bound;
use crate::semantics::clauses_bound;
use crate::semantics::decimals_combined;
use crate::semantics::defined;
use crate::semantics::evaluated;
use crate::semantics::integers_combined;
use crate::semantics::lambda_bound;
use crate::semantics::let_evaluated;
use crate::semantics::looked_up;
use crate::semantics::number_answer;
use crate::semantics::operands_combined;
use crate::semantics::operated;
use crate::semantics::reduced;
use crate::semantics::resolved;
use crate::semantics::text_answer;
use crate::semantics::truth_answer;
use crate::semantics::Answers;
use crate::semantics::Scope;
use crate::semantics::Step;
use crate::token::numeric_of;
use crate::token::OpView;
use crate::tree::ObjectView;
use crate::tree::TreeView;
use vstd::prelude::*;

verus! {

/// Whether `more` holds every answer of `answers`.
pub open spec fn extends(more: Answers, answers: Answers) -> bool {
    forall|query: DecimalQueryView| #[trigger]
        answers.contains_key(query) ==> more.contains_key(query) && more[query] == answers[query]
}

/// Whether the result waits for an answer of the host.
pub open spec fn waits<T>(result: Result<T, ErrorView>) -> bool {
    result matches Err(ErrorView::NeedsDecimal(_))
}

/// Whether the result, where it waits, waits for a question that has no
/// answer.
pub open spec fn asks_anew<T>(result: Result<T, ErrorView>, answers: Answers) -> bool {
    result matches Err(ErrorView::NeedsDecimal(query)) ==> !answers.contains_key(query)
}

/// Whether the result under `answers` asks anew, and is the result under
/// `more` unless it waits.
pub open spec fn replays<T>(
    result: Result<T, ErrorView>,
    again: Result<T, ErrorView>,
    answers: Answers,
) -> bool {
    asks_anew(result, answers) && (!waits(result) ==> again == result)
}

/// Whether the step under `answers` asks anew, and is the step under
/// `more` unless it waits.
pub open spec fn step_replays<T>(step: Step<T>, again: Step<T>, answers: Answers) -> bool {
    asks_anew(step.result, answers) && (!waits(step.result) ==> again == step)
}

/// The same of the decimal that answers a question.
proof fn lemma_number_answer_replays(
    query: DecimalQueryView,
    answers: Answers,
    more: Answers,
)
    requires
        extends(more, answers),
    ensures
        replays(number_answer(query, answers), number_answer(query, more), answers),
{
}

/// The same of the truth value that answers a question.
proof fn lemma_truth_answer_replays(
    query: DecimalQueryView,
    answers: Answers,
    more: Answers,
)
    requires
        extends(more, answers),
    ensures
        replays(truth_answer(query, answers), truth_answer(query, more), answers),
{
}

/// The same of the text that answers a question.
proof fn lemma_text_answer_replays(query: DecimalQueryView, answers: Answers, more: Answers)
    requires
        extends(more, answers),
    ensures
        replays(text_answer(query, answers), text_answer(query, more), answers),
{
}

/// The same of an operator on two decimals.
proof fn lemma_decimals_combined_replays(
    op: NumericOp,
    a: crate::decimal::Decimal,
    b: crate::decimal::Decimal,
    answers: Answers,
    more: Answers,
)
    requires
        extends(more, answers),
    ensures
        replays(
            decimals_combined(op, a, b, answers),
            decimals_combined(op, a, b, more),
            answers,
        ),
{
    let query = DecimalQueryView::Combine(op, a, b);
    lemma_number_answer_replays(query, answers, more);
    lemma_truth_answer_replays(query, answers, more);
}

/// The same of an operator on two integers.
proof fn lemma_integers_combined_replays(
    op: NumericOp,
    a: int,
    b: int,
    answers: Answers,
    more: Answers,
)
    requires
        extends(more, answers),
    ensures
        replays(
            integers_combined(op, a, b, answers),
            integers_combined(op, a, b, more),
            answers,
        ),
{
    if op is Div {
        lemma_number_answer_replays(DecimalQueryView::FromInteger(a), answers, more);
        lemma_number_answer_replays(DecimalQueryView::FromInteger(b), answers, more);
        match as_decimal(a, answers) {
            Ok(x) => match as_decimal(b, answers) {
                Ok(y) => {
                    lemma_decimals_combined_replays(NumericOp::Div, x, y, answers, more);
                },
                Err(_) => {},
            },
            Err(_) => {},
        }
    }
}

/// The same of an operator on two values.
proof fn lemma_operands_combined_replays(
    op: OpView,
    left: ObjectView,
    right: ObjectView,
    answers: Answers,
    more: Answers,
)
    requires
        extends(more, answers),
    ensures
        replays(
            operands_combined(op, left, right, answers),
            operands_combined(op, left, right, more),
            answers,
        ),
{
    match numeric_of(op) {
        None => {},
        Some(n) => {
            match (left, right) {
                (ObjectView::Int(a), ObjectView::Int(b)) => {
                    lemma_integers_combined_replays(n, a, b, answers, more);
                },
                (ObjectView::Dec(a), ObjectView::Dec(b)) => {
                    lemma_decimals_combined_replays(n, a, b, answers, more);
                },
                (ObjectView::Int(a), ObjectView::Dec(b)) => {
                    lemma_number_answer_replays(DecimalQueryView::FromInteger(a), answers, more);
                    match as_decimal(a, answers) {
                        Ok(x) => {
                            lemma_decimals_combined_replays(n, x, b, answers, more);
                        },
                        Err(_) => {},
                    }
                },
                (ObjectView::Dec(a), ObjectView::Int(b)) => {
                    lemma_number_answer_replays(DecimalQueryView::FromInteger(b), answers, more);
                    match as_decimal(b, answers) {
                        Ok(y) => {
                            lemma_decimals_combined_replays(n, a, y, answers, more);
                        },
                        Err(_) => {},
                    }
                },
                _ => {},
            }
        },
    }
}

/// The same of an operator on an accumulated value and an operand.
proof fn lemma_applied_replays(
    op: OpView,
    acc: ObjectView,
    operand: ObjectView,
    env: Scope,
    globals: Scope,
    answers: Answers,
    more: Answers,
)
    requires
        extends(more, answers),
    ensures
        replays(
            applied(op, acc, operand, env, globals, answers),
            applied(op, acc, operand, env, globals, more),
            answers,
        ),
{
    match resolved(operand, env, globals) {
        Ok(right) => match resolved(acc, env, globals) {
            Ok(left) => {
                lemma_operands_combined_replays(op, left, right, answers, more);
            },
            Err(_) => {},
        },
        Err(_) => {},
    }
}

/// The same of a fold of operands.
proof fn lemma_reduced_replays(
    op: OpView,
    list: Seq<ObjectView>,
    env: Scope,
    globals: Scope,
    answers: Answers,
    more: Answers,
)
    requires
        extends(more, answers),
    ensures
        replays(
            reduced(op, list, env, globals, answers),
            reduced(op, list, env, globals, more),
            answers,
        ),
    decreases list.len(),
{
    if list.len() > 1 {
        lemma_reduced_replays(op, list.drop_last(), env, globals, answers, more);
        match reduced(op, list.drop_last(), env, globals, answers) {
            Ok(acc) => {
                lemma_applied_replays(op, acc, list.last(), env, globals, answers, more);
            },
            Err(_) => {},
        }
    }
}

/// The same of an operator on evaluated operands.
proof fn lemma_operated_replays(
    op: OpView,
    operands: Seq<ObjectView>,
    env: Scope,
    globals: Scope,
    answers: Answers,
    more: Answers,
)
    requires
        extends(more, answers),
    ensures
        replays(
            operated(op, operands, env, globals, answers),
            operated(op, operands, env, globals, more),
            answers,
        ),
{
    lemma_reduced_replays(op, operands, env, globals, answers, more);
}

/// Evaluation that does not wait gives the same with more answers, and
/// evaluation that waits asks a question that has no answer.
pub proof fn law_evaluation_replays(
    tree: TreeView,
    env: Scope,
    globals: Scope,
    fully: bool,
    answers: Answers,
    more: Answers,
    depth: nat,
)
    requires
        extends(more, answers),
    ensures
        step_replays(
            evaluated(tree, env, globals, fully, answers, depth),
            evaluated(tree, env, globals, fully, more, depth),
            answers,
        ),
    decreases depth, 0nat, 0nat,
{
    if depth > 0 {
        match tree {
            TreeView::Leaf(_) => {},
            TreeView::Branch(op, children) => {
                if op != OpView::Func(crate::semantics::lambda_word()) && fully {
                    lemma_branch_replays(
                        op,
                        children,
                        env,
                        globals,
                        answers,
                        more,
                        (depth - 1) as nat,
                    );
                }
            },
        }
    }
}

/// The same of trees evaluated in turn.
proof fn lemma_all_evaluated_replays(
    trees: Seq<TreeView>,
    env: Scope,
    globals: Scope,
    answers: Answers,
    more: Answers,
    depth: nat,
)
    requires
        extends(more, answers),
    ensures
        step_replays(
            all_evaluated(trees, env, globals, answers, depth),
            all_evaluated(trees, env, globals, more, depth),
            answers,
        ),
    decreases depth, 1nat, trees.len(),
{
    if trees.len() > 0 {
        lemma_all_evaluated_replays(trees.drop_last(), env, globals, answers, more, depth);
        let before = all_evaluated(trees.drop_last(), env, globals, answers, depth);
        match before.result {
            Err(_) => {},
            Ok(_) => {
                law_evaluation_replays(
                    trees.last(),
                    env,
                    before.globals,
                    true,
                    answers,
                    more,
                    depth,
                );
            },
        }
    }
}

/// The same of the binding of arguments.
proof fn lemma_arguments_bound_replays(
    params: Seq<Seq<char>>,
    args: Seq<TreeView>,
    count: nat,
    env: Scope,
    globals: Scope,
    answers: Answers,
    more: Answers,
    depth: nat,
)
    requires
        extends(more, answers),
    ensures
        step_replays(
            arguments_bound(params, args, count, env, globals, answers, depth),
            arguments_bound(params, args, count, env, globals, more, depth),
            answers,
        ),
    decreases depth, 1nat, count,
{
    if count > 0 {
        let fewer = (count - 1) as nat;
        lemma_arguments_bound_replays(params, args, fewer, env, globals, answers, more, depth);
        let before = arguments_bound(params, args, fewer, env, globals, answers, depth);
        match before.result {
            Err(_) => {},
            Ok(_) => {
                law_evaluation_replays(
                    args[count - 1],
                    env,
                    before.globals,
                    true,
                    answers,
                    more,
                    depth,
                );
            },
        }
    }
}

/// The same of a call by name.
proof fn lemma_call_replays(
    name: Seq<char>,
    args: Seq<TreeView>,
    env: Scope,
    globals: Scope,
    answers: Answers,
    more: Answers,
    depth: nat,
)
    requires
        extends(more, answers),
    ensures
        step_replays(
            call_evaluated(name, args, env, globals, answers, depth),
            call_evaluated(name, args, env, globals, more, depth),
            answers,
        ),
    decreases depth, 4nat, 0nat,
{
    match looked_up(name, env, globals) {
        Ok(ObjectView::Lambda(params, body)) => {
            let count = if params.len() <= args.len() {
                params.len()
            } else {
                args.len()
            };
            lemma_arguments_bound_replays(
                params,
                args,
                count,
                env,
                globals,
                answers,
                more,
                depth,
            );
            let bound = arguments_bound(params, args, count, env, globals, answers, depth);
            match bound.result {
                Err(_) => {},
                Ok(scope) => {
                    law_evaluation_replays(
                        body,
                        scope,
                        bound.globals,
                        true,
                        answers,
                        more,
                        depth,
                    );
                },
            }
        },
        _ => {},
    }
}

/// The same of the binding of a function literal or a token.
proof fn lemma_lambda_bound_replays(
    name: Seq<char>,
    value: TreeView,
    env: Scope,
    globals: Scope,
    answers: Answers,
    more: Answers,
    depth: nat,
)
    requires
        extends(more, answers),
    ensures
        step_replays(
            lambda_bound(name, value, env, globals, answers, depth),
            lambda_bound(name, value, env, globals, more, depth),
            answers,
        ),
    decreases depth, 1nat, 0nat,
{
    match value {
        TreeView::Leaf(_) => {
            law_evaluation_replays(value, env, globals, true, answers, more, depth);
        },
        _ => {},
    }
}

/// The same of a clause of `let`.
proof fn lemma_clause_bound_replays(
    clause: TreeView,
    env: Scope,
    globals: Scope,
    answers: Answers,
    more: Answers,
    depth: nat,
)
    requires
        extends(more, answers),
    ensures
        step_replays(
            clause_bound(clause, env, globals, answers, depth),
            clause_bound(clause, env, globals, more, depth),
            answers,
        ),
    decreases depth, 2nat, 0nat,
{
    match clause {
        TreeView::Branch(OpView::Func(name), values) => {
            if values.len() == 1 {
                match values[0] {
                    TreeView::Branch(OpView::List, items) => {
                        lemma_all_evaluated_replays(items, env, globals, answers, more, depth);
                    },
                    TreeView::Branch(_, _) => {
                        law_evaluation_replays(
                            values[0],
                            env,
                            globals,
                            true,
                            answers,
                            more,
                            depth,
                        );
                    },
                    TreeView::Leaf(_) => {
                        lemma_lambda_bound_replays(
                            name,
                            values[0],
                            env,
                            globals,
                            answers,
                            more,
                            depth,
                        );
                    },
                }
            }
        },
        _ => {},
    }
}

/// The same of the clauses of `let`.
proof fn lemma_clauses_bound_replays(
    clauses: Seq<TreeView>,
    count: nat,
    env: Scope,
    globals: Scope,
    answers: Answers,
    more: Answers,
    depth: nat,
)
    requires
        extends(more, answers),
    ensures
        step_replays(
            clauses_bound(clauses, count, env, globals, answers, depth),
            clauses_bound(clauses, count, env, globals, more, depth),
            answers,
        ),
    decreases depth, 3nat, count,
{
    if count > 0 {
        let fewer = (count - 1) as nat;
        lemma_clauses_bound_replays(clauses, fewer, env, globals, answers, more, depth);
        let before = clauses_bound(clauses, fewer, env, globals, answers, depth);
        match before.result {
            Err(_) => {},
            Ok(scope) => {
                lemma_clause_bound_replays(
                    clauses[count - 1],
                    scope,
                    before.globals,
                    answers,
                    more,
                    depth,
                );
            },
        }
    }
}

/// The same of `let`.
proof fn lemma_let_replays(
    children: Seq<TreeView>,
    env: Scope,
    globals: Scope,
    answers: Answers,
    more: Answers,
    depth: nat,
)
    requires
        extends(more, answers),
    ensures
        step_replays(
            let_evaluated(children, env, globals, answers, depth),
            let_evaluated(children, env, globals, more, depth),
            answers,
        ),
    decreases depth, 4nat, 0nat,
{
    if children.len() >= 2 {
        let count = (children.len() - 1) as nat;
        lemma_clauses_bound_replays(children, count, env, globals, answers, more, depth);
        let bound = clauses_bound(children, count, env, globals, answers, depth);
        match bound.result {
            Err(_) => {},
            Ok(scope) => {
                law_evaluation_replays(
                    children.last(),
                    scope,
                    bound.globals,
                    true,
                    answers,
                    more,
                    depth,
                );
            },
        }
    }
}

/// The same of `def`.
proof fn lemma_defined_replays(
    children: Seq<TreeView>,
    env: Scope,
    globals: Scope,
    answers: Answers,
    more: Answers,
    depth: nat,
)
    requires
        extends(more, answers),
    ensures
        step_replays(
            defined(children, env, globals, answers, depth),
            defined(children, env, globals, more, depth),
            answers,
        ),
    decreases depth, 1nat, 0nat,
{
    if children.len() == 2 {
        law_evaluation_replays(children[1], env, globals, true, answers, more, depth);
    }
}

/// The same of a form with its operator.
proof fn lemma_branch_replays(
    op: OpView,
    children: Seq<TreeView>,
    env: Scope,
    globals: Scope,
    answers: Answers,
    more: Answers,
    depth: nat,
)
    requires
        extends(more, answers),
    ensures
        step_replays(
            branch_evaluated(op, children, env, globals, answers, depth),
            branch_evaluated(op, children, env, globals, more, depth),
            answers,
        ),
    decreases depth, 5nat, 0nat,
{
    match op {
        OpView::Func(name) => {
            lemma_call_replays(name, children, env, globals, answers, more, depth);
        },
        OpView::Let => {
            lemma_let_replays(children, env, globals, answers, more, depth);
        },
        OpView::Def => {
            lemma_defined_replays(children, env, globals, answers, more, depth);
        },
        OpView::Quote => {
            if children.len() == 1 {
                law_evaluation_replays(children[0], env, globals, false, answers, more, depth);
            }
        },
        OpView::If => {
            if children.len() == 3 {
                law_evaluation_replays(children[0], env, globals, true, answers, more, depth);
                let condition = evaluated(children[0], env, globals, true, answers, depth);
                law_evaluation_replays(
                    children[1],
                    env,
                    condition.globals,
                    true,
                    answers,
                    more,
                    depth,
                );
                law_evaluation_replays(
                    children[2],
                    env,
                    condition.globals,
                    true,
                    answers,
                    more,
                    depth,
                );
            }
        },
        _ => {
            lemma_all_evaluated_replays(children, env, globals, answers, more, depth);
            let step = all_evaluated(children, env, globals, answers, depth);
            match step.result {
                Err(_) => {},
                Ok(operands) => {
                    lemma_operated_replays(op, operands, env, step.globals, answers, more);
                },
            }
        },
    }
}

/// The same of the token that a text is.
proof fn lemma_token_of_replays(text: Seq<char>, answers: Answers, more: Answers)
    requires
        extends(more, answers),
    ensures
        replays(token_of(text, answers), token_of(text, more), answers),
{
    lemma_number_answer_replays(DecimalQueryView::Literal(text), answers, more);
}

/// The same of one step of the lexer.
proof fn lemma_lex_step_replays(state: LexState, c: char, answers: Answers, more: Answers)
    requires
        extends(more, answers),
    ensures
        replays(lex_step(state, c, answers), lex_step(state, c, more), answers),
{
    lemma_token_of_replays(state.pending, answers, more);
}

/// The same of the lexer on the first characters.
proof fn lemma_lexed_so_far_replays(text: Seq<char>, answers: Answers, more: Answers)
    requires
        extends(more, answers),
    ensures
        replays(lexed_so_far(text, answers), lexed_so_far(text, more), answers),
    decreases text.len(),
{
    if text.len() > 0 {
        lemma_lexed_so_far_replays(text.drop_last(), answers, more);
        match lexed_so_far(text.drop_last(), answers) {
            Ok(state) => {
                lemma_lex_step_replays(state, text.last(), answers, more);
            },
            Err(_) => {},
        }
    }
}

/// Lexing that does not wait gives the same with more answers, and
/// lexing that waits asks a question that has no answer.
pub proof fn law_lexing_replays(text: Seq<char>, answers: Answers, more: Answers)
    requires
        extends(more, answers),
    ensures
        replays(lexed(text, answers), lexed(text, more), answers),
{
    lemma_lexed_so_far_replays(text, answers, more);
}

/// The parser asks the host nothing: where it fails, the form is
/// misshapen.
proof fn lemma_parsing_never_waits(tokens: Seq<crate::token::TokenView>)
    ensures
        crate::parser::parsed_so_far(tokens) matches Err(e) ==> e is Syntax,
        parsed(tokens) matches Err(e) ==> e is Syntax,
    decreases tokens.len(),
{
    if tokens.len() > 0 {
        lemma_parsing_never_waits(tokens.drop_last());
    }
}

/// Running a text that does not wait gives the same with more answers,
/// and running that waits asks a question that has no answer.
pub proof fn law_running_replays(
    text: Seq<char>,
    globals: Scope,
    answers: Answers,
    more: Answers,
    depth: nat,
)
    requires
        extends(more, answers),
    ensures
        step_replays(
            ran(text, globals, answers, depth),
            ran(text, globals, more, depth),
            answers,
        ),
{
    law_lexing_replays(text, answers, more);
    match lexed(text, answers) {
        Ok(tokens) => {
            if tokens.len() > 0 {
                match parsed(tokens) {
                    Ok(tree) => {
                        law_evaluation_replays(
                            tree,
                            Map::empty(),
                            globals,
                            true,
                            answers,
                            more,
                            depth,
                        );
                    },
                    Err(e) => {
                        lemma_parsing_never_waits(tokens);
                    },
                }
            }
        },
        Err(_) => {},
    }
}

/// The same of the items of a list as they are written.
proof fn lemma_items_rendered_replays(
    items: Seq<ObjectView>,
    count: nat,
    answers: Answers,
    more: Answers,
)
    requires
        extends(more, answers),
    ensures
        replays(
            items_rendered(items, count, answers),
            items_rendered(items, count, more),
            answers,
        ),
    decreases items, count,
{
    if count > 0 && count <= items.len() {
        lemma_items_rendered_replays(items, (count - 1) as nat, answers, more);
        law_rendering_replays(items[count - 1], answers, more);
    }
}

/// Writing a value that does not wait gives the same with more answers,
/// and writing that waits asks a question that has no answer.
pub proof fn law_rendering_replays(value: ObjectView, answers: Answers, more: Answers)
    requires
        extends(more, answers),
    ensures
        replays(rendered(value, answers), rendered(value, more), answers),
    decreases value, 0nat,
{
    match value {
        ObjectView::Dec(d) => {
            lemma_text_answer_replays(DecimalQueryView::Display(d), answers, more);
        },
        ObjectView::List(items) => {
            lemma_items_rendered_replays(items, items.len(), answers, more);
        },
        _ => {},
    }
}

} // verus!
