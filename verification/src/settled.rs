//! No evaluation gives a name: every value that it gives is settled.
//!
//! A value is settled when it is no name and, where it is a list, holds
//! settled values only. Evaluation under scopes that bind settled values
//! gives a settled value, and keeps the global scope such a scope.

use crate::semantics::all_evaluated;
use crate::semantics::arguments_bound;
use crate::semantics::branch_evaluated;
use crate::semantics::call_evaluated;
use crate::semantics::clause_bound;
use crate::semantics::clauses_bound;
use crate::semantics::defined;
use crate::semantics::evaluated;
use crate::semantics::joined;
use crate::semantics::lambda_bound;
use crate::semantics::let_evaluated;
use crate::semantics::looked_up;
use crate::semantics::operated;
use crate::semantics::reduced;
use crate::semantics::Answers;
use crate::semantics::Scope;
use crate::token::OpView;
use crate::tree::ObjectView;
use crate::tree::TreeView;
use vstd::prelude::*;

verus! {

/// Whether the value is no name and holds none in its lists.
pub open spec fn is_settled(value: ObjectView) -> bool
    decreases value,
{
    match value {
        ObjectView::Id(_) => false,
        ObjectView::List(items) => forall|i: int|
            0 <= i < items.len() ==> is_settled(#[trigger] items[i]),
        _ => true,
    }
}

/// Whether all the values are settled.
pub open spec fn all_settled(values: Seq<ObjectView>) -> bool {
    forall|i: int| 0 <= i < values.len() ==> is_settled(#[trigger] values[i])
}

/// Whether the scope binds settled values only.
pub open spec fn is_settled_scope(scope: Scope) -> bool {
    forall|name: Seq<char>| scope.contains_key(name) ==> is_settled(#[trigger] scope[name])
}

/// A list of settled values is a settled value.
proof fn lemma_list_settled(items: Seq<ObjectView>)
    requires
        all_settled(items),
    ensures
        is_settled(ObjectView::List(items)),
{
    reveal_with_fuel(is_settled, 2);
}

/// The items of a settled list are settled.
proof fn lemma_items_settled(items: Seq<ObjectView>)
    requires
        is_settled(ObjectView::List(items)),
    ensures
        all_settled(items),
{
    assert forall|i: int| 0 <= i < items.len() implies is_settled(#[trigger] items[i]) by {
        let list = ObjectView::List(items);
        assert(is_settled(list));
        assert(list->List_0[i] == items[i]);
    }
}

/// The fold of settled operands is settled.
proof fn lemma_reduced_settled(
    op: OpView,
    list: Seq<ObjectView>,
    env: Scope,
    globals: Scope,
    answers: Answers,
)
    requires
        all_settled(list),
    ensures
        reduced(op, list, env, globals, answers) matches Ok(value) ==> is_settled(value),
    decreases list.len(),
{
    if list.len() > 1 {
        lemma_reduced_settled(op, list.drop_last(), env, globals, answers);
    }
}

/// Settled lists join to settled items.
proof fn lemma_joined_settled(operands: Seq<ObjectView>)
    requires
        all_settled(operands),
    ensures
        joined(operands) matches Some(items) ==> all_settled(items),
    decreases operands.len(),
{
    if operands.len() > 0 {
        let before = operands.drop_last();
        assert forall|i: int| 0 <= i < before.len() implies is_settled(#[trigger] before[i]) by {
            assert(before[i] == operands[i]);
        }
        lemma_joined_settled(before);
        match (joined(before), operands.last()) {
            (Some(items), ObjectView::List(more)) => {
                assert(is_settled(operands[operands.len() - 1]));
                lemma_items_settled(more);
                assert forall|i: int| 0 <= i < (items + more).len() implies is_settled(
                    #[trigger] (items + more)[i],
                ) by {
                    if i < items.len() {
                        assert((items + more)[i] == items[i]);
                    } else {
                        assert((items + more)[i] == more[i - items.len()]);
                    }
                }
            },
            _ => {},
        }
    }
}

/// What an operator gives of settled operands is settled.
proof fn lemma_operated_settled(
    op: OpView,
    operands: Seq<ObjectView>,
    env: Scope,
    globals: Scope,
    answers: Answers,
)
    requires
        all_settled(operands),
    ensures
        operated(op, operands, env, globals, answers) matches Ok(value) ==> is_settled(value),
{
    match op {
        OpView::List => {
            lemma_list_settled(operands);
        },
        OpView::Index => {
            if operands.len() >= 2 {
                assert(is_settled(operands[1]));
                match operands[1] {
                    ObjectView::List(items) => {
                        lemma_items_settled(items);
                    },
                    _ => {},
                }
            }
        },
        OpView::Take => {
            if operands.len() >= 2 {
                assert(is_settled(operands[1]));
                match (operands[0], operands[1]) {
                    (ObjectView::Int(n), ObjectView::List(items)) => {
                        lemma_items_settled(items);
                        if 0 <= n <= items.len() {
                            let part = items.take(n);
                            assert forall|i: int| 0 <= i < part.len() implies is_settled(
                                #[trigger] part[i],
                            ) by {
                                assert(part[i] == items[i]);
                            }
                            lemma_list_settled(part);
                        }
                    },
                    _ => {},
                }
            }
        },
        OpView::Drop => {
            if operands.len() >= 2 {
                assert(is_settled(operands[1]));
                match (operands[0], operands[1]) {
                    (ObjectView::Int(n), ObjectView::List(items)) => {
                        lemma_items_settled(items);
                        lemma_list_settled(Seq::empty());
                        if 0 < n <= items.len() {
                            let part = items.skip(n);
                            assert forall|i: int| 0 <= i < part.len() implies is_settled(
                                #[trigger] part[i],
                            ) by {
                                assert(part[i] == items[i + n]);
                            }
                            lemma_list_settled(part);
                        }
                    },
                    _ => {},
                }
            }
        },
        OpView::Append => {
            if operands.len() >= 2 {
                assert(is_settled(operands[0]));
                assert(is_settled(operands[1]));
                match operands[1] {
                    ObjectView::List(items) => {
                        lemma_items_settled(items);
                        let more = items.push(operands[0]);
                        assert forall|i: int| 0 <= i < more.len() implies is_settled(
                            #[trigger] more[i],
                        ) by {
                            if i < items.len() {
                                assert(more[i] == items[i]);
                            }
                        }
                        lemma_list_settled(more);
                    },
                    _ => {},
                }
            }
        },
        OpView::Range => {
            if operands.len() >= 2 {
                match (operands[0], operands[1]) {
                    (ObjectView::Int(lower), ObjectView::Int(upper)) => {
                        lemma_list_settled(Seq::empty());
                        if lower < upper {
                            lemma_list_settled(
                                Seq::new(
                                    (upper - lower) as nat,
                                    |k: int| ObjectView::Int(lower + k),
                                ),
                            );
                        }
                    },
                    _ => {},
                }
            }
        },
        OpView::Cat => {
            lemma_joined_settled(operands);
            match joined(operands) {
                Some(items) => {
                    lemma_list_settled(items);
                },
                None => {},
            }
        },
        OpView::Len => {},
        _ => {
            lemma_reduced_settled(op, operands, env, globals, answers);
        },
    }
}

/// Evaluation under settled scopes gives a settled value and leaves the
/// global scope settled.
pub proof fn law_evaluation_gives_no_name(
    tree: TreeView,
    env: Scope,
    globals: Scope,
    fully: bool,
    answers: Answers,
    depth: nat,
)
    requires
        is_settled_scope(env),
        is_settled_scope(globals),
    ensures
        is_settled_scope(evaluated(tree, env, globals, fully, answers, depth).globals),
        evaluated(tree, env, globals, fully, answers, depth).result matches Ok(value)
            ==> is_settled(value),
    decreases depth, 0nat, 0nat,
{
    if depth > 0 {
        match tree {
            TreeView::Leaf(_) => {},
            TreeView::Branch(op, children) => {
                if op != OpView::Func(crate::semantics::lambda_word()) && fully {
                    lemma_branch_settled(
                        op,
                        children,
                        env,
                        globals,
                        answers,
                        (depth - 1) as nat,
                    );
                }
            },
        }
    }
}

/// The values of trees evaluated in turn under settled scopes are
/// settled.
proof fn lemma_all_evaluated_settled(
    trees: Seq<TreeView>,
    env: Scope,
    globals: Scope,
    answers: Answers,
    depth: nat,
)
    requires
        is_settled_scope(env),
        is_settled_scope(globals),
    ensures
        is_settled_scope(all_evaluated(trees, env, globals, answers, depth).globals),
        all_evaluated(trees, env, globals, answers, depth).result matches Ok(values)
            ==> all_settled(values),
    decreases depth, 1nat, trees.len(),
{
    if trees.len() > 0 {
        lemma_all_evaluated_settled(trees.drop_last(), env, globals, answers, depth);
        let before = all_evaluated(trees.drop_last(), env, globals, answers, depth);
        match before.result {
            Err(_) => {},
            Ok(values) => {
                law_evaluation_gives_no_name(
                    trees.last(),
                    env,
                    before.globals,
                    true,
                    answers,
                    depth,
                );
                let last = evaluated(trees.last(), env, before.globals, true, answers, depth);
                match last.result {
                    Err(_) => {},
                    Ok(value) => {
                        let more = values.push(value);
                        assert forall|i: int| 0 <= i < more.len() implies is_settled(
                            #[trigger] more[i],
                        ) by {
                            if i < values.len() {
                                assert(more[i] == values[i]);
                            }
                        }
                    },
                }
            },
        }
    }
}

/// Arguments bound on top of a settled scope give a settled scope.
proof fn lemma_arguments_bound_settled(
    params: Seq<Seq<char>>,
    args: Seq<TreeView>,
    count: nat,
    env: Scope,
    globals: Scope,
    answers: Answers,
    depth: nat,
)
    requires
        is_settled_scope(env),
        is_settled_scope(globals),
    ensures
        is_settled_scope(arguments_bound(params, args, count, env, globals, answers, depth).globals),
        arguments_bound(params, args, count, env, globals, answers, depth).result matches Ok(scope)
            ==> is_settled_scope(scope),
    decreases depth, 1nat, count,
{
    if count > 0 {
        lemma_arguments_bound_settled(
            params,
            args,
            (count - 1) as nat,
            env,
            globals,
            answers,
            depth,
        );
        let before = arguments_bound(
            params,
            args,
            (count - 1) as nat,
            env,
            globals,
            answers,
            depth,
        );
        match before.result {
            Err(_) => {},
            Ok(scope) => {
                law_evaluation_gives_no_name(
                    args[count - 1],
                    env,
                    before.globals,
                    true,
                    answers,
                    depth,
                );
            },
        }
    }
}

/// A call under settled scopes gives a settled value.
proof fn lemma_call_settled(
    name: Seq<char>,
    args: Seq<TreeView>,
    env: Scope,
    globals: Scope,
    answers: Answers,
    depth: nat,
)
    requires
        is_settled_scope(env),
        is_settled_scope(globals),
    ensures
        is_settled_scope(call_evaluated(name, args, env, globals, answers, depth).globals),
        call_evaluated(name, args, env, globals, answers, depth).result matches Ok(value)
            ==> is_settled(value),
    decreases depth, 4nat, 0nat,
{
    match looked_up(name, env, globals) {
        Err(_) => {},
        Ok(ObjectView::Lambda(params, body)) => {
            let count = if params.len() <= args.len() {
                params.len()
            } else {
                args.len()
            };
            lemma_arguments_bound_settled(params, args, count, env, globals, answers, depth);
            let bound = arguments_bound(params, args, count, env, globals, answers, depth);
            match bound.result {
                Err(_) => {},
                Ok(scope) => {
                    law_evaluation_gives_no_name(body, scope, bound.globals, true, answers, depth);
                },
            }
        },
        Ok(_) => {},
    }
}

/// A name bound to a function literal or to a token is bound to a settled
/// value.
proof fn lemma_lambda_bound_settled(
    name: Seq<char>,
    value: TreeView,
    env: Scope,
    globals: Scope,
    answers: Answers,
    depth: nat,
)
    requires
        is_settled_scope(env),
        is_settled_scope(globals),
    ensures
        is_settled_scope(lambda_bound(name, value, env, globals, answers, depth).globals),
        lambda_bound(name, value, env, globals, answers, depth).result matches Ok(binding)
            ==> is_settled(binding.1),
    decreases depth, 1nat, 0nat,
{
    match value {
        TreeView::Leaf(_) => {
            law_evaluation_gives_no_name(value, env, globals, true, answers, depth);
        },
        _ => {},
    }
}

/// A clause of `let` under settled scopes binds a settled value.
proof fn lemma_clause_bound_settled(
    clause: TreeView,
    env: Scope,
    globals: Scope,
    answers: Answers,
    depth: nat,
)
    requires
        is_settled_scope(env),
        is_settled_scope(globals),
    ensures
        is_settled_scope(clause_bound(clause, env, globals, answers, depth).globals),
        clause_bound(clause, env, globals, answers, depth).result matches Ok(binding)
            ==> is_settled(binding.1),
    decreases depth, 2nat, 0nat,
{
    match clause {
        TreeView::Branch(OpView::Func(name), values) => {
            if values.len() == 1 {
                match values[0] {
                    TreeView::Branch(OpView::List, items) => {
                        lemma_all_evaluated_settled(items, env, globals, answers, depth);
                        let step = all_evaluated(items, env, globals, answers, depth);
                        match step.result {
                            Ok(objects) => {
                                lemma_list_settled(objects);
                            },
                            Err(_) => {},
                        }
                    },
                    TreeView::Branch(_, _) => {
                        law_evaluation_gives_no_name(
                            values[0],
                            env,
                            globals,
                            true,
                            answers,
                            depth,
                        );
                    },
                    TreeView::Leaf(_) => {
                        lemma_lambda_bound_settled(
                            name,
                            values[0],
                            env,
                            globals,
                            answers,
                            depth,
                        );
                    },
                }
            }
        },
        _ => {},
    }
}

/// Clauses bound on top of a settled scope give a settled scope.
proof fn lemma_clauses_bound_settled(
    clauses: Seq<TreeView>,
    count: nat,
    env: Scope,
    globals: Scope,
    answers: Answers,
    depth: nat,
)
    requires
        is_settled_scope(env),
        is_settled_scope(globals),
    ensures
        is_settled_scope(clauses_bound(clauses, count, env, globals, answers, depth).globals),
        clauses_bound(clauses, count, env, globals, answers, depth).result matches Ok(scope)
            ==> is_settled_scope(scope),
    decreases depth, 3nat, count,
{
    if count > 0 {
        lemma_clauses_bound_settled(clauses, (count - 1) as nat, env, globals, answers, depth);
        let before = clauses_bound(clauses, (count - 1) as nat, env, globals, answers, depth);
        match before.result {
            Err(_) => {},
            Ok(scope) => {
                lemma_clause_bound_settled(
                    clauses[count - 1],
                    scope,
                    before.globals,
                    answers,
                    depth,
                );
            },
        }
    }
}

/// `let` under settled scopes gives a settled value.
proof fn lemma_let_settled(
    children: Seq<TreeView>,
    env: Scope,
    globals: Scope,
    answers: Answers,
    depth: nat,
)
    requires
        is_settled_scope(env),
        is_settled_scope(globals),
    ensures
        is_settled_scope(let_evaluated(children, env, globals, answers, depth).globals),
        let_evaluated(children, env, globals, answers, depth).result matches Ok(value)
            ==> is_settled(value),
    decreases depth, 4nat, 0nat,
{
    if children.len() >= 2 {
        let count = (children.len() - 1) as nat;
        lemma_clauses_bound_settled(children, count, env, globals, answers, depth);
        let bound = clauses_bound(children, count, env, globals, answers, depth);
        match bound.result {
            Err(_) => {},
            Ok(scope) => {
                law_evaluation_gives_no_name(
                    children.last(),
                    scope,
                    bound.globals,
                    true,
                    answers,
                    depth,
                );
            },
        }
    }
}

/// `def` under settled scopes is to bind a settled value.
proof fn lemma_defined_settled(
    children: Seq<TreeView>,
    env: Scope,
    globals: Scope,
    answers: Answers,
    depth: nat,
)
    requires
        is_settled_scope(env),
        is_settled_scope(globals),
    ensures
        is_settled_scope(defined(children, env, globals, answers, depth).globals),
        defined(children, env, globals, answers, depth).result matches Ok(binding) ==> is_settled(
            binding.1,
        ),
    decreases depth, 1nat, 0nat,
{
    if children.len() == 2 {
        law_evaluation_gives_no_name(children[1], env, globals, true, answers, depth);
    }
}

/// A form under settled scopes gives a settled value.
proof fn lemma_branch_settled(
    op: OpView,
    children: Seq<TreeView>,
    env: Scope,
    globals: Scope,
    answers: Answers,
    depth: nat,
)
    requires
        is_settled_scope(env),
        is_settled_scope(globals),
    ensures
        is_settled_scope(branch_evaluated(op, children, env, globals, answers, depth).globals),
        branch_evaluated(op, children, env, globals, answers, depth).result matches Ok(value)
            ==> is_settled(value),
    decreases depth, 5nat, 0nat,
{
    match op {
        OpView::Func(name) => {
            lemma_call_settled(name, children, env, globals, answers, depth);
        },
        OpView::Let => {
            lemma_let_settled(children, env, globals, answers, depth);
        },
        OpView::Def => {
            lemma_defined_settled(children, env, globals, answers, depth);
        },
        OpView::Quote => {
            if children.len() == 1 {
                law_evaluation_gives_no_name(children[0], env, globals, false, answers, depth);
            }
        },
        OpView::If => {
            if children.len() == 3 {
                law_evaluation_gives_no_name(children[0], env, globals, true, answers, depth);
                let condition = evaluated(children[0], env, globals, true, answers, depth);
                law_evaluation_gives_no_name(
                    children[1],
                    env,
                    condition.globals,
                    true,
                    answers,
                    depth,
                );
                law_evaluation_gives_no_name(
                    children[2],
                    env,
                    condition.globals,
                    true,
                    answers,
                    depth,
                );
            }
        },
        _ => {
            lemma_all_evaluated_settled(children, env, globals, answers, depth);
            let step = all_evaluated(children, env, globals, answers, depth);
            match step.result {
                Err(_) => {},
                Ok(operands) => {
                    lemma_operated_settled(op, operands, env, step.globals, answers);
                },
            }
        },
    }
}

} // verus!
