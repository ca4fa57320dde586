//! The evaluator: a walk over the parse tree.
//!
//! Each function gives what its counterpart in `semantics` says, and
//! leaves the global definitions as that says. A function does not hold
//! the scope it was written in: a call binds its parameters on top of the
//! scope of the call, and the free names of its body are looked up there.

use crate::arith::lookup_env;
use crate::arith::lookup_env_string;
use crate::arith::reduce;
use crate::decimal::Ledger;
use crate::env::Env;
use crate::error::result_view;
use crate::error::Error;
use crate::error::ErrorView;
use crate::error::SyntaxFault;
use crate::error::TypeFault;
use crate::lists::list_append;
use crate::lists::list_cat;
use crate::lists::list_drop;
use crate::lists::list_index;
use crate::lists::list_len;
use crate::lists::list_range;
use crate::lists::list_take;
use crate::semantics::all_evaluated;
use crate::semantics::arguments_bound;
use crate::semantics::atom;
use crate::semantics::branch_evaluated;
use crate::semantics::call_evaluated;
use crate::semantics::clause_bound;
use crate::semantics::clauses_bound;
use crate::semantics::defined;
use crate::semantics::evaluated;
use crate::semantics::lambda_bound;
use crate::semantics::lambda_literal;
use crate::semantics::lambda_word;
use crate::semantics::let_evaluated;
use crate::semantics::name_of_leaf;
use crate::semantics::parameter_names;
use crate::semantics::Answers;
use crate::semantics::Scope;
use crate::text::text_is;
use crate::token::Op;
use crate::token::OpView;
use crate::token::Token;
use crate::tree::lemma_objects_view;
use crate::tree::lemma_trees_view;
use crate::tree::names_view;
use crate::tree::objects_view;
use crate::tree::trees_view;
use crate::tree::ObjectView;
use crate::tree::ParseTree;
use crate::tree::StutterObject;
use crate::tree::TreeView;
use vstd::prelude::*;

verus! {

/// A list of names, or an error, as a mathematical value.
pub open spec fn names_result_view(r: Result<Vec<String>, Error>) -> Result<
    Seq<Seq<char>>,
    ErrorView,
> {
    match r {
        Ok(names) => Ok(names_view(names@)),
        Err(e) => Err(e@),
    }
}

/// A list of values, or an error, as a mathematical value.
pub open spec fn objects_result_view(r: Result<Vec<StutterObject>, Error>) -> Result<
    Seq<ObjectView>,
    ErrorView,
> {
    match r {
        Ok(objects) => Ok(objects_view(objects@)),
        Err(e) => Err(e@),
    }
}

/// A name with its value, or an error, as a mathematical value.
pub open spec fn binding_result_view(r: Result<(String, StutterObject), Error>) -> Result<
    (Seq<char>, ObjectView),
    ErrorView,
> {
    match r {
        Ok((name, value)) => Ok((name@, value@)),
        Err(e) => Err(e@),
    }
}

/// The value that a token stands for by itself.
pub fn token_to_stutterobject(tok: &Token) -> (r: Result<StutterObject, Error>)
    ensures
        result_view(r) == atom(tok@),
{
    match tok {
        Token::Id(s) => Ok(StutterObject::Id(s.clone())),
        Token::Int(i) => Ok(StutterObject::Int(i.clone())),
        Token::Dec(f) => Ok(StutterObject::Dec(*f)),
        Token::Bool(b) => Ok(StutterObject::Bool(*b)),
        _ => Err(Error::Syntax(SyntaxFault::NotAnAtom)),
    }
}

/// The name that a parameter is.
pub fn param_to_string(param: &ParseTree) -> (r: Result<String, Error>)
    ensures
        match r {
            Ok(name) => name_of_leaf(param@) == Some(name@),
            Err(e) => name_of_leaf(param@) is None && e@ == ErrorView::Syntax(
                SyntaxFault::MalformedParameters,
            ),
        },
{
    match param {
        ParseTree::Leaf(tok) => match tok {
            Token::Id(name) => Ok(name.clone()),
            _ => Err(Error::Syntax(SyntaxFault::MalformedParameters)),
        },
        _ => Err(Error::Syntax(SyntaxFault::MalformedParameters)),
    }
}

/// The names of a parameter list.
pub fn get_params(params_as_tree: &ParseTree) -> (r: Result<Vec<String>, Error>)
    ensures
        names_result_view(r) == parameter_names(params_as_tree@),
{
    let mut params: Vec<String> = Vec::new();
    match params_as_tree {
        ParseTree::Branch(op, xs) => {
            let param = match op {
                Op::Func(name) => name.clone(),
                _ => {
                    return Err(Error::Syntax(SyntaxFault::MalformedParameters));
                },
            };
            params.push(param);
            let ghost rest = trees_view(xs@);
            proof {
                lemma_trees_view(xs@);
            }
            let mut i: usize = 0;
            while i < xs.len()
                invariant
                    i <= xs.len(),
                    params_as_tree@ == TreeView::Branch(op@, rest),
                    rest == trees_view(xs@),
                    rest.len() == xs.len(),
                    forall|j: int| 0 <= j < xs.len() ==> rest[j] == (#[trigger] xs[j])@,
                    params.len() == i + 1,
                    params[0]@ == op@->Func_0,
                    op@ is Func,
                    forall|j: int|
                        0 <= j < i ==> (#[trigger] name_of_leaf(rest[j])) == Some(params[j + 1]@),
                decreases xs.len() - i,
            {
                match param_to_string(&xs[i]) {
                    Ok(resolved_param) => {
                        params.push(resolved_param);
                    },
                    Err(e) => {
                        assert(name_of_leaf(rest[i as int]) is None);
                        return Err(e);
                    },
                }
                i += 1;
            }
            assert(names_view(params@) == seq![op@->Func_0] + Seq::new(
                rest.len(),
                |i: int| name_of_leaf(rest[i])->0,
            ));
        },
        _ => {
            return Err(Error::Syntax(SyntaxFault::MalformedParameters));
        },
    }
    Ok(params)
}

/// The names of a parameter list.
pub fn params_to_string(params: &ParseTree) -> (r: Result<Vec<String>, Error>)
    ensures
        names_result_view(r) == parameter_names(params@),
{
    let mut params_vec: Vec<String> = Vec::new();
    match params {
        ParseTree::Branch(op, term_vec) => {
            match op {
                Op::Func(first_term) => params_vec.push(first_term.clone()),
                _ => {
                    return Err(Error::Syntax(SyntaxFault::MalformedParameters));
                },
            };
            let ghost rest = trees_view(term_vec@);
            proof {
                lemma_trees_view(term_vec@);
            }
            let mut i: usize = 0;
            while i < term_vec.len()
                invariant
                    i <= term_vec.len(),
                    params@ == TreeView::Branch(op@, rest),
                    rest == trees_view(term_vec@),
                    rest.len() == term_vec.len(),
                    forall|j: int| 0 <= j < term_vec.len() ==> rest[j] == (#[trigger] term_vec[j])@,
                    params_vec.len() == i + 1,
                    params_vec[0]@ == op@->Func_0,
                    op@ is Func,
                    forall|j: int|
                        0 <= j < i ==> (#[trigger] name_of_leaf(rest[j])) == Some(
                            params_vec[j + 1]@,
                        ),
                decreases term_vec.len() - i,
            {
                match &term_vec[i] {
                    ParseTree::Leaf(Token::Id(s)) => {
                        params_vec.push(s.clone());
                    },
                    _ => {
                        assert(name_of_leaf(rest[i as int]) is None);
                        return Err(Error::Syntax(SyntaxFault::MalformedParameters));
                    },
                }
                i += 1;
            }
            assert(names_view(params_vec@) == seq![op@->Func_0] + Seq::new(
                rest.len(),
                |i: int| name_of_leaf(rest[i])->0,
            ));
            Ok(params_vec)
        },
        _ => Err(Error::Syntax(SyntaxFault::MalformedParameters)),
    }
}

/// The name that a tree is.
pub fn unpack_string_from_leaf(tree: &ParseTree) -> (r: Result<String, Error>)
    ensures
        match r {
            Ok(name) => name_of_leaf(tree@) == Some(name@),
            Err(e) => name_of_leaf(tree@) is None && e@ == ErrorView::Syntax(SyntaxFault::DefName),
        },
{
    match tree {
        ParseTree::Leaf(id) => match id {
            Token::Id(s) => Ok(s.clone()),
            _ => Err(Error::Syntax(SyntaxFault::DefName)),
        },
        ParseTree::Branch(_op, _v) => Err(Error::Syntax(SyntaxFault::DefName)),
    }
}

/// Whether the operator is the call by the name `lambda`.
pub fn is_lambda(op: &Op) -> (r: bool)
    ensures
        r == (op@ == OpView::Func(lambda_word())),
{
    match op {
        Op::Func(s) => text_is(s.as_str(), "lambda"),
        _ => false,
    }
}

/// The function that `(lambda params body)` is written for.
pub fn make_lambda(xs: &Vec<ParseTree>) -> (r: Result<StutterObject, Error>)
    ensures
        result_view(r) == lambda_literal(trees_view(xs@)),
{
    proof {
        lemma_trees_view(xs@);
    }
    if xs.len() < 2 {
        return Err(Error::Syntax(SyntaxFault::LambdaForm));
    }
    let params = &xs[0];
    let params_as_string = match params_to_string(params) {
        Ok(names) => names,
        Err(e) => {
            return Err(e);
        },
    };
    let expr = &xs[1];
    Ok(StutterObject::Lambda(params_as_string, expr.clone()))
}

/// Once a tree among the first has failed, the evaluation of all of them
/// is that failure.
proof fn lemma_all_evaluated_fails(
    trees: Seq<TreeView>,
    count: int,
    env: Scope,
    globals: Scope,
    answers: Answers,
    depth: nat,
)
    requires
        0 <= count <= trees.len(),
        all_evaluated(trees.take(count), env, globals, answers, depth).result is Err,
    ensures
        all_evaluated(trees, env, globals, answers, depth) == all_evaluated(
            trees.take(count),
            env,
            globals,
            answers,
            depth,
        ),
    decreases trees.len(),
{
    if count == trees.len() {
        assert(trees.take(count) == trees);
    } else {
        assert(trees.drop_last().take(count) == trees.take(count));
        lemma_all_evaluated_fails(trees.drop_last(), count, env, globals, answers, depth);
    }
}

/// Once an argument among the first has failed, the binding of more of
/// them is that failure.
proof fn lemma_arguments_bound_fails(
    params: Seq<Seq<char>>,
    args: Seq<TreeView>,
    count: nat,
    total: nat,
    env: Scope,
    globals: Scope,
    answers: Answers,
    depth: nat,
)
    requires
        count <= total,
        arguments_bound(params, args, count, env, globals, answers, depth).result is Err,
    ensures
        arguments_bound(params, args, total, env, globals, answers, depth) == arguments_bound(
            params,
            args,
            count,
            env,
            globals,
            answers,
            depth,
        ),
    decreases total,
{
    if count < total {
        lemma_arguments_bound_fails(
            params,
            args,
            count,
            (total - 1) as nat,
            env,
            globals,
            answers,
            depth,
        );
    }
}

/// Once a clause among the first has failed, the binding of more of them
/// is that failure.
proof fn lemma_clauses_bound_fails(
    clauses: Seq<TreeView>,
    count: nat,
    total: nat,
    env: Scope,
    globals: Scope,
    answers: Answers,
    depth: nat,
)
    requires
        count <= total,
        clauses_bound(clauses, count, env, globals, answers, depth).result is Err,
    ensures
        clauses_bound(clauses, total, env, globals, answers, depth) == clauses_bound(
            clauses,
            count,
            env,
            globals,
            answers,
            depth,
        ),
    decreases total,
{
    if count < total {
        lemma_clauses_bound_fails(
            clauses,
            count,
            (total - 1) as nat,
            env,
            globals,
            answers,
            depth,
        );
    }
}

/// The value of a tree. With `fully_eval_lambda` calls are made; without
/// it only literals and function literals have a value. `depth` is how
/// deep forms may be nested.
pub fn eval(
    tree: &ParseTree,
    env: &Env,
    global_env: &mut Env,
    fully_eval_lambda: bool,
    ledger: &Ledger,
    depth: usize,
) -> (r: Result<StutterObject, Error>)
    ensures
        result_view(r) == evaluated(
            tree@,
            env@,
            old(global_env)@,
            fully_eval_lambda,
            ledger@,
            depth as nat,
        ).result,
        final(global_env)@ == evaluated(
            tree@,
            env@,
            old(global_env)@,
            fully_eval_lambda,
            ledger@,
            depth as nat,
        ).globals,
    decreases depth, 0nat, 0nat,
{
    if depth == 0 {
        return Err(Error::ResourceExhausted);
    }
    match tree {
        ParseTree::Branch(op, xs) => {
            if is_lambda(op) {
                make_lambda(xs)
            } else if fully_eval_lambda {
                eval_branch(op, xs, env, global_env, ledger, depth - 1)
            } else {
                match op {
                    Op::Func(_) => Err(Error::Syntax(SyntaxFault::BareCall)),
                    _ => Err(Error::Syntax(SyntaxFault::NotQuotable)),
                }
            }
        },
        ParseTree::Leaf(tok) => {
            let obj = match token_to_stutterobject(tok) {
                Ok(obj) => obj,
                Err(e) => {
                    return Err(e);
                },
            };
            match obj {
                StutterObject::Id(_) => lookup_env(&obj, env, global_env),
                _ => Ok(obj),
            }
        },
    }
}

/// The values of the trees, each evaluated in turn.
pub fn resolve_exprs(
    xs: &Vec<ParseTree>,
    env: &Env,
    global_env: &mut Env,
    ledger: &Ledger,
    depth: usize,
) -> (r: Result<Vec<StutterObject>, Error>)
    ensures
        objects_result_view(r) == all_evaluated(
            trees_view(xs@),
            env@,
            old(global_env)@,
            ledger@,
            depth as nat,
        ).result,
        final(global_env)@ == all_evaluated(
            trees_view(xs@),
            env@,
            old(global_env)@,
            ledger@,
            depth as nat,
        ).globals,
    decreases depth, 1nat, xs.len(),
{
    let ghost trees = trees_view(xs@);
    let ghost start = global_env@;
    proof {
        lemma_trees_view(xs@);
    }
    let mut out: Vec<StutterObject> = Vec::new();
    let mut i: usize = 0;
    assert(objects_view(out@) == Seq::<ObjectView>::empty());
    while i < xs.len()
        invariant
            i <= xs.len(),
            start == old(global_env)@,
            trees == trees_view(xs@),
            trees.len() == xs.len(),
            forall|j: int| 0 <= j < xs.len() ==> trees[j] == (#[trigger] xs[j])@,
            all_evaluated(trees.take(i as int), env@, start, ledger@, depth as nat).result == Ok::<
                Seq<ObjectView>,
                ErrorView,
            >(objects_view(out@)),
            all_evaluated(trees.take(i as int), env@, start, ledger@, depth as nat).globals
                == global_env@,
        decreases xs.len() - i,
    {
        proof {
            assert(trees.take(i + 1).drop_last() == trees.take(i as int));
            assert(trees.take(i + 1).last() == xs[i as int]@);
        }
        let ghost before = objects_view(out@);
        match eval(&xs[i], env, global_env, true, ledger, depth) {
            Ok(value) => {
                out.push(value);
                proof {
                    lemma_objects_view(out@);
                    assert(objects_view(out@) == before.push(value@));
                }
            },
            Err(e) => {
                proof {
                    lemma_all_evaluated_fails(trees, i + 1, env@, start, ledger@, depth as nat);
                }
                return Err(e);
            },
        }
        i += 1;
    }
    assert(trees.take(i as int) == trees);
    Ok(out)
}

/// A name with the value of a function literal or of a single token.
pub fn eval_lambda_params(
    name: &String,
    val: &ParseTree,
    env: &Env,
    global_env: &mut Env,
    ledger: &Ledger,
    depth: usize,
) -> (r: Result<(String, StutterObject), Error>)
    ensures
        binding_result_view(r) == lambda_bound(
            name@,
            val@,
            env@,
            old(global_env)@,
            ledger@,
            depth as nat,
        ).result,
        final(global_env)@ == lambda_bound(
            name@,
            val@,
            env@,
            old(global_env)@,
            ledger@,
            depth as nat,
        ).globals,
    decreases depth, 1nat, 0nat,
{
    match val {
        ParseTree::Branch(tok, params_and_func) => match tok {
            Op::Func(f_name) => {
                if text_is(f_name.as_str(), "lambda") {
                    proof {
                        lemma_trees_view(params_and_func@);
                    }
                    if params_and_func.len() < 2 {
                        return Err(Error::Syntax(SyntaxFault::LambdaForm));
                    }
                    let params = match get_params(&params_and_func[0]) {
                        Ok(params) => params,
                        Err(e) => {
                            return Err(e);
                        },
                    };
                    let func = &params_and_func[1];
                    Ok((name.clone(), StutterObject::Lambda(params, func.clone())))
                } else {
                    Err(Error::Syntax(SyntaxFault::ExpectingLambda))
                }
            },
            _ => Err(Error::Syntax(SyntaxFault::ExpectingLambda)),
        },
        _ => match eval(val, env, global_env, true, ledger, depth) {
            Ok(value) => Ok((name.clone(), value)),
            Err(e) => Err(e),
        },
    }
}

/// A call by name: a function is applied to its arguments, any other
/// value is given back as it is.
pub fn eval_func(
    name: &String,
    xs: &Vec<ParseTree>,
    env: &Env,
    global_env: &mut Env,
    ledger: &Ledger,
    depth: usize,
) -> (r: Result<StutterObject, Error>)
    ensures
        result_view(r) == call_evaluated(
            name@,
            trees_view(xs@),
            env@,
            old(global_env)@,
            ledger@,
            depth as nat,
        ).result,
        final(global_env)@ == call_evaluated(
            name@,
            trees_view(xs@),
            env@,
            old(global_env)@,
            ledger@,
            depth as nat,
        ).globals,
    decreases depth, 4nat, 0nat,
{
    let body = match lookup_env_string(name, env, global_env) {
        Ok(body) => body,
        Err(e) => {
            return Err(e);
        },
    };
    match body {
        StutterObject::Lambda(params, expr) => {
            let ghost names = names_view(params@);
            let ghost args = trees_view(xs@);
            let ghost start = global_env@;
            proof {
                lemma_trees_view(xs@);
            }
            let count: usize = if params.len() <= xs.len() {
                params.len()
            } else {
                xs.len()
            };
            let mut new_env = env.clone();
            let mut i: usize = 0;
            while i < count
                invariant
                    i <= count,
                    start == old(global_env)@,
                    crate::semantics::looked_up(name@, env@, start) == Ok::<ObjectView, ErrorView>(
                        ObjectView::Lambda(names, expr@),
                    ),
                    count == if params.len() <= xs.len() {
                        params.len()
                    } else {
                        xs.len()
                    },
                    names.len() == params.len(),
                    args.len() == xs.len(),
                    names == names_view(params@),
                    args == trees_view(xs@),
                    forall|j: int| 0 <= j < xs.len() ==> args[j] == (#[trigger] xs[j])@,
                    arguments_bound(
                        names,
                        args,
                        i as nat,
                        env@,
                        start,
                        ledger@,
                        depth as nat,
                    ).result == Ok::<Scope, ErrorView>(new_env@),
                    arguments_bound(
                        names,
                        args,
                        i as nat,
                        env@,
                        start,
                        ledger@,
                        depth as nat,
                    ).globals == global_env@,
                decreases count - i,
            {
                match eval(&xs[i], env, global_env, true, ledger, depth) {
                    Ok(resolved_arg) => {
                        new_env = new_env.insert(params[i].clone(), resolved_arg);
                    },
                    Err(e) => {
                        proof {
                            lemma_arguments_bound_fails(
                                names,
                                args,
                                (i + 1) as nat,
                                count as nat,
                                env@,
                                start,
                                ledger@,
                                depth as nat,
                            );
                        }
                        return Err(e);
                    },
                }
                i += 1;
            }
            eval(&expr, &new_env, global_env, true, ledger, depth)
        },
        other => Ok(other),
    }
}

/// The name and the value that a clause of `let` binds.
pub fn bind_clause(
    branch: &ParseTree,
    env: &Env,
    global_env: &mut Env,
    ledger: &Ledger,
    depth: usize,
) -> (r: Result<(String, StutterObject), Error>)
    ensures
        binding_result_view(r) == clause_bound(
            branch@,
            env@,
            old(global_env)@,
            ledger@,
            depth as nat,
        ).result,
        final(global_env)@ == clause_bound(
            branch@,
            env@,
            old(global_env)@,
            ledger@,
            depth as nat,
        ).globals,
    decreases depth, 2nat, 0nat,
{
    match branch {
        ParseTree::Branch(var_op, val_vec) => match var_op {
            Op::Func(name) => {
                proof {
                    lemma_trees_view(val_vec@);
                }
                if val_vec.len() != 1 {
                    Err(Error::Syntax(SyntaxFault::LetClause))
                } else {
                    match &val_vec[0] {
                        ParseTree::Branch(Op::List, xs) => {
                            match resolve_exprs(xs, env, global_env, ledger, depth) {
                                Ok(resolved) => Ok((name.clone(), StutterObject::List(resolved))),
                                Err(e) => Err(e),
                            }
                        },
                        ParseTree::Branch(_func, _sub_expr) => {
                            match eval(&val_vec[0], env, global_env, true, ledger, depth) {
                                Ok(value) => Ok((name.clone(), value)),
                                Err(e) => Err(e),
                            }
                        },
                        _ => eval_lambda_params(name, &val_vec[0], env, global_env, ledger, depth),
                    }
                }
            },
            _ => Err(Error::Syntax(SyntaxFault::LetClause)),
        },
        _ => Err(Error::Syntax(SyntaxFault::LetClause)),
    }
}

/// `let`: the last child evaluated under the bindings of the clauses
/// before it, each clause under the bindings of those before it.
pub fn eval_let(
    xs: &Vec<ParseTree>,
    env: &Env,
    global_env: &mut Env,
    ledger: &Ledger,
    depth: usize,
) -> (r: Result<StutterObject, Error>)
    ensures
        result_view(r) == let_evaluated(
            trees_view(xs@),
            env@,
            old(global_env)@,
            ledger@,
            depth as nat,
        ).result,
        final(global_env)@ == let_evaluated(
            trees_view(xs@),
            env@,
            old(global_env)@,
            ledger@,
            depth as nat,
        ).globals,
    decreases depth, 4nat, 0nat,
{
    if xs.len() < 2 {
        return Err(Error::Syntax(SyntaxFault::LetForm));
    }
    let ghost clauses = trees_view(xs@);
    let ghost start = global_env@;
    proof {
        lemma_trees_view(xs@);
    }
    let expr = &xs[xs.len() - 1];
    let mut new_env = env.clone();
    let count: usize = xs.len() - 1;
    let mut i: usize = 0;
    while i < count
        invariant
            i <= count,
            start == old(global_env)@,
            count == xs.len() - 1,
            clauses == trees_view(xs@),
            forall|j: int| 0 <= j < xs.len() ==> clauses[j] == (#[trigger] xs[j])@,
            clauses_bound(clauses, i as nat, env@, start, ledger@, depth as nat).result == Ok::<
                Scope,
                ErrorView,
            >(new_env@),
            clauses_bound(clauses, i as nat, env@, start, ledger@, depth as nat).globals
                == global_env@,
        decreases count - i,
    {
        match bind_clause(&xs[i], &new_env, global_env, ledger, depth) {
            Ok((var, val)) => {
                new_env = new_env.insert(var, val);
            },
            Err(e) => {
                proof {
                    lemma_clauses_bound_fails(
                        clauses,
                        (i + 1) as nat,
                        count as nat,
                        env@,
                        start,
                        ledger@,
                        depth as nat,
                    );
                }
                return Err(e);
            },
        }
        i += 1;
    }
    eval(expr, &new_env, global_env, true, ledger, depth)
}

/// The name and the value that `def` is to bind globally.
pub fn eval_def(
    xs: &Vec<ParseTree>,
    env: &Env,
    global_env: &mut Env,
    ledger: &Ledger,
    depth: usize,
) -> (r: Result<(String, StutterObject), Error>)
    ensures
        binding_result_view(r) == defined(
            trees_view(xs@),
            env@,
            old(global_env)@,
            ledger@,
            depth as nat,
        ).result,
        final(global_env)@ == defined(
            trees_view(xs@),
            env@,
            old(global_env)@,
            ledger@,
            depth as nat,
        ).globals,
    decreases depth, 1nat, 0nat,
{
    proof {
        lemma_trees_view(xs@);
    }
    if xs.len() != 2 {
        return Err(Error::Syntax(SyntaxFault::DefForm));
    }
    let name = match unpack_string_from_leaf(&xs[0]) {
        Ok(name) => name,
        Err(e) => {
            return Err(e);
        },
    };
    let expr = &xs[1];
    match eval(expr, env, global_env, true, ledger, depth) {
        Ok(value) => Ok((name, value)),
        Err(e) => Err(e),
    }
}

/// The value of a form with the operator `op`, where calls are made.
pub fn eval_branch(
    op: &Op,
    xs: &Vec<ParseTree>,
    env: &Env,
    global_env: &mut Env,
    ledger: &Ledger,
    depth: usize,
) -> (r: Result<StutterObject, Error>)
    ensures
        result_view(r) == branch_evaluated(
            op@,
            trees_view(xs@),
            env@,
            old(global_env)@,
            ledger@,
            depth as nat,
        ).result,
        final(global_env)@ == branch_evaluated(
            op@,
            trees_view(xs@),
            env@,
            old(global_env)@,
            ledger@,
            depth as nat,
        ).globals,
    decreases depth, 5nat, 0nat,
{
    proof {
        lemma_trees_view(xs@);
    }
    match op {
        Op::Add
        | Op::Pow
        | Op::Sub
        | Op::Mul
        | Op::Div
        | Op::Mod
        | Op::Eq
        | Op::Gt
        | Op::Lt
        | Op::Gte
        | Op::Lte => {
            match resolve_exprs(xs, env, global_env, ledger, depth) {
                Ok(v) => reduce(op, &v, env, global_env, ledger),
                Err(e) => Err(e),
            }
        },
        Op::Func(name) => eval_func(name, xs, env, global_env, ledger, depth),
        Op::Let => eval_let(xs, env, global_env, ledger, depth),
        Op::Def => {
            match eval_def(xs, env, global_env, ledger, depth) {
                Ok((name, value)) => {
                    global_env.define(name, value);
                    Ok(StutterObject::Nil)
                },
                Err(e) => Err(e),
            }
        },
        Op::Quote => {
            if xs.len() != 1 {
                Err(Error::Syntax(SyntaxFault::QuoteForm))
            } else {
                eval(&xs[0], env, global_env, false, ledger, depth)
            }
        },
        Op::List => {
            match resolve_exprs(xs, env, global_env, ledger, depth) {
                Ok(v) => Ok(StutterObject::List(v)),
                Err(e) => Err(e),
            }
        },
        Op::Index => {
            match resolve_exprs(xs, env, global_env, ledger, depth) {
                Ok(v) => list_index(&v),
                Err(e) => Err(e),
            }
        },
        Op::Take => {
            match resolve_exprs(xs, env, global_env, ledger, depth) {
                Ok(v) => list_take(&v),
                Err(e) => Err(e),
            }
        },
        Op::Drop => {
            match resolve_exprs(xs, env, global_env, ledger, depth) {
                Ok(v) => list_drop(&v),
                Err(e) => Err(e),
            }
        },
        Op::Append => {
            match resolve_exprs(xs, env, global_env, ledger, depth) {
                Ok(v) => list_append(&v),
                Err(e) => Err(e),
            }
        },
        Op::Range => {
            match resolve_exprs(xs, env, global_env, ledger, depth) {
                Ok(v) => list_range(&v),
                Err(e) => Err(e),
            }
        },
        Op::Cat => {
            match resolve_exprs(xs, env, global_env, ledger, depth) {
                Ok(v) => list_cat(&v),
                Err(e) => Err(e),
            }
        },
        Op::Len => {
            match resolve_exprs(xs, env, global_env, ledger, depth) {
                Ok(v) => list_len(&v),
                Err(e) => Err(e),
            }
        },
        Op::If => {
            if xs.len() != 3 {
                Err(Error::Syntax(SyntaxFault::IfForm))
            } else {
                let condition = match eval(&xs[0], env, global_env, true, ledger, depth) {
                    Ok(condition) => condition,
                    Err(e) => {
                        return Err(e);
                    },
                };
                let true_path = &xs[1];
                let false_path = &xs[2];
                let path = match condition {
                    StutterObject::Bool(true) => true_path,
                    StutterObject::Bool(false) => false_path,
                    _ => {
                        return Err(Error::Type(TypeFault::Condition));
                    },
                };
                eval(path, env, global_env, true, ledger, depth)
            }
        },
    }
}

} // verus!
