//! Laws of the language, proved of what evaluation gives.

use crate::error::ErrorView;
use crate::error::SyntaxFault;
use crate::interpreter::ran;
use crate::lexer::is_blank;
use crate::lexer::lexed;
use crate::lexer::lexed_so_far;
use crate::lexer::LexState;
use crate::semantics::all_evaluated;
use crate::semantics::applied;
use crate::semantics::arguments_bound;
use crate::semantics::branch_evaluated;
use crate::semantics::call_evaluated;
use crate::semantics::clause_bound;
use crate::semantics::clauses_bound;
use crate::semantics::concatenated;
use crate::semantics::dropped;
use crate::semantics::evaluated;
use crate::semantics::joined;
use crate::semantics::lambda_bound;
use crate::semantics::lambda_literal;
use crate::semantics::lambda_word;
use crate::semantics::let_evaluated;
use crate::semantics::looked_up;
use crate::semantics::operated;
use crate::semantics::parameter_names;
use crate::semantics::reduced;
use crate::semantics::taken;
use crate::semantics::Answers;
use crate::semantics::Scope;
use crate::semantics::Step;
use crate::token::OpView;
use crate::token::TokenView;
use crate::tree::ObjectView;
use crate::tree::TreeView;
use vstd::prelude::*;

verus! {

/// The tree of an integer literal.
pub open spec fn int_leaf(n: int) -> TreeView {
    TreeView::Leaf(TokenView::Int(n))
}

/// The tree of a name.
pub open spec fn name_leaf(name: Seq<char>) -> TreeView {
    TreeView::Leaf(TokenView::Id(name))
}

/// The tree of `(op left right)`.
pub open spec fn binary_form(op: OpView, left: TreeView, right: TreeView) -> TreeView {
    TreeView::Branch(op, seq![left, right])
}

/// A step that gives `value` and leaves the global definitions as they
/// are.
pub open spec fn steady(value: ObjectView, globals: Scope) -> Step<ObjectView> {
    Step { result: Ok(value), globals }
}

/// Trees that each evaluate to a value without a new definition evaluate
/// together to the list of those values.
pub proof fn lemma_all_evaluated_steady(
    trees: Seq<TreeView>,
    values: Seq<ObjectView>,
    env: Scope,
    globals: Scope,
    answers: Answers,
    depth: nat,
)
    requires
        trees.len() == values.len(),
        forall|i: int|
            0 <= i < trees.len() ==> evaluated(
                #[trigger] trees[i],
                env,
                globals,
                true,
                answers,
                depth,
            ) == steady(values[i], globals),
    ensures
        all_evaluated(trees, env, globals, answers, depth) == (Step {
            result: Ok(values),
            globals,
        }),
    decreases trees.len(),
{
    if trees.len() == 0 {
        assert(values == Seq::<ObjectView>::empty());
    } else {
        lemma_all_evaluated_steady(
            trees.drop_last(),
            values.drop_last(),
            env,
            globals,
            answers,
            depth,
        );
        assert(trees.last() == trees[trees.len() - 1]);
        assert(values.drop_last().push(values.last()) == values);
    }
}

/// An operator of arithmetic or comparison on two operands that evaluate
/// without a new definition gives what it gives of their values.
pub proof fn lemma_binary_form(
    op: OpView,
    left: TreeView,
    right: TreeView,
    x: ObjectView,
    y: ObjectView,
    env: Scope,
    globals: Scope,
    answers: Answers,
    depth: nat,
)
    requires
        depth >= 1,
        crate::token::numeric_of(op) is Some,
        evaluated(left, env, globals, true, answers, (depth - 1) as nat) == steady(x, globals),
        evaluated(right, env, globals, true, answers, (depth - 1) as nat) == steady(y, globals),
    ensures
        evaluated(binary_form(op, left, right), env, globals, true, answers, depth) == (Step {
            result: applied(op, x, y, env, globals, answers),
            globals,
        }),
{
    let trees = seq![left, right];
    let values = seq![x, y];
    let inner = (depth - 1) as nat;
    lemma_all_evaluated_steady(trees, values, env, globals, answers, inner);
    assert(values.drop_last() == seq![x]);
    assert(reduced(op, seq![x], env, globals, answers) == Ok::<ObjectView, ErrorView>(x));
    assert(reduced(op, values, env, globals, answers) == applied(
        op,
        x,
        y,
        env,
        globals,
        answers,
    ));
    assert(operated(op, values, env, globals, answers) == reduced(
        op,
        values,
        env,
        globals,
        answers,
    ));
    assert(branch_evaluated(op, trees, env, globals, answers, inner) == (Step {
        result: operated(op, values, env, globals, answers),
        globals,
    }));
}

/// For all integers `a` and `b`, `(- (+ a b) b)` is `a`, whatever their
/// size, and defines nothing.
pub proof fn law_sum_less_addend(
    a: int,
    b: int,
    env: Scope,
    globals: Scope,
    answers: Answers,
    depth: nat,
)
    requires
        depth >= 3,
    ensures
        evaluated(
            binary_form(
                OpView::Sub,
                binary_form(OpView::Add, int_leaf(a), int_leaf(b)),
                int_leaf(b),
            ),
            env,
            globals,
            true,
            answers,
            depth,
        ) == steady(ObjectView::Int(a), globals),
{
    let inner = (depth - 1) as nat;
    let innermost = (depth - 2) as nat;
    lemma_binary_form(
        OpView::Add,
        int_leaf(a),
        int_leaf(b),
        ObjectView::Int(a),
        ObjectView::Int(b),
        env,
        globals,
        answers,
        inner,
    );
    lemma_binary_form(
        OpView::Sub,
        binary_form(OpView::Add, int_leaf(a), int_leaf(b)),
        int_leaf(b),
        ObjectView::Int(a + b),
        ObjectView::Int(b),
        env,
        globals,
        answers,
        depth,
    );
}

/// For all integers `a` and `b`, `(/ a b)` never gives an integer: it
/// gives a decimal, or no value.
pub proof fn law_quotient_is_decimal(
    a: int,
    b: int,
    env: Scope,
    globals: Scope,
    answers: Answers,
    depth: nat,
)
    ensures
        evaluated(
            binary_form(OpView::Div, int_leaf(a), int_leaf(b)),
            env,
            globals,
            true,
            answers,
            depth,
        ).result matches Ok(value) ==> value is Dec,
{
    if depth >= 2 {
        lemma_binary_form(
            OpView::Div,
            int_leaf(a),
            int_leaf(b),
            ObjectView::Int(a),
            ObjectView::Int(b),
            env,
            globals,
            answers,
            depth,
        );
    } else if depth == 1 {
        let trees = seq![int_leaf(a), int_leaf(b)];
        assert(trees.drop_last() == seq![int_leaf(a)]);
        assert(trees.drop_last().drop_last() == Seq::<TreeView>::empty());
        assert(all_evaluated(Seq::<TreeView>::empty(), env, globals, answers, 0).result is Ok);
        assert(evaluated(int_leaf(a), env, globals, true, answers, 0).result is Err);
        assert(all_evaluated(seq![int_leaf(a)], env, globals, answers, 0).result is Err);
        assert(all_evaluated(trees, env, globals, answers, 0).result is Err);
        assert(branch_evaluated(OpView::Div, trees, env, globals, answers, 0).result is Err);
    }
}

/// Whether the operator evaluates all its operands before it does
/// anything else.
pub open spec fn is_strict(op: OpView) -> bool {
    !(op is Func || op is Let || op is Def || op is Quote || op is If)
}

/// A strict operator on operands that evaluate without a new definition
/// gives what it gives of their values.
pub proof fn lemma_strict_form(
    op: OpView,
    trees: Seq<TreeView>,
    values: Seq<ObjectView>,
    env: Scope,
    globals: Scope,
    answers: Answers,
    depth: nat,
)
    requires
        depth >= 1,
        is_strict(op),
        trees.len() == values.len(),
        forall|i: int|
            0 <= i < trees.len() ==> evaluated(
                #[trigger] trees[i],
                env,
                globals,
                true,
                answers,
                (depth - 1) as nat,
            ) == steady(values[i], globals),
    ensures
        evaluated(TreeView::Branch(op, trees), env, globals, true, answers, depth) == (Step {
            result: operated(op, values, env, globals, answers),
            globals,
        }),
{
    let inner = (depth - 1) as nat;
    lemma_all_evaluated_steady(trees, values, env, globals, answers, inner);
    assert(branch_evaluated(op, trees, env, globals, answers, inner) == (Step {
        result: operated(op, values, env, globals, answers),
        globals,
    }));
}

/// For every list and every offset from one up to its length,
/// `(cat (take i l) (drop i l))` is the list again, where `l` is a name
/// bound to the list. Offset zero is left out but for the empty list:
/// `drop` gives no items at offset zero.
pub proof fn law_take_and_drop_make_the_list(
    i: int,
    items: Seq<ObjectView>,
    l: Seq<char>,
    env: Scope,
    globals: Scope,
    answers: Answers,
    depth: nat,
)
    requires
        depth >= 3,
        items.len() <= usize::MAX,
        0 <= i <= items.len(),
        i != 0 || items.len() == 0,
        env.contains_key(l),
        env[l] == ObjectView::List(items),
    ensures
        evaluated(
            binary_form(
                OpView::Cat,
                binary_form(OpView::Take, int_leaf(i), name_leaf(l)),
                binary_form(OpView::Drop, int_leaf(i), name_leaf(l)),
            ),
            env,
            globals,
            true,
            answers,
            depth,
        ) == steady(ObjectView::List(items), globals),
{
    let inner = (depth - 1) as nat;
    let list = ObjectView::List(items);
    let operands = seq![ObjectView::Int(i), list];
    let parts = seq![int_leaf(i), name_leaf(l)];
    lemma_strict_form(OpView::Take, parts, operands, env, globals, answers, inner);
    lemma_strict_form(OpView::Drop, parts, operands, env, globals, answers, inner);
    let front = ObjectView::List(items.take(i));
    let back = if i == 0 {
        ObjectView::List(Seq::empty())
    } else {
        ObjectView::List(items.skip(i))
    };
    assert(taken(operands) == Ok::<ObjectView, ErrorView>(front));
    assert(dropped(operands) == Ok::<ObjectView, ErrorView>(back));
    let halves = seq![front, back];
    lemma_strict_form(
        OpView::Cat,
        seq![
            binary_form(OpView::Take, int_leaf(i), name_leaf(l)),
            binary_form(OpView::Drop, int_leaf(i), name_leaf(l)),
        ],
        halves,
        env,
        globals,
        answers,
        depth,
    );
    assert(halves.drop_last() == seq![front]);
    assert(halves.drop_last().drop_last() == Seq::<ObjectView>::empty());
    assert(joined(Seq::<ObjectView>::empty()) == Some(Seq::<ObjectView>::empty()));
    assert(joined(seq![front]) == Some(Seq::<ObjectView>::empty() + items.take(i)));
    assert(joined(halves) == Some(
        Seq::<ObjectView>::empty() + items.take(i) + back->List_0,
    ));
    assert(Seq::<ObjectView>::empty() + items.take(i) + back->List_0 == items);
    assert(concatenated(halves) == Ok::<ObjectView, ErrorView>(list));
}

/// The tree of `(lambda (x) body)`.
pub open spec fn lambda_form(x: Seq<char>, body: TreeView) -> TreeView {
    TreeView::Branch(
        OpView::Func(lambda_word()),
        seq![TreeView::Branch(OpView::Func(x), Seq::empty()), body],
    )
}

/// A function does not keep the scope that it was written in. Let
/// `(lambda (x) g)` be evaluated where `g` is bound to `a`, and let the
/// function be called by the name `f` where `g` is bound to `b`: the call
/// gives `b`.
pub proof fn law_free_names_are_bound_at_the_call(
    f: Seq<char>,
    g: Seq<char>,
    x: Seq<char>,
    a: ObjectView,
    b: ObjectView,
    written: Scope,
    called: Scope,
    globals: Scope,
    answers: Answers,
    depth: nat,
)
    requires
        depth >= 2,
        f != lambda_word(),
        x != g,
        written.contains_key(g),
        written[g] == a,
        called.contains_key(g),
        called[g] == b,
        called.contains_key(f),
        evaluated(lambda_form(x, name_leaf(g)), written, globals, true, answers, depth).result
            == Ok::<ObjectView, ErrorView>(called[f]),
    ensures
        evaluated(
            TreeView::Branch(OpView::Func(f), seq![int_leaf(0)]),
            called,
            globals,
            true,
            answers,
            depth,
        ) == steady(b, globals),
{
    let inner = (depth - 1) as nat;
    let params = TreeView::Branch(OpView::Func(x), Seq::empty());
    let parts = seq![params, name_leaf(g)];
    let names = seq![x];
    assert(parameter_names(params) == Ok::<Seq<Seq<char>>, ErrorView>(
        seq![x] + Seq::new(0, |i: int| crate::semantics::name_of_leaf(Seq::<TreeView>::empty()[i])->0),
    ));
    assert(seq![x] + Seq::new(
        0,
        |i: int| crate::semantics::name_of_leaf(Seq::<TreeView>::empty()[i])->0,
    ) == names);
    assert(lambda_literal(parts) == Ok::<ObjectView, ErrorView>(
        ObjectView::Lambda(names, name_leaf(g)),
    ));
    assert(called[f] == ObjectView::Lambda(names, name_leaf(g)));
    let args = seq![int_leaf(0)];
    assert(arguments_bound(names, args, 0, called, globals, answers, inner) == (Step {
        result: Ok(called),
        globals,
    }));
    let bound = called.insert(x, ObjectView::Int(0));
    assert(arguments_bound(names, args, 1, called, globals, answers, inner) == (Step {
        result: Ok(bound),
        globals,
    }));
    assert(looked_up(g, bound, globals) == Ok::<ObjectView, ErrorView>(b));
    assert(evaluated(name_leaf(g), bound, globals, true, answers, inner) == steady(b, globals));
    assert(call_evaluated(f, args, called, globals, answers, inner) == steady(b, globals));
    assert(branch_evaluated(OpView::Func(f), args, called, globals, answers, inner) == steady(
        b,
        globals,
    ));
}

/// `if` evaluates the branch that its condition chooses and never the
/// other: where the condition holds, `(if c t e)` is `t` after `c`,
/// whatever `e` is; where it does not hold, it is `e` after `c`, whatever
/// `t` is.
pub proof fn law_if_leaves_the_other_branch(
    c: TreeView,
    t: TreeView,
    e: TreeView,
    chosen: bool,
    env: Scope,
    globals: Scope,
    answers: Answers,
    depth: nat,
)
    requires
        depth >= 1,
        evaluated(c, env, globals, true, answers, (depth - 1) as nat).result == Ok::<
            ObjectView,
            ErrorView,
        >(ObjectView::Bool(chosen)),
    ensures
        evaluated(TreeView::Branch(OpView::If, seq![c, t, e]), env, globals, true, answers, depth)
            == evaluated(
            if chosen {
                t
            } else {
                e
            },
            env,
            evaluated(c, env, globals, true, answers, (depth - 1) as nat).globals,
            true,
            answers,
            (depth - 1) as nat,
        ),
{
    let inner = (depth - 1) as nat;
    let children = seq![c, t, e];
    assert(branch_evaluated(OpView::If, children, env, globals, answers, inner) == evaluated(
        if chosen {
            t
        } else {
            e
        },
        env,
        evaluated(c, env, globals, true, answers, inner).globals,
        true,
        answers,
        inner,
    ));
}

/// Where calls are not made, as under `quote`, a form has a value only if
/// it is a function literal: any other form is refused, and nothing of it
/// is evaluated.
pub proof fn law_only_literals_are_quoted(
    op: OpView,
    children: Seq<TreeView>,
    env: Scope,
    globals: Scope,
    answers: Answers,
    depth: nat,
)
    requires
        depth >= 1,
        op != OpView::Func(lambda_word()),
    ensures
        evaluated(TreeView::Branch(op, children), env, globals, false, answers, depth)
            == crate::semantics::failed::<ObjectView>(
            ErrorView::Syntax(
                if op is Func {
                    SyntaxFault::BareCall
                } else {
                    SyntaxFault::NotQuotable
                },
            ),
            globals,
        ),
{
}

/// The clauses of `let` bind in sequence: for every integer `a` and names
/// `x` and `y` that differ, `(let (x a) (y (+ x 1)) (+ x y))` is
/// `a + (a + 1)`.
pub proof fn law_let_binds_in_sequence(
    a: int,
    x: Seq<char>,
    y: Seq<char>,
    env: Scope,
    globals: Scope,
    answers: Answers,
    depth: nat,
)
    requires
        depth >= 3,
        x != y,
    ensures
        evaluated(
            TreeView::Branch(
                OpView::Let,
                seq![
                    TreeView::Branch(OpView::Func(x), seq![int_leaf(a)]),
                    TreeView::Branch(
                        OpView::Func(y),
                        seq![binary_form(OpView::Add, name_leaf(x), int_leaf(1))],
                    ),
                    binary_form(OpView::Add, name_leaf(x), name_leaf(y)),
                ],
            ),
            env,
            globals,
            true,
            answers,
            depth,
        ) == steady(ObjectView::Int(a + (a + 1)), globals),
{
    let inner = (depth - 1) as nat;
    let first = TreeView::Branch(OpView::Func(x), seq![int_leaf(a)]);
    let next = binary_form(OpView::Add, name_leaf(x), int_leaf(1));
    let second = TreeView::Branch(OpView::Func(y), seq![next]);
    let body = binary_form(OpView::Add, name_leaf(x), name_leaf(y));
    let children = seq![first, second, body];
    let one = env.insert(x, ObjectView::Int(a));
    let two = one.insert(y, ObjectView::Int(a + 1));
    assert(lambda_bound(x, int_leaf(a), env, globals, answers, inner) == (Step {
        result: Ok((x, ObjectView::Int(a))),
        globals,
    }));
    assert(clause_bound(first, env, globals, answers, inner) == (Step {
        result: Ok((x, ObjectView::Int(a))),
        globals,
    }));
    assert(clauses_bound(children, 0, env, globals, answers, inner) == (Step {
        result: Ok(env),
        globals,
    }));
    assert(clauses_bound(children, 1, env, globals, answers, inner) == (Step {
        result: Ok(one),
        globals,
    }));
    lemma_binary_form(
        OpView::Add,
        name_leaf(x),
        int_leaf(1),
        ObjectView::Int(a),
        ObjectView::Int(1),
        one,
        globals,
        answers,
        inner,
    );
    assert(clause_bound(second, one, globals, answers, inner) == (Step {
        result: Ok((y, ObjectView::Int(a + 1))),
        globals,
    }));
    assert(clauses_bound(children, 2, env, globals, answers, inner) == (Step {
        result: Ok(two),
        globals,
    }));
    lemma_binary_form(
        OpView::Add,
        name_leaf(x),
        name_leaf(y),
        ObjectView::Int(a),
        ObjectView::Int(a + 1),
        two,
        globals,
        answers,
        inner,
    );
    assert(let_evaluated(children, env, globals, answers, inner) == steady(
        ObjectView::Int(a + (a + 1)),
        globals,
    ));
    assert(branch_evaluated(OpView::Let, children, env, globals, answers, inner) == steady(
        ObjectView::Int(a + (a + 1)),
        globals,
    ));
}

/// Whether the text holds blanks only.
pub open spec fn is_blank_text(text: Seq<char>) -> bool {
    forall|i: int| 0 <= i < text.len() ==> is_blank(#[trigger] text[i])
}

/// Blanks leave the lexer where it started.
pub proof fn lemma_blanks_lex_to_nothing(text: Seq<char>, answers: Answers)
    requires
        is_blank_text(text),
    ensures
        lexed_so_far(text, answers) == Ok::<LexState, ErrorView>(
            LexState { tokens: Seq::empty(), pending: Seq::empty(), in_comment: false },
        ),
    decreases text.len(),
{
    if text.len() > 0 {
        let before = text.drop_last();
        assert forall|i: int| 0 <= i < before.len() implies is_blank(#[trigger] before[i]) by {
            assert(before[i] == text[i]);
        }
        lemma_blanks_lex_to_nothing(before, answers);
        assert(is_blank(text[text.len() - 1]));
    }
}

/// A text of blanks only, or of nothing, holds no token and evaluates to
/// `Nil`, with no error and no new definition.
pub proof fn law_blank_text_is_nil(
    text: Seq<char>,
    globals: Scope,
    answers: Answers,
    depth: nat,
)
    requires
        is_blank_text(text),
    ensures
        lexed(text, answers) == Ok::<Seq<TokenView>, ErrorView>(Seq::empty()),
        ran(text, globals, answers, depth) == steady(ObjectView::Nil, globals),
{
    lemma_blanks_lex_to_nothing(text, answers);
}

} // verus!
