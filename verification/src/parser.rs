//! The parser: from tokens to one tree, over a stack of pending items.
//!
//! Every token but `)` is pushed. A `)` takes the items above the last
//! `(` off the stack and pushes the form that they make: the first item
//! names the operator, the others are its children in order.

use crate::error::Error;
use crate::error::ErrorView;
use crate::error::SyntaxFault;
use crate::lexer::tokens_view;
use crate::token::Op;
use crate::token::OpView;
use crate::token::Token;
use crate::token::TokenView;
use crate::tree::lemma_trees_view;
use crate::tree::trees_view;
use crate::tree::ParseTree;
use crate::tree::TreeView;
use vstd::prelude::*;

verus! {

/// An item on the parser's stack: a finished tree, or a token.
#[derive(Debug, PartialEq)]
pub enum Production {
    Tree(ParseTree),
    Tok(Token),
}

/// An item on the parser's stack as a mathematical value.
pub enum ProductionView {
    Tree(TreeView),
    Tok(TokenView),
}

impl View for Production {
    type V = ProductionView;

    open spec fn view(&self) -> ProductionView {
        match self {
            Production::Tree(tree) => ProductionView::Tree(tree@),
            Production::Tok(token) => ProductionView::Tok(token@),
        }
    }
}

/// The items of a stack as mathematical values.
pub open spec fn stack_view(stack: Seq<Production>) -> Seq<ProductionView> {
    Seq::new(stack.len(), |i: int| stack[i]@)
}

/// A stack, or an error, as a mathematical value.
pub open spec fn stack_result_view(r: Result<Vec<Production>, Error>) -> Result<
    Seq<ProductionView>,
    ErrorView,
> {
    match r {
        Ok(stack) => Ok(stack_view(stack@)),
        Err(e) => Err(e@),
    }
}

/// A tree, or an error, as a mathematical value.
pub open spec fn tree_result_view(r: Result<ParseTree, Error>) -> Result<TreeView, ErrorView> {
    match r {
        Ok(tree) => Ok(tree@),
        Err(e) => Err(e@),
    }
}

/// The operator that a token names at the head of a form.
pub open spec fn operator_of(token: TokenView) -> Result<OpView, ErrorView> {
    match token {
        TokenView::Plus => Ok(OpView::Add),
        TokenView::Minus => Ok(OpView::Sub),
        TokenView::Times => Ok(OpView::Mul),
        TokenView::Slash => Ok(OpView::Div),
        TokenView::Percent => Ok(OpView::Mod),
        TokenView::Pow => Ok(OpView::Pow),
        TokenView::Gt => Ok(OpView::Gt),
        TokenView::Lt => Ok(OpView::Lt),
        TokenView::Eq => Ok(OpView::Eq),
        TokenView::Gte => Ok(OpView::Gte),
        TokenView::Lte => Ok(OpView::Lte),
        TokenView::Let => Ok(OpView::Let),
        TokenView::Def => Ok(OpView::Def),
        TokenView::List => Ok(OpView::List),
        TokenView::Index => Ok(OpView::Index),
        TokenView::Take => Ok(OpView::Take),
        TokenView::If => Ok(OpView::If),
        TokenView::Drop => Ok(OpView::Drop),
        TokenView::Quote => Ok(OpView::Quote),
        TokenView::Append => Ok(OpView::Append),
        TokenView::Range => Ok(OpView::Range),
        TokenView::Cat => Ok(OpView::Cat),
        TokenView::Len => Ok(OpView::Len),
        TokenView::Id(name) => Ok(OpView::Func(name)),
        _ => Err(ErrorView::Syntax(SyntaxFault::InvalidOperator)),
    }
}

/// The tree that an item of the stack is: a token is a leaf.
pub open spec fn as_tree(item: ProductionView) -> TreeView {
    match item {
        ProductionView::Tree(tree) => tree,
        ProductionView::Tok(token) => TreeView::Leaf(token),
    }
}

/// The form that the items between a `(` and its `)` make.
pub open spec fn form_of(items: Seq<TreeView>) -> Result<TreeView, ErrorView> {
    if items.len() == 0 {
        Err(ErrorView::Syntax(SyntaxFault::EmptyForm))
    } else {
        match items[0] {
            TreeView::Branch(_, _) => Err(ErrorView::Syntax(SyntaxFault::OperatorIsTree)),
            TreeView::Leaf(token) => match operator_of(token) {
                Err(e) => Err(e),
                Ok(op) => Ok(TreeView::Branch(op, items.skip(1))),
            },
        }
    }
}

/// The place of the last `(` on the stack, and -1 where it holds none.
pub open spec fn last_open(stack: Seq<ProductionView>) -> int
    decreases stack.len(),
{
    if stack.len() == 0 {
        -1
    } else if stack.last() == ProductionView::Tok(TokenView::Lparen) {
        stack.len() - 1
    } else {
        last_open(stack.drop_last())
    }
}

/// The stack after a `)`: the items above the last `(` have become one
/// form in its place.
pub open spec fn closed(stack: Seq<ProductionView>) -> Result<Seq<ProductionView>, ErrorView> {
    let open = last_open(stack);
    if open < 0 {
        Err(ErrorView::Syntax(SyntaxFault::UnmatchedClose))
    } else {
        match form_of(stack.skip(open + 1).map_values(|item: ProductionView| as_tree(item))) {
            Err(e) => Err(e),
            Ok(tree) => Ok(stack.take(open).push(ProductionView::Tree(tree))),
        }
    }
}

/// The stack after one more token.
pub open spec fn parse_step(stack: Seq<ProductionView>, token: TokenView) -> Result<
    Seq<ProductionView>,
    ErrorView,
> {
    if token == TokenView::Rparen {
        closed(stack)
    } else {
        Ok(stack.push(ProductionView::Tok(token)))
    }
}

/// The stack after the tokens.
pub open spec fn parsed_so_far(tokens: Seq<TokenView>) -> Result<Seq<ProductionView>, ErrorView>
    decreases tokens.len(),
{
    if tokens.len() == 0 {
        Ok(Seq::empty())
    } else {
        match parsed_so_far(tokens.drop_last()) {
            Err(e) => Err(e),
            Ok(stack) => parse_step(stack, tokens.last()),
        }
    }
}

/// The tree that the tokens make: they must leave one tree on the stack
/// and nothing else.
pub open spec fn parsed(tokens: Seq<TokenView>) -> Result<TreeView, ErrorView> {
    match parsed_so_far(tokens) {
        Err(e) => Err(e),
        Ok(stack) => if stack.len() == 1 {
            match stack[0] {
                ProductionView::Tree(tree) => Ok(tree),
                ProductionView::Tok(_) => Err(ErrorView::Syntax(SyntaxFault::UnmatchedToken)),
            }
        } else {
            Err(ErrorView::Syntax(SyntaxFault::Unfinished))
        },
    }
}

/// Once the parser has failed on the first tokens, it fails on all of
/// them in the same way.
proof fn lemma_parsed_so_far_fails(tokens: Seq<TokenView>, count: int)
    requires
        0 <= count <= tokens.len(),
        parsed_so_far(tokens.take(count)) is Err,
    ensures
        parsed_so_far(tokens) == parsed_so_far(tokens.take(count)),
    decreases tokens.len(),
{
    if count == tokens.len() {
        assert(tokens.take(count) == tokens);
    } else {
        assert(tokens.drop_last().take(count) == tokens.take(count));
        lemma_parsed_so_far_fails(tokens.drop_last(), count);
    }
}

/// The operator that a token names at the head of a form.
pub fn token_to_op(tok: &Token) -> (r: Result<Op, Error>)
    ensures
        match r {
            Ok(op) => operator_of(tok@) == Ok::<OpView, ErrorView>(op@),
            Err(e) => operator_of(tok@) == Err::<OpView, ErrorView>(e@),
        },
{
    match tok {
        Token::Plus => Ok(Op::Add),
        Token::Minus => Ok(Op::Sub),
        Token::Times => Ok(Op::Mul),
        Token::Slash => Ok(Op::Div),
        Token::Percent => Ok(Op::Mod),
        Token::Pow => Ok(Op::Pow),
        Token::Gt => Ok(Op::Gt),
        Token::Lt => Ok(Op::Lt),
        Token::Eq => Ok(Op::Eq),
        Token::Gte => Ok(Op::Gte),
        Token::Lte => Ok(Op::Lte),
        Token::Let => Ok(Op::Let),
        Token::Def => Ok(Op::Def),
        Token::List => Ok(Op::List),
        Token::Index => Ok(Op::Index),
        Token::Take => Ok(Op::Take),
        Token::If => Ok(Op::If),
        Token::Drop => Ok(Op::Drop),
        Token::Quote => Ok(Op::Quote),
        Token::Append => Ok(Op::Append),
        Token::Range => Ok(Op::Range),
        Token::Cat => Ok(Op::Cat),
        Token::Len => Ok(Op::Len),
        Token::Id(s) => Ok(Op::Func(s.clone())),
        _ => Err(Error::Syntax(SyntaxFault::InvalidOperator)),
    }
}

/// The trees of the list in the opposite order.
fn reversed(list: Vec<ParseTree>) -> (r: Vec<ParseTree>)
    ensures
        r@ == list@.reverse(),
{
    let mut list = list;
    let ghost whole = list@;
    let mut out: Vec<ParseTree> = Vec::new();
    while list.len() > 0
        invariant
            list@ == whole.take(list.len() as int),
            out.len() + list.len() == whole.len(),
            forall|j: int| 0 <= j < out.len() ==> out[j] == whole[whole.len() - 1 - j],
        decreases list.len(),
    {
        match list.pop() {
            Some(tree) => out.push(tree),
            None => {},
        }
    }
    assert(out@ == whole.reverse());
    out
}

/// Pushes onto `stack` the form that the trees of `list` make. `list`
/// holds them last first, as they came off the stack.
pub fn push_production(stack: Vec<Production>, list: Vec<ParseTree>) -> (r: Result<
    Vec<Production>,
    Error,
>)
    ensures
        stack_result_view(r) == match form_of(trees_view(list@).reverse()) {
            Err(e) => Err::<Seq<ProductionView>, ErrorView>(e),
            Ok(tree) => Ok(stack_view(stack@).push(ProductionView::Tree(tree))),
        },
{
    let mut stack = stack;
    let mut list = list;
    let ghost items = trees_view(list@).reverse();
    let ghost whole = list@;
    let ghost under = stack_view(stack@);
    proof {
        lemma_trees_view(list@);
    }
    let op_option = list.pop();
    match op_option {
        Some(op_leaf) => {
            assert(items[0] == op_leaf@);
            match op_leaf {
                ParseTree::Branch(_, _) => Err(Error::Syntax(SyntaxFault::OperatorIsTree)),
                ParseTree::Leaf(op_tok) => {
                    let op = match token_to_op(&op_tok) {
                        Ok(op) => op,
                        Err(e) => {
                            return Err(e);
                        },
                    };
                    let children = reversed(list);
                    proof {
                        lemma_trees_view(children@);
                        assert(trees_view(children@) == items.skip(1));
                    }
                    let branch = ParseTree::Branch(op, children);
                    stack.push(Production::Tree(branch));
                    assert(stack_view(stack@) == under.push(ProductionView::Tree(branch@)));
                    Ok(stack)
                },
            }
        },
        None => Err(Error::Syntax(SyntaxFault::EmptyForm)),
    }
}

/// The stack after a `)`.
pub fn close_form(stack: Vec<Production>) -> (r: Result<Vec<Production>, Error>)
    ensures
        stack_result_view(r) == closed(stack_view(stack@)),
{
    let mut stack = stack;
    let ghost whole = stack_view(stack@);
    let mut list: Vec<ParseTree> = Vec::new();
    let mut found = false;
    while !found && stack.len() > 0
        invariant
            whole.len() == stack.len() + list.len() + if found {
                1int
            } else {
                0int
            },
            stack_view(stack@) == whole.take(stack.len() as int),
            found ==> last_open(whole) == stack.len(),
            !found ==> last_open(whole) == last_open(stack_view(stack@)),
            forall|j: int|
                0 <= j < list.len() ==> (#[trigger] list[j])@ == as_tree(whole[whole.len() - 1 - j]),
        decreases stack.len() + if found {
            0int
        } else {
            1int
        },
    {
        let ghost before = stack_view(stack@);
        match stack.pop() {
            Some(v) => {
                assert(before.last() == v@);
                assert(stack_view(stack@) == before.drop_last());
                match v {
                    Production::Tok(t) => match t {
                        Token::Lparen => {
                            found = true;
                        },
                        _ => list.push(ParseTree::Leaf(t)),
                    },
                    Production::Tree(tree) => {
                        list.push(tree);
                    },
                }
            },
            None => {},
        }
    }
    if !found {
        return Err(Error::Syntax(SyntaxFault::UnmatchedClose));
    }
    proof {
        lemma_trees_view(list@);
        let open = last_open(whole);
        assert(trees_view(list@).reverse() == whole.skip(open + 1).map_values(
            |item: ProductionView| as_tree(item),
        ));
    }
    push_production(stack, list)
}

/// The tree that the tokens make.
pub fn parse(tokens: &Vec<Token>) -> (r: Result<ParseTree, Error>)
    ensures
        tree_result_view(r) == parsed(tokens_view(tokens@)),
{
    let ghost all = tokens_view(tokens@);
    let mut stack: Vec<Production> = Vec::new();
    let mut i: usize = 0;
    assert(stack_view(stack@) == Seq::<ProductionView>::empty());
    while i < tokens.len()
        invariant
            i <= tokens.len(),
            all == tokens_view(tokens@),
            parsed_so_far(all.take(i as int)) == Ok::<Seq<ProductionView>, ErrorView>(
                stack_view(stack@),
            ),
        decreases tokens.len() - i,
    {
        proof {
            assert(all.take(i + 1).drop_last() == all.take(i as int));
            assert(all.take(i + 1).last() == tokens[i as int]@);
        }
        let ghost before = stack_view(stack@);
        match &tokens[i] {
            Token::Rparen => {
                match close_form(stack) {
                    Ok(next) => {
                        stack = next;
                    },
                    Err(e) => {
                        proof {
                            lemma_parsed_so_far_fails(all, i + 1);
                        }
                        return Err(e);
                    },
                }
            },
            tok => {
                stack.push(Production::Tok(tok.clone()));
                assert(stack_view(stack@) == before.push(ProductionView::Tok(tok@)));
            },
        }
        i += 1;
    }
    assert(all.take(i as int) == all);
    if stack.len() == 1 {
        match stack.pop() {
            Some(Production::Tree(t)) => Ok(t),
            Some(Production::Tok(_)) => Err(Error::Syntax(SyntaxFault::UnmatchedToken)),
            None => Err(Error::Syntax(SyntaxFault::Unfinished)),
        }
    } else {
        Err(Error::Syntax(SyntaxFault::Unfinished))
    }
}

} // verus!
