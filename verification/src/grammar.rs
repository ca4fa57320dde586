//! The parser reads what it is meant to read: the tokens that a tree is
//! written with parse to that tree.

use crate::error::ErrorView;
use crate::parser::as_tree;
use crate::parser::closed;
use crate::parser::form_of;
use crate::parser::last_open;
use crate::parser::operator_of;
use crate::parser::parse_step;
use crate::parser::parsed;
use crate::parser::parsed_so_far;
use crate::parser::ProductionView;
use crate::token::OpView;
use crate::token::TokenView;
use crate::tree::TreeView;
use vstd::prelude::*;

verus! {

/// The token that names the operator.
pub open spec fn op_token(op: OpView) -> TokenView {
    match op {
        OpView::Add => TokenView::Plus,
        OpView::Sub => TokenView::Minus,
        OpView::Mul => TokenView::Times,
        OpView::Div => TokenView::Slash,
        OpView::Mod => TokenView::Percent,
        OpView::Pow => TokenView::Pow,
        OpView::Gt => TokenView::Gt,
        OpView::Lt => TokenView::Lt,
        OpView::Eq => TokenView::Eq,
        OpView::Gte => TokenView::Gte,
        OpView::Lte => TokenView::Lte,
        OpView::Let => TokenView::Let,
        OpView::Def => TokenView::Def,
        OpView::List => TokenView::List,
        OpView::Index => TokenView::Index,
        OpView::Drop => TokenView::Drop,
        OpView::Quote => TokenView::Quote,
        OpView::Append => TokenView::Append,
        OpView::Range => TokenView::Range,
        OpView::Cat => TokenView::Cat,
        OpView::Len => TokenView::Len,
        OpView::Take => TokenView::Take,
        OpView::If => TokenView::If,
        OpView::Func(name) => TokenView::Id(name),
    }
}

/// Whether the token is `(` or `)`.
pub open spec fn is_paren(token: TokenView) -> bool {
    token == TokenView::Lparen || token == TokenView::Rparen
}

/// Whether no leaf of the tree is a parenthesis, so that the tree can be
/// written in tokens.
pub open spec fn is_writable(tree: TreeView) -> bool
    decreases tree,
{
    match tree {
        TreeView::Leaf(token) => !is_paren(token),
        TreeView::Branch(_, children) => forall|i: int|
            0 <= i < children.len() ==> is_writable(#[trigger] children[i]),
    }
}

/// The tokens that a tree is written with: a leaf is its token, a form is
/// `(`, the token of its operator, its children in order, and `)`.
pub open spec fn written(tree: TreeView) -> Seq<TokenView>
    decreases tree, 0nat,
{
    match tree {
        TreeView::Leaf(token) => seq![token],
        TreeView::Branch(op, children) => seq![TokenView::Lparen, op_token(op)] + all_written(
            children,
            children.len(),
        ) + seq![TokenView::Rparen],
    }
}

/// The tokens that the first `count` trees are written with.
pub open spec fn all_written(trees: Seq<TreeView>, count: nat) -> Seq<TokenView>
    decreases trees, count,
{
    if count == 0 || count > trees.len() {
        Seq::empty()
    } else {
        all_written(trees, (count - 1) as nat) + written(trees[count - 1])
    }
}

/// The item that a tree is on the parser's stack: a leaf lies there as
/// its token.
pub open spec fn item_of(tree: TreeView) -> ProductionView {
    match tree {
        TreeView::Leaf(token) => ProductionView::Tok(token),
        TreeView::Branch(_, _) => ProductionView::Tree(tree),
    }
}

/// The items that the first `count` trees are on the parser's stack.
pub open spec fn items_of(trees: Seq<TreeView>, count: nat) -> Seq<ProductionView> {
    Seq::new(count, |i: int| item_of(trees[i]))
}

/// The token of an operator names that operator, and is no parenthesis.
proof fn lemma_op_token(op: OpView)
    ensures
        operator_of(op_token(op)) == Ok::<OpView, ErrorView>(op),
        !is_paren(op_token(op)),
{
}

/// One more token takes the parser one step on.
proof fn lemma_parsed_one_more(before: Seq<TokenView>, token: TokenView)
    ensures
        parsed_so_far(before.push(token)) == match parsed_so_far(before) {
            Err(e) => Err::<Seq<ProductionView>, ErrorView>(e),
            Ok(stack) => parse_step(stack, token),
        },
{
    assert(before.push(token).drop_last() == before);
}

/// Items that are no `(` do not hide the `(` below them.
proof fn lemma_last_open_below(stack: Seq<ProductionView>, above: Seq<ProductionView>)
    requires
        forall|i: int|
            0 <= i < above.len() ==> (#[trigger] above[i]) != ProductionView::Tok(
                TokenView::Lparen,
            ),
    ensures
        last_open(stack + above) == last_open(stack),
    decreases above.len(),
{
    if above.len() == 0 {
        assert(stack + above == stack);
    } else {
        let all = stack + above;
        assert(all.last() == above[above.len() - 1]);
        assert(all.drop_last() == stack + above.drop_last());
        lemma_last_open_below(stack, above.drop_last());
    }
}

/// The tokens that a writable tree is written with leave the tree on the
/// stack, on top of what was there.
proof fn lemma_written_parses(
    before: Seq<TokenView>,
    stack: Seq<ProductionView>,
    tree: TreeView,
)
    requires
        is_writable(tree),
        parsed_so_far(before) == Ok::<Seq<ProductionView>, ErrorView>(stack),
    ensures
        parsed_so_far(before + written(tree)) == Ok::<Seq<ProductionView>, ErrorView>(
            stack.push(item_of(tree)),
        ),
    decreases tree, 0nat,
{
    match tree {
        TreeView::Leaf(token) => {
            lemma_parsed_one_more(before, token);
            assert(before + seq![token] == before.push(token));
        },
        TreeView::Branch(op, children) => {
            lemma_op_token(op);
            let opened = before.push(TokenView::Lparen);
            let headed = opened.push(op_token(op));
            let base = stack.push(ProductionView::Tok(TokenView::Lparen));
            let head = base.push(ProductionView::Tok(op_token(op)));
            lemma_parsed_one_more(before, TokenView::Lparen);
            lemma_parsed_one_more(opened, op_token(op));
            assert forall|i: int| 0 <= i < children.len() implies is_writable(
                #[trigger] children[i],
            ) by {
                assert(is_writable(tree));
            }
            lemma_all_written_parse(headed, head, children, children.len());
            let inner = all_written(children, children.len());
            let items = items_of(children, children.len());
            let full = head + items;
            lemma_parsed_one_more(headed + inner, TokenView::Rparen);
            assert(before + written(tree) == (headed + inner).push(TokenView::Rparen));
            let above = seq![ProductionView::Tok(op_token(op))] + items;
            assert(full == base + above);
            assert forall|i: int| 0 <= i < above.len() implies (#[trigger] above[i])
                != ProductionView::Tok(TokenView::Lparen) by {
                if i > 0 {
                    assert(above[i] == item_of(children[i - 1]));
                    assert(is_writable(children[i - 1]));
                }
            }
            lemma_last_open_below(base, above);
            assert(last_open(base) == stack.len());
            let open = stack.len() as int;
            let trees = full.skip(open + 1).map_values(|item: ProductionView| as_tree(item));
            assert(trees.len() == children.len() + 1);
            assert(trees[0] == TreeView::Leaf(op_token(op)));
            assert forall|i: int| 0 <= i < children.len() implies trees.skip(1)[i]
                == children[i] by {
                assert(full[open + 2 + i] == item_of(children[i]));
            }
            assert(trees.skip(1) == children);
            assert(form_of(trees) == Ok::<TreeView, ErrorView>(tree));
            assert(full.take(open) == stack);
            assert(closed(full) == Ok::<Seq<ProductionView>, ErrorView>(
                stack.push(ProductionView::Tree(tree)),
            ));
        },
    }
}

/// The tokens that writable trees are written with leave the trees on the
/// stack, in order.
proof fn lemma_all_written_parse(
    before: Seq<TokenView>,
    stack: Seq<ProductionView>,
    trees: Seq<TreeView>,
    count: nat,
)
    requires
        count <= trees.len(),
        forall|i: int| 0 <= i < count ==> is_writable(#[trigger] trees[i]),
        parsed_so_far(before) == Ok::<Seq<ProductionView>, ErrorView>(stack),
    ensures
        parsed_so_far(before + all_written(trees, count)) == Ok::<
            Seq<ProductionView>,
            ErrorView,
        >(stack + items_of(trees, count)),
    decreases trees, count,
{
    if count == 0 {
        assert(before + all_written(trees, count) == before);
        assert(stack + items_of(trees, count) == stack);
    } else {
        let fewer = (count - 1) as nat;
        lemma_all_written_parse(before, stack, trees, fewer);
        lemma_written_parses(
            before + all_written(trees, fewer),
            stack + items_of(trees, fewer),
            trees[count - 1],
        );
        assert(before + all_written(trees, count) == before + all_written(trees, fewer) + written(
            trees[count - 1],
        ));
        assert(stack + items_of(trees, count) == (stack + items_of(trees, fewer)).push(
            item_of(trees[count - 1]),
        ));
    }
}

/// For every form whose leaves are no parentheses, the tokens that it is
/// written with parse to the form.
pub proof fn law_written_form_parses(tree: TreeView)
    requires
        tree is Branch,
        is_writable(tree),
    ensures
        parsed(written(tree)) == Ok::<TreeView, ErrorView>(tree),
{
    lemma_written_parses(Seq::empty(), Seq::empty(), tree);
    assert(Seq::<TokenView>::empty() + written(tree) == written(tree));
}

} // verus!
