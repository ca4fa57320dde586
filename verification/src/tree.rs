//! Parse trees and the values that evaluation gives.

use crate::decimal::Decimal;
use crate::integer::Integer;
use crate::token::Op;
use crate::token::OpView;
use crate::token::Token;
use crate::token::TokenView;
use vstd::prelude::*;

verus! {

/// A parsed form: one token, or an operator with the forms it is applied
/// to, in order.
#[derive(Debug, PartialEq)]
pub enum ParseTree {
    Leaf(Token),
    Branch(Op, Vec<ParseTree>),
}

/// A parse tree as a mathematical value.
pub enum TreeView {
    Leaf(TokenView),
    Branch(OpView, Seq<TreeView>),
}

impl View for ParseTree {
    type V = TreeView;

    open spec fn view(&self) -> TreeView
        decreases self,
    {
        match self {
            ParseTree::Leaf(token) => TreeView::Leaf(token@),
            ParseTree::Branch(op, children) => TreeView::Branch(op@, trees_view(children@)),
        }
    }
}

/// The trees of a list as mathematical values.
pub open spec fn trees_view(trees: Seq<ParseTree>) -> Seq<TreeView>
    decreases trees,
{
    Seq::new(
        trees.len(),
        |i: int|
            if 0 <= i < trees.len() {
                trees[i]@
            } else {
                TreeView::Leaf(TokenView::Lparen)
            },
    )
}

/// The trees of a list as mathematical values, item by item.
pub proof fn lemma_trees_view(trees: Seq<ParseTree>)
    ensures
        trees_view(trees).len() == trees.len(),
        forall|i: int| 0 <= i < trees.len() ==> trees_view(trees)[i] == (#[trigger] trees[i])@,
{
}

/// Copies the trees of a list.
pub fn clone_trees(trees: &Vec<ParseTree>) -> (r: Vec<ParseTree>)
    ensures
        trees_view(r@) == trees_view(trees@),
    decreases trees,
{
    let mut out: Vec<ParseTree> = Vec::new();
    let mut i: usize = 0;
    while i < trees.len()
        invariant
            i <= trees.len(),
            out.len() == i,
            forall|j: int| 0 <= j < i ==> out[j]@ == trees[j]@,
        decreases trees.len() - i,
    {
        out.push(trees[i].clone());
        i += 1;
    }
    assert(trees_view(out@) =~= trees_view(trees@));
    out
}

impl Clone for ParseTree {
    fn clone(&self) -> (r: Self)
        ensures
            r@ == self@,
        decreases self,
    {
        match self {
            ParseTree::Leaf(token) => ParseTree::Leaf(token.clone()),
            ParseTree::Branch(op, children) => ParseTree::Branch(op.clone(), clone_trees(children)),
        }
    }
}

/// The names of a list as mathematical values.
pub open spec fn names_view(names: Seq<String>) -> Seq<Seq<char>> {
    Seq::new(names.len(), |i: int| names[i]@)
}

/// Copies the names of a list.
pub fn clone_names(names: &Vec<String>) -> (r: Vec<String>)
    ensures
        names_view(r@) == names_view(names@),
{
    let mut out: Vec<String> = Vec::new();
    let mut i: usize = 0;
    while i < names.len()
        invariant
            i <= names.len(),
            out.len() == i,
            forall|j: int| 0 <= j < i ==> out[j]@ == names[j]@,
        decreases names.len() - i,
    {
        out.push(names[i].clone());
        i += 1;
    }
    assert(names_view(out@) =~= names_view(names@));
    out
}

/// What evaluation gives.
#[derive(Debug, PartialEq)]
pub enum StutterObject {
    Nil,
    Int(Integer),
    Dec(Decimal),
    Bool(bool),
    /// A name that nothing has been found for yet.
    Id(String),
    /// A function: the names of its parameters and its body. It holds no
    /// scope: its free names are looked up where it is called.
    Lambda(Vec<String>, ParseTree),
    List(Vec<StutterObject>),
}

/// A value as a mathematical value.
pub enum ObjectView {
    Nil,
    Int(int),
    Dec(Decimal),
    Bool(bool),
    Id(Seq<char>),
    Lambda(Seq<Seq<char>>, TreeView),
    List(Seq<ObjectView>),
}

impl View for StutterObject {
    type V = ObjectView;

    open spec fn view(&self) -> ObjectView
        decreases self,
    {
        match self {
            StutterObject::Nil => ObjectView::Nil,
            StutterObject::Int(n) => ObjectView::Int(n@),
            StutterObject::Dec(d) => ObjectView::Dec(*d),
            StutterObject::Bool(b) => ObjectView::Bool(*b),
            StutterObject::Id(name) => ObjectView::Id(name@),
            StutterObject::Lambda(params, body) => ObjectView::Lambda(names_view(params@), body@),
            StutterObject::List(items) => ObjectView::List(objects_view(items@)),
        }
    }
}

/// The values of a list as mathematical values.
pub open spec fn objects_view(objects: Seq<StutterObject>) -> Seq<ObjectView>
    decreases objects,
{
    Seq::new(
        objects.len(),
        |i: int|
            if 0 <= i < objects.len() {
                objects[i]@
            } else {
                ObjectView::Nil
            },
    )
}

/// The values of a list as mathematical values, item by item.
pub proof fn lemma_objects_view(objects: Seq<StutterObject>)
    ensures
        objects_view(objects).len() == objects.len(),
        forall|i: int| 0 <= i < objects.len() ==> objects_view(objects)[i] == (#[trigger] objects[i])@,
{
}

/// Copies the values of the list from `from` up to `to`.
pub fn clone_objects(objects: &Vec<StutterObject>, from: usize, to: usize) -> (r: Vec<
    StutterObject,
>)
    requires
        from <= to <= objects.len(),
    ensures
        objects_view(r@) == objects_view(objects@).subrange(from as int, to as int),
    decreases objects,
{
    let mut out: Vec<StutterObject> = Vec::new();
    let mut i: usize = from;
    while i < to
        invariant
            from <= i <= to <= objects.len(),
            out.len() == i - from,
            forall|j: int| 0 <= j < i - from ==> out[j]@ == objects[from + j]@,
        decreases to - i,
    {
        out.push(objects[i].clone());
        i += 1;
    }
    assert(objects_view(out@) =~= objects_view(objects@).subrange(from as int, to as int));
    out
}

impl Clone for StutterObject {
    fn clone(&self) -> (r: Self)
        ensures
            r@ == self@,
        decreases self,
    {
        match self {
            StutterObject::Nil => StutterObject::Nil,
            StutterObject::Int(n) => StutterObject::Int(n.clone()),
            StutterObject::Dec(d) => StutterObject::Dec(*d),
            StutterObject::Bool(b) => StutterObject::Bool(*b),
            StutterObject::Id(name) => StutterObject::Id(name.clone()),
            StutterObject::Lambda(params, body) => StutterObject::Lambda(
                clone_names(params),
                body.clone(),
            ),
            StutterObject::List(items) => {
                let copies = clone_objects(items, 0, items.len());
                assert(objects_view(items@).subrange(0, items.len() as int) == objects_view(
                    items@,
                ));
                StutterObject::List(copies)
            },
        }
    }
}

} // verus!
