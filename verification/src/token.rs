//! Tokens, and the operators that head a form.

use crate::decimal::Decimal;
use crate::decimal::NumericOp;
use crate::integer::Integer;
use vstd::prelude::*;

verus! {

/// What the lexer makes of a piece of text.
#[derive(Debug, PartialEq)]
pub enum Token {
    Lparen,
    Rparen,
    Plus,
    Minus,
    Times,
    Slash,
    Percent,
    Pow,
    Gt,
    Lt,
    Eq,
    Gte,
    Lte,
    Let,
    Def,
    List,
    Index,
    Drop,
    Quote,
    Append,
    Range,
    Cat,
    Len,
    Take,
    If,
    /// An integer.
    Int(Integer),
    /// A decimal.
    Dec(Decimal),
    /// A truth value.
    Bool(bool),
    /// The name of a variable or of a function.
    Id(String),
}

/// A token as a mathematical value.
pub enum TokenView {
    Lparen,
    Rparen,
    Plus,
    Minus,
    Times,
    Slash,
    Percent,
    Pow,
    Gt,
    Lt,
    Eq,
    Gte,
    Lte,
    Let,
    Def,
    List,
    Index,
    Drop,
    Quote,
    Append,
    Range,
    Cat,
    Len,
    Take,
    If,
    Int(int),
    Dec(Decimal),
    Bool(bool),
    Id(Seq<char>),
}

impl View for Token {
    type V = TokenView;

    open spec fn view(&self) -> TokenView {
        match self {
            Token::Lparen => TokenView::Lparen,
            Token::Rparen => TokenView::Rparen,
            Token::Plus => TokenView::Plus,
            Token::Minus => TokenView::Minus,
            Token::Times => TokenView::Times,
            Token::Slash => TokenView::Slash,
            Token::Percent => TokenView::Percent,
            Token::Pow => TokenView::Pow,
            Token::Gt => TokenView::Gt,
            Token::Lt => TokenView::Lt,
            Token::Eq => TokenView::Eq,
            Token::Gte => TokenView::Gte,
            Token::Lte => TokenView::Lte,
            Token::Let => TokenView::Let,
            Token::Def => TokenView::Def,
            Token::List => TokenView::List,
            Token::Index => TokenView::Index,
            Token::Drop => TokenView::Drop,
            Token::Quote => TokenView::Quote,
            Token::Append => TokenView::Append,
            Token::Range => TokenView::Range,
            Token::Cat => TokenView::Cat,
            Token::Len => TokenView::Len,
            Token::Take => TokenView::Take,
            Token::If => TokenView::If,
            Token::Int(n) => TokenView::Int(n@),
            Token::Dec(d) => TokenView::Dec(*d),
            Token::Bool(b) => TokenView::Bool(*b),
            Token::Id(name) => TokenView::Id(name@),
        }
    }
}

impl Clone for Token {
    fn clone(&self) -> (r: Self)
        ensures
            r@ == self@,
    {
        match self {
            Token::Lparen => Token::Lparen,
            Token::Rparen => Token::Rparen,
            Token::Plus => Token::Plus,
            Token::Minus => Token::Minus,
            Token::Times => Token::Times,
            Token::Slash => Token::Slash,
            Token::Percent => Token::Percent,
            Token::Pow => Token::Pow,
            Token::Gt => Token::Gt,
            Token::Lt => Token::Lt,
            Token::Eq => Token::Eq,
            Token::Gte => Token::Gte,
            Token::Lte => Token::Lte,
            Token::Let => Token::Let,
            Token::Def => Token::Def,
            Token::List => Token::List,
            Token::Index => Token::Index,
            Token::Drop => Token::Drop,
            Token::Quote => Token::Quote,
            Token::Append => Token::Append,
            Token::Range => Token::Range,
            Token::Cat => Token::Cat,
            Token::Len => Token::Len,
            Token::Take => Token::Take,
            Token::If => Token::If,
            Token::Int(n) => Token::Int(n.clone()),
            Token::Dec(d) => Token::Dec(*d),
            Token::Bool(b) => Token::Bool(*b),
            Token::Id(name) => Token::Id(name.clone()),
        }
    }
}

/// What a form does: the operator that its first element names.
#[derive(Debug, PartialEq)]
pub enum Op {
    Add,
    Sub,
    Mul,
    Div,
    Mod,
    Pow,
    Gt,
    Lt,
    Eq,
    Gte,
    Lte,
    Let,
    Def,
    List,
    Index,
    Drop,
    Quote,
    Append,
    Range,
    Cat,
    Len,
    Take,
    If,
    /// A call by name.
    Func(String),
}

/// An operator as a mathematical value.
pub enum OpView {
    Add,
    Sub,
    Mul,
    Div,
    Mod,
    Pow,
    Gt,
    Lt,
    Eq,
    Gte,
    Lte,
    Let,
    Def,
    List,
    Index,
    Drop,
    Quote,
    Append,
    Range,
    Cat,
    Len,
    Take,
    If,
    Func(Seq<char>),
}

impl View for Op {
    type V = OpView;

    open spec fn view(&self) -> OpView {
        match self {
            Op::Add => OpView::Add,
            Op::Sub => OpView::Sub,
            Op::Mul => OpView::Mul,
            Op::Div => OpView::Div,
            Op::Mod => OpView::Mod,
            Op::Pow => OpView::Pow,
            Op::Gt => OpView::Gt,
            Op::Lt => OpView::Lt,
            Op::Eq => OpView::Eq,
            Op::Gte => OpView::Gte,
            Op::Lte => OpView::Lte,
            Op::Let => OpView::Let,
            Op::Def => OpView::Def,
            Op::List => OpView::List,
            Op::Index => OpView::Index,
            Op::Drop => OpView::Drop,
            Op::Quote => OpView::Quote,
            Op::Append => OpView::Append,
            Op::Range => OpView::Range,
            Op::Cat => OpView::Cat,
            Op::Len => OpView::Len,
            Op::Take => OpView::Take,
            Op::If => OpView::If,
            Op::Func(name) => OpView::Func(name@),
        }
    }
}

impl Clone for Op {
    fn clone(&self) -> (r: Self)
        ensures
            r@ == self@,
    {
        match self {
            Op::Add => Op::Add,
            Op::Sub => Op::Sub,
            Op::Mul => Op::Mul,
            Op::Div => Op::Div,
            Op::Mod => Op::Mod,
            Op::Pow => Op::Pow,
            Op::Gt => Op::Gt,
            Op::Lt => Op::Lt,
            Op::Eq => Op::Eq,
            Op::Gte => Op::Gte,
            Op::Lte => Op::Lte,
            Op::Let => Op::Let,
            Op::Def => Op::Def,
            Op::List => Op::List,
            Op::Index => Op::Index,
            Op::Drop => Op::Drop,
            Op::Quote => Op::Quote,
            Op::Append => Op::Append,
            Op::Range => Op::Range,
            Op::Cat => Op::Cat,
            Op::Len => Op::Len,
            Op::Take => Op::Take,
            Op::If => Op::If,
            Op::Func(name) => Op::Func(name.clone()),
        }
    }
}

/// The operator of arithmetic or comparison that `op` is, if it is one.
pub open spec fn numeric_of(op: OpView) -> Option<NumericOp> {
    match op {
        OpView::Add => Some(NumericOp::Add),
        OpView::Sub => Some(NumericOp::Sub),
        OpView::Mul => Some(NumericOp::Mul),
        OpView::Div => Some(NumericOp::Div),
        OpView::Mod => Some(NumericOp::Mod),
        OpView::Pow => Some(NumericOp::Pow),
        OpView::Gt => Some(NumericOp::Gt),
        OpView::Lt => Some(NumericOp::Lt),
        OpView::Eq => Some(NumericOp::Eq),
        OpView::Gte => Some(NumericOp::Gte),
        OpView::Lte => Some(NumericOp::Lte),
        _ => None,
    }
}

impl Op {
    /// The operator of arithmetic or comparison that this is, if it is one.
    pub fn numeric(&self) -> (r: Option<NumericOp>)
        ensures
            r == numeric_of(self@),
    {
        match self {
            Op::Add => Some(NumericOp::Add),
            Op::Sub => Some(NumericOp::Sub),
            Op::Mul => Some(NumericOp::Mul),
            Op::Div => Some(NumericOp::Div),
            Op::Mod => Some(NumericOp::Mod),
            Op::Pow => Some(NumericOp::Pow),
            Op::Gt => Some(NumericOp::Gt),
            Op::Lt => Some(NumericOp::Lt),
            Op::Eq => Some(NumericOp::Eq),
            Op::Gte => Some(NumericOp::Gte),
            Op::Lte => Some(NumericOp::Lte),
            _ => None,
        }
    }
}

} // verus!
