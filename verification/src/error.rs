//! The ways in which lexing, parsing and evaluation stop short.

use crate::decimal::DecimalQuery;
use crate::decimal::DecimalQueryView;
use crate::token::Op;
use crate::token::OpView;
use crate::tree::ObjectView;
use crate::tree::StutterObject;
use vstd::prelude::*;

verus! {

/// What is wrong with the shape of a form.
#[derive(Clone, Copy, Debug, PartialEq, Eq, Structural)]
pub enum SyntaxFault {
    /// `()`: a form without an operator.
    EmptyForm,
    /// The operator of a form is itself a form.
    OperatorIsTree,
    /// The operator of a form is a literal or a parenthesis.
    InvalidOperator,
    /// A `)` without its `(`.
    UnmatchedClose,
    /// The text ends in a single token that is no form.
    UnmatchedToken,
    /// The text holds no form, or more than one, or an unclosed one.
    Unfinished,
    /// A token that is no value stands where a value is expected.
    NotAnAtom,
    /// A parameter list that is no list of names.
    MalformedParameters,
    /// `lambda` without a parameter list and a body.
    LambdaForm,
    /// `let` without a body.
    LetForm,
    /// A clause of `let` that is not a name with one expression.
    LetClause,
    /// `def` with other than a name and an expression.
    DefForm,
    /// The first element of `def` is no name.
    DefName,
    /// `quote` with other than one element.
    QuoteForm,
    /// `if` with other than a condition and two branches.
    IfForm,
    /// A call by name where calls are not made.
    BareCall,
    /// An operator form where calls are not made.
    NotQuotable,
    /// A form that is no `lambda` where one is expected.
    ExpectingLambda,
}

/// What is wrong with the operands of an operator.
#[derive(Clone, Copy, Debug, PartialEq, Eq, Structural)]
pub enum TypeFault {
    /// The operator has fewer operands than it reads.
    MissingOperand,
    /// The operator is none of arithmetic or comparison.
    NotArithmetic,
    /// `index` of other than an integer and a list.
    IndexForm,
    /// `take` of other than an integer and a list.
    TakeForm,
    /// `drop` of other than an integer and a list.
    DropForm,
    /// `append` to what is no list.
    AppendForm,
    /// `range` of other than two integers.
    RangeForm,
    /// `cat` of what is no list.
    CatForm,
    /// `len` of what is no list.
    LenForm,
    /// The condition of `if` is no truth value.
    Condition,
}

/// Why no value was reached.
#[derive(Debug, PartialEq)]
pub enum Error {
    /// The text ends within this token.
    Lex(String),
    /// A form is misshapen.
    Syntax(SyntaxFault),
    /// The name is bound neither locally nor globally.
    UnboundSymbol(String),
    /// An operator does not take what it was given.
    Type(TypeFault),
    /// The operator of arithmetic or comparison is not defined for these
    /// two operands.
    Operands(Op, StutterObject, StutterObject),
    /// An offset lies outside the list.
    Index,
    /// A number cannot be had: a remainder by zero, or one that does not
    /// fit the type it is needed in.
    Arithmetic,
    /// The forms are nested deeper than the depth allowed.
    ResourceExhausted,
    /// The host has not answered this question yet.
    NeedsDecimal(DecimalQuery),
}

/// An error as a mathematical value.
pub enum ErrorView {
    Lex(Seq<char>),
    Syntax(SyntaxFault),
    UnboundSymbol(Seq<char>),
    Type(TypeFault),
    Operands(OpView, ObjectView, ObjectView),
    Index,
    Arithmetic,
    ResourceExhausted,
    NeedsDecimal(DecimalQueryView),
}

impl View for Error {
    type V = ErrorView;

    open spec fn view(&self) -> ErrorView {
        match self {
            Error::Lex(token) => ErrorView::Lex(token@),
            Error::Syntax(fault) => ErrorView::Syntax(*fault),
            Error::UnboundSymbol(name) => ErrorView::UnboundSymbol(name@),
            Error::Type(fault) => ErrorView::Type(*fault),
            Error::Operands(op, left, right) => ErrorView::Operands(op@, left@, right@),
            Error::Index => ErrorView::Index,
            Error::Arithmetic => ErrorView::Arithmetic,
            Error::ResourceExhausted => ErrorView::ResourceExhausted,
            Error::NeedsDecimal(query) => ErrorView::NeedsDecimal(query@),
        }
    }
}

/// The kinds of error.
#[derive(Clone, Copy, Debug, PartialEq, Eq, Structural)]
pub enum ErrorKind {
    LexError,
    SyntaxError,
    UnboundSymbol,
    TypeError,
    IndexError,
    ArithmeticError,
    ResourceExhausted,
    /// No failure: the work waits for an answer of the host.
    Pending,
}

/// The kind of an error.
pub open spec fn kind_of(error: ErrorView) -> ErrorKind {
    match error {
        ErrorView::Lex(_) => ErrorKind::LexError,
        ErrorView::Syntax(_) => ErrorKind::SyntaxError,
        ErrorView::UnboundSymbol(_) => ErrorKind::UnboundSymbol,
        ErrorView::Type(_) => ErrorKind::TypeError,
        ErrorView::Operands(_, _, _) => ErrorKind::TypeError,
        ErrorView::Index => ErrorKind::IndexError,
        ErrorView::Arithmetic => ErrorKind::ArithmeticError,
        ErrorView::ResourceExhausted => ErrorKind::ResourceExhausted,
        ErrorView::NeedsDecimal(_) => ErrorKind::Pending,
    }
}

impl Error {
    /// The kind of the error.
    pub fn kind(&self) -> (r: ErrorKind)
        ensures
            r == kind_of(self@),
    {
        match self {
            Error::Lex(_) => ErrorKind::LexError,
            Error::Syntax(_) => ErrorKind::SyntaxError,
            Error::UnboundSymbol(_) => ErrorKind::UnboundSymbol,
            Error::Type(_) => ErrorKind::TypeError,
            Error::Operands(_, _, _) => ErrorKind::TypeError,
            Error::Index => ErrorKind::IndexError,
            Error::Arithmetic => ErrorKind::ArithmeticError,
            Error::ResourceExhausted => ErrorKind::ResourceExhausted,
            Error::NeedsDecimal(_) => ErrorKind::Pending,
        }
    }
}

/// A result as a mathematical value.
pub open spec fn result_view(r: Result<StutterObject, Error>) -> Result<ObjectView, ErrorView> {
    match r {
        Ok(value) => Ok(value@),
        Err(error) => Err(error@),
    }
}

} // verus!
