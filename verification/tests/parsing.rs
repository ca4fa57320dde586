use stutter::decimal::Ledger;
use stutter::error::Error;
use stutter::error::ErrorKind;
use stutter::error::SyntaxFault;
use stutter::integer::Integer;
use stutter::lexer::lex;
use stutter::parser::close_form;
use stutter::parser::parse;
use stutter::parser::push_production;
use stutter::parser::token_to_op;
use stutter::parser::Production;
use stutter::token::Op;
use stutter::token::Token;
use stutter::tree::ParseTree;

fn tree_of(text: &str) -> Result<ParseTree, Error> {
    parse(&lex(&String::from(text), &Ledger::new()).unwrap())
}

fn number(n: i64) -> ParseTree {
    ParseTree::Leaf(Token::Int(Integer::from_i64(n)))
}

fn name(text: &str) -> ParseTree {
    ParseTree::Leaf(Token::Id(String::from(text)))
}

#[test]
fn a_form_becomes_a_branch() {
    assert_eq!(
        tree_of("(+ 1 2 3)"),
        Ok(ParseTree::Branch(Op::Add, vec![number(1), number(2), number(3)]))
    );
    assert_eq!(
        tree_of("(f a (g b) c)"),
        Ok(ParseTree::Branch(
            Op::Func(String::from("f")),
            vec![name("a"), ParseTree::Branch(Op::Func(String::from("g")), vec![name("b")]), name("c")]
        ))
    );
    assert_eq!(tree_of("(list)"), Ok(ParseTree::Branch(Op::List, vec![])));
}

#[test]
fn nested_forms_keep_their_order() {
    assert_eq!(
        tree_of("(if (> a 1) (list a) (quote 2))"),
        Ok(ParseTree::Branch(
            Op::If,
            vec![
                ParseTree::Branch(Op::Gt, vec![name("a"), number(1)]),
                ParseTree::Branch(Op::List, vec![name("a")]),
                ParseTree::Branch(Op::Quote, vec![number(2)]),
            ]
        ))
    );
}

#[test]
fn every_operator_has_its_token() {
    assert_eq!(token_to_op(&Token::Plus), Ok(Op::Add));
    assert_eq!(token_to_op(&Token::Minus), Ok(Op::Sub));
    assert_eq!(token_to_op(&Token::Times), Ok(Op::Mul));
    assert_eq!(token_to_op(&Token::Slash), Ok(Op::Div));
    assert_eq!(token_to_op(&Token::Percent), Ok(Op::Mod));
    assert_eq!(token_to_op(&Token::Pow), Ok(Op::Pow));
    assert_eq!(token_to_op(&Token::Gt), Ok(Op::Gt));
    assert_eq!(token_to_op(&Token::Lt), Ok(Op::Lt));
    assert_eq!(token_to_op(&Token::Eq), Ok(Op::Eq));
    assert_eq!(token_to_op(&Token::Gte), Ok(Op::Gte));
    assert_eq!(token_to_op(&Token::Lte), Ok(Op::Lte));
    assert_eq!(token_to_op(&Token::Let), Ok(Op::Let));
    assert_eq!(token_to_op(&Token::Def), Ok(Op::Def));
    assert_eq!(token_to_op(&Token::List), Ok(Op::List));
    assert_eq!(token_to_op(&Token::Index), Ok(Op::Index));
    assert_eq!(token_to_op(&Token::Take), Ok(Op::Take));
    assert_eq!(token_to_op(&Token::If), Ok(Op::If));
    assert_eq!(token_to_op(&Token::Drop), Ok(Op::Drop));
    assert_eq!(token_to_op(&Token::Quote), Ok(Op::Quote));
    assert_eq!(token_to_op(&Token::Append), Ok(Op::Append));
    assert_eq!(token_to_op(&Token::Range), Ok(Op::Range));
    assert_eq!(token_to_op(&Token::Cat), Ok(Op::Cat));
    assert_eq!(token_to_op(&Token::Len), Ok(Op::Len));
    assert_eq!(token_to_op(&Token::Id(String::from("f"))), Ok(Op::Func(String::from("f"))));
}

#[test]
fn literals_and_parentheses_are_no_operators() {
    assert_eq!(
        token_to_op(&Token::Int(Integer::from_i64(1))),
        Err(Error::Syntax(SyntaxFault::InvalidOperator))
    );
    assert_eq!(token_to_op(&Token::Bool(true)), Err(Error::Syntax(SyntaxFault::InvalidOperator)));
    assert_eq!(token_to_op(&Token::Lparen), Err(Error::Syntax(SyntaxFault::InvalidOperator)));
    assert_eq!(token_to_op(&Token::Rparen), Err(Error::Syntax(SyntaxFault::InvalidOperator)));
    assert_eq!(tree_of("(1 2)"), Err(Error::Syntax(SyntaxFault::InvalidOperator)));
    assert_eq!(tree_of("(true)"), Err(Error::Syntax(SyntaxFault::InvalidOperator)));
}

#[test]
fn misshapen_texts_are_syntax_errors() {
    assert_eq!(tree_of("()"), Err(Error::Syntax(SyntaxFault::EmptyForm)));
    assert_eq!(tree_of("((f) 1)"), Err(Error::Syntax(SyntaxFault::OperatorIsTree)));
    assert_eq!(tree_of(")"), Err(Error::Syntax(SyntaxFault::UnmatchedClose)));
    assert_eq!(tree_of("(+ 1 2))"), Err(Error::Syntax(SyntaxFault::UnmatchedClose)));
    assert_eq!(tree_of(") (+ 1 2)"), Err(Error::Syntax(SyntaxFault::UnmatchedClose)));
    assert_eq!(tree_of("a "), Err(Error::Syntax(SyntaxFault::UnmatchedToken)));
    assert_eq!(tree_of("(+ 1 2 "), Err(Error::Syntax(SyntaxFault::Unfinished)));
    assert_eq!(tree_of("(+ 1 2) (+ 3 4)"), Err(Error::Syntax(SyntaxFault::Unfinished)));
    assert_eq!(tree_of(""), Err(Error::Syntax(SyntaxFault::Unfinished)));
    assert_eq!(tree_of("(").unwrap_err().kind(), ErrorKind::SyntaxError);
}

#[test]
fn push_production_takes_the_items_last_first() {
    let stack = vec![Production::Tok(Token::Lparen)];
    let list = vec![number(2), number(1), ParseTree::Leaf(Token::Minus)];
    assert_eq!(
        push_production(stack, list),
        Ok(vec![
            Production::Tok(Token::Lparen),
            Production::Tree(ParseTree::Branch(Op::Sub, vec![number(1), number(2)])),
        ])
    );
    assert_eq!(push_production(vec![], vec![]), Err(Error::Syntax(SyntaxFault::EmptyForm)));
    assert_eq!(
        push_production(vec![], vec![ParseTree::Branch(Op::List, vec![])]),
        Err(Error::Syntax(SyntaxFault::OperatorIsTree))
    );
    assert_eq!(
        push_production(vec![], vec![number(1)]),
        Err(Error::Syntax(SyntaxFault::InvalidOperator))
    );
}

#[test]
fn close_form_folds_the_items_above_the_last_open() {
    let stack = vec![
        Production::Tok(Token::Lparen),
        Production::Tok(Token::Plus),
        Production::Tok(Token::Lparen),
        Production::Tok(Token::Minus),
        Production::Tok(Token::Int(Integer::from_i64(1))),
        Production::Tree(ParseTree::Branch(Op::List, vec![])),
    ];
    assert_eq!(
        close_form(stack),
        Ok(vec![
            Production::Tok(Token::Lparen),
            Production::Tok(Token::Plus),
            Production::Tree(ParseTree::Branch(
                Op::Sub,
                vec![number(1), ParseTree::Branch(Op::List, vec![])]
            )),
        ])
    );
    assert_eq!(
        close_form(vec![Production::Tok(Token::Plus)]),
        Err(Error::Syntax(SyntaxFault::UnmatchedClose))
    );
}
