use stutter::decimal::is_decimal_literal;
use stutter::decimal::Decimal;
use stutter::decimal::DecimalAnswer;
use stutter::decimal::DecimalQuery;
use stutter::decimal::Ledger;
use stutter::error::Error;
use stutter::error::ErrorKind;
use stutter::integer::Integer;
use stutter::lexer::lex;
use stutter::lexer::to_token;
use stutter::token::Token;

fn word(text: &str) -> Result<Token, Error> {
    to_token(&String::from(text), &Ledger::new())
}

fn tokens(text: &str) -> Result<Vec<Token>, Error> {
    lex(&String::from(text), &Ledger::new())
}

fn number(n: i64) -> Token {
    Token::Int(Integer::from_i64(n))
}

fn name(text: &str) -> Token {
    Token::Id(String::from(text))
}

#[test]
fn keywords_are_recognised() {
    assert_eq!(word("("), Ok(Token::Lparen));
    assert_eq!(word(")"), Ok(Token::Rparen));
    assert_eq!(word("+"), Ok(Token::Plus));
    assert_eq!(word("-"), Ok(Token::Minus));
    assert_eq!(word("*"), Ok(Token::Times));
    assert_eq!(word("/"), Ok(Token::Slash));
    assert_eq!(word("%"), Ok(Token::Percent));
    assert_eq!(word("pow"), Ok(Token::Pow));
    assert_eq!(word("<"), Ok(Token::Lt));
    assert_eq!(word(">"), Ok(Token::Gt));
    assert_eq!(word("="), Ok(Token::Eq));
    assert_eq!(word(">="), Ok(Token::Gte));
    assert_eq!(word("<="), Ok(Token::Lte));
    assert_eq!(word("let"), Ok(Token::Let));
    assert_eq!(word("def"), Ok(Token::Def));
    assert_eq!(word("list"), Ok(Token::List));
    assert_eq!(word("take"), Ok(Token::Take));
    assert_eq!(word("if"), Ok(Token::If));
    assert_eq!(word("index"), Ok(Token::Index));
    assert_eq!(word("drop"), Ok(Token::Drop));
    assert_eq!(word("quote"), Ok(Token::Quote));
    assert_eq!(word("append"), Ok(Token::Append));
    assert_eq!(word("range"), Ok(Token::Range));
    assert_eq!(word("cat"), Ok(Token::Cat));
    assert_eq!(word("len"), Ok(Token::Len));
}

#[test]
fn other_words_are_names() {
    assert_eq!(word("lambda"), Ok(name("lambda")));
    assert_eq!(word("x"), Ok(name("x")));
    assert_eq!(word("True"), Ok(name("True")));
    assert_eq!(word("List"), Ok(name("List")));
    assert_eq!(word("e5"), Ok(name("e5")));
    assert_eq!(word("1x"), Ok(name("1x")));
    assert_eq!(word("--"), Ok(name("--")));
    assert_eq!(word("λ"), Ok(name("λ")));
}

#[test]
fn integers_come_before_everything_else() {
    assert_eq!(word("0"), Ok(number(0)));
    assert_eq!(word("42"), Ok(number(42)));
    assert_eq!(word("-42"), Ok(number(-42)));
    assert_eq!(word("+42"), Ok(number(42)));
    assert_eq!(word("007"), Ok(number(7)));
    assert_eq!(word("1_000"), Ok(number(1000)));
    assert_eq!(word("-0"), Ok(number(0)));
    assert_eq!(
        word("340282366920938463463374607431768211456"),
        Ok(Token::Int(Integer::parse("340282366920938463463374607431768211456").unwrap()))
    );
}

#[test]
fn truth_values_are_written_small() {
    assert_eq!(word("true"), Ok(Token::Bool(true)));
    assert_eq!(word("false"), Ok(Token::Bool(false)));
}

#[test]
fn a_decimal_is_what_the_host_says() {
    let query = DecimalQuery::Literal(String::from("2.5"));
    assert_eq!(word("2.5"), Err(Error::NeedsDecimal(DecimalQuery::Literal(String::from("2.5")))));
    assert_eq!(word("2.5").unwrap_err().kind(), ErrorKind::Pending);
    let mut ledger = Ledger::new();
    let bits = 2.5f64.to_bits();
    ledger.record(query, DecimalAnswer::Number(Decimal { bits }));
    assert_eq!(to_token(&String::from("2.5"), &ledger), Ok(Token::Dec(Decimal { bits })));
    assert_eq!(
        to_token(&String::from("3.5"), &ledger),
        Err(Error::NeedsDecimal(DecimalQuery::Literal(String::from("3.5"))))
    );
    ledger.record(DecimalQuery::Literal(String::from("3.5")), DecimalAnswer::Truth(true));
    assert_eq!(to_token(&String::from("3.5"), &ledger), Err(Error::Arithmetic));
}

#[test]
fn decimal_texts_are_recognised() {
    for text in [
        "1.5", "-1.5", "+1.5", "5.", ".5", "1e5", "1E5", "1e+5", "1e-5", "1.5e10", ".5e1", "5.e1",
        "inf", "-inf", "+inf", "INF", "Infinity", "infinity", "nan", "NaN", "-nan", "0.0", "1",
        "-1", "007",
    ] {
        assert!(is_decimal_literal(text), "{}", text);
        assert!(text.parse::<f64>().is_ok(), "{}", text);
    }
}

#[test]
fn other_texts_are_no_decimals() {
    for text in [
        "", "+", "-", ".", "e5", "1e", "1e+", "1.5.2", "1_000.5", "1.5x", "x1.5", "infinit",
        "infinityy", "na", "1 ", " 1", "--1", "+-1", "1e5.5", "0x10", "1,5", "٣",
    ] {
        assert!(!is_decimal_literal(text), "{}", text);
        assert!(text.parse::<f64>().is_err(), "{}", text);
    }
}

#[test]
fn a_form_is_lexed_token_by_token() {
    assert_eq!(
        tokens("(+ 1 (* 2 x))"),
        Ok(vec![
            Token::Lparen,
            Token::Plus,
            number(1),
            Token::Lparen,
            Token::Times,
            number(2),
            name("x"),
            Token::Rparen,
            Token::Rparen,
        ])
    );
    assert_eq!(tokens("(def f(lambda(x)x))").unwrap().len(), 11);
}

#[test]
fn blanks_part_tokens() {
    assert_eq!(tokens(""), Ok(vec![]));
    assert_eq!(tokens("   "), Ok(vec![]));
    assert_eq!(tokens(" a  b "), Ok(vec![name("a"), name("b")]));
    assert_eq!(tokens("a\nb\tc\rd "), Ok(vec![name("a"), name("b"), name("c"), name("d")]));
}

#[test]
fn a_text_that_ends_within_a_token_is_a_lex_error() {
    assert_eq!(tokens("abc"), Err(Error::Lex(String::from("abc"))));
    assert_eq!(tokens("(+ 1 2) x"), Err(Error::Lex(String::from("x"))));
    assert_eq!(tokens("abc").unwrap_err().kind(), ErrorKind::LexError);
    assert_eq!(tokens("(a)"), Ok(vec![Token::Lparen, name("a"), Token::Rparen]));
}

#[test]
fn a_comment_runs_to_the_end_of_the_line() {
    assert_eq!(tokens("(a ; b c)\n d) "), Ok(vec![
        Token::Lparen,
        name("a"),
        name("d"),
        Token::Rparen,
    ]));
    assert_eq!(tokens("; all of it"), Ok(vec![]));
    assert_eq!(tokens("a;b\nc "), Ok(vec![name("a"), name("c")]));
    assert_eq!(tokens("a ;; ( ; \n b "), Ok(vec![name("a"), name("b")]));
}
