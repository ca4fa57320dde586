use num_bigint::BigInt;
use num_traits::ToPrimitive;
use stutter::decimal::Decimal;
use stutter::decimal::DecimalAnswer;
use stutter::decimal::DecimalQuery;
use stutter::decimal::Ledger;
use stutter::decimal::NumericOp;
use stutter::env::Env;
use stutter::error::Error;
use stutter::error::ErrorKind;
use stutter::error::SyntaxFault;
use stutter::error::TypeFault;
use stutter::integer::Integer;
use stutter::interpreter::run;
use stutter::interpreter::run_within;
use stutter::render::render;
use stutter::token::Op;
use stutter::tree::StutterObject;

fn dec(value: f64) -> Decimal {
    Decimal { bits: value.to_bits() }
}

fn float(d: &Decimal) -> f64 {
    f64::from_bits(d.bits)
}

fn answer(query: &DecimalQuery) -> DecimalAnswer {
    match query {
        DecimalQuery::Literal(text) => match text.parse::<f64>() {
            Ok(value) => DecimalAnswer::Number(dec(value)),
            Err(_) => DecimalAnswer::Impossible,
        },
        DecimalQuery::FromInteger(n) => {
            match BigInt::from_signed_bytes_le(&n.to_signed_bytes()).to_f64() {
                Some(value) => DecimalAnswer::Number(dec(value)),
                None => DecimalAnswer::Impossible,
            }
        }
        DecimalQuery::Combine(op, a, b) => {
            let (x, y) = (float(a), float(b));
            match op {
                NumericOp::Add => DecimalAnswer::Number(dec(x + y)),
                NumericOp::Sub => DecimalAnswer::Number(dec(x - y)),
                NumericOp::Mul => DecimalAnswer::Number(dec(x * y)),
                NumericOp::Div => DecimalAnswer::Number(dec(x / y)),
                NumericOp::Mod => DecimalAnswer::Number(dec(x % y)),
                NumericOp::Pow => DecimalAnswer::Number(dec(x.powf(y))),
                NumericOp::Gt => DecimalAnswer::Truth(x > y),
                NumericOp::Lt => DecimalAnswer::Truth(x < y),
                NumericOp::Eq => DecimalAnswer::Truth(x == y),
                NumericOp::Gte => DecimalAnswer::Truth(x >= y),
                NumericOp::Lte => DecimalAnswer::Truth(x <= y),
            }
        }
        DecimalQuery::Display(d) => DecimalAnswer::Text(float(d).to_string()),
    }
}

fn eval_text(cmd: &str, global: &mut Env) -> Result<StutterObject, Error> {
    let mut ledger = Ledger::new();
    loop {
        match run(&String::from(cmd), global, &ledger) {
            Err(Error::NeedsDecimal(query)) => {
                let reply = answer(&query);
                ledger.record(query, reply);
            }
            other => return other,
        }
    }
}

fn show(value: &StutterObject) -> String {
    let mut ledger = Ledger::new();
    loop {
        match render(value, &ledger) {
            Err(Error::NeedsDecimal(query)) => {
                let reply = answer(&query);
                ledger.record(query, reply);
            }
            Ok(text) => return text,
            Err(other) => panic!("{:?}", other),
        }
    }
}

fn eval_show(cmd: &str, global: &mut Env) -> String {
    show(&eval_text(cmd, global).unwrap())
}

fn num(n: i64) -> StutterObject {
    StutterObject::Int(Integer::from_i64(n))
}

fn big(text: &str) -> StutterObject {
    StutterObject::Int(Integer::parse(text).unwrap())
}

#[test]
fn sum_less_addend_gives_first_at_any_width() {
    let mut global = Env::new();
    let a = "123456789012345678901234567890123456789012345678901234567890";
    let b = "987654321098765432109876543210987654321098765432109876543210";
    let cmd = format!("(- (+ {} {}) {}) ", a, b, b);
    assert_eq!(eval_text(&cmd, &mut global), Ok(big(a)));
    assert_eq!(eval_text("(- (+ -7 3) 3) ", &mut global), Ok(num(-7)));
}

#[test]
fn integer_division_gives_a_decimal() {
    let mut global = Env::new();
    assert_eq!(eval_text("(/ 10 2) ", &mut global), Ok(StutterObject::Dec(dec(5.0))));
    assert_eq!(eval_text("(/ 7 2) ", &mut global), Ok(StutterObject::Dec(dec(3.5))));
    assert_eq!(eval_show("(/ 10 2) ", &mut global), "5");
}

#[test]
fn integer_division_asks_the_host_for_each_step() {
    let mut global = Env::new();
    let mut ledger = Ledger::new();
    let cmd = String::from("(/ 10 2) ");
    let first = run(&cmd, &mut global, &ledger);
    assert_eq!(first, Err(Error::NeedsDecimal(DecimalQuery::FromInteger(Integer::from_i64(10)))));
    ledger.record(
        DecimalQuery::FromInteger(Integer::from_i64(10)),
        DecimalAnswer::Number(dec(10.0)),
    );
    let second = run(&cmd, &mut global, &ledger);
    assert_eq!(second, Err(Error::NeedsDecimal(DecimalQuery::FromInteger(Integer::from_i64(2)))));
    ledger.record(
        DecimalQuery::FromInteger(Integer::from_i64(2)),
        DecimalAnswer::Number(dec(2.0)),
    );
    let third = run(&cmd, &mut global, &ledger);
    assert_eq!(
        third,
        Err(Error::NeedsDecimal(DecimalQuery::Combine(NumericOp::Div, dec(10.0), dec(2.0))))
    );
    ledger.record(
        DecimalQuery::Combine(NumericOp::Div, dec(10.0), dec(2.0)),
        DecimalAnswer::Number(dec(5.0)),
    );
    assert_eq!(run(&cmd, &mut global, &ledger), Ok(StutterObject::Dec(dec(5.0))));
}

#[test]
fn an_answer_of_the_wrong_kind_is_an_arithmetic_error() {
    let mut global = Env::new();
    let mut ledger = Ledger::new();
    ledger.record(DecimalQuery::FromInteger(Integer::from_i64(10)), DecimalAnswer::Impossible);
    let result = run(&String::from("(/ 10 2) "), &mut global, &ledger);
    assert_eq!(result, Err(Error::Arithmetic));
    assert_eq!(result.unwrap_err().kind(), ErrorKind::ArithmeticError);
}

#[test]
fn let_binds_in_sequence() {
    let mut global = Env::new();
    assert_eq!(eval_text("(let (x 2) (y (+ x 1)) (+ x y)) ", &mut global), Ok(num(5)));
    assert_eq!(eval_text("(let (x 10) (y (* x x)) (z (+ x y)) (- z 1)) ", &mut global), Ok(num(109)));
}

#[test]
fn let_with_a_literal_in_parentheses_is_a_syntax_error() {
    let mut global = Env::new();
    assert_eq!(
        eval_text("(let (x (2)) (y (+ x 1)) (+ x y)) ", &mut global),
        Err(Error::Syntax(SyntaxFault::InvalidOperator))
    );
}

#[test]
fn let_binds_lists_and_functions() {
    let mut global = Env::new();
    assert_eq!(eval_show("(let (l (list 1 2 3)) (append 4 l)) ", &mut global), "(1 2 3 4)");
    assert_eq!(
        eval_text("(let (twice (lambda (n) (* 2 n))) (twice 21)) ", &mut global),
        Ok(num(42))
    );
    assert_eq!(eval_show("(let (x 1) (l (list x x)) l) ", &mut global), "(1 1)");
}

#[test]
fn let_does_not_reach_the_global_definitions() {
    let mut global = Env::new();
    assert_eq!(eval_text("(let (x 2) x) ", &mut global), Ok(num(2)));
    assert_eq!(
        eval_text("(x) ", &mut global),
        Err(Error::UnboundSymbol(String::from("x")))
    );
    assert!(global.get("x").is_none());
}

#[test]
fn let_shapes_that_are_refused() {
    let mut global = Env::new();
    assert_eq!(eval_text("(let 1) ", &mut global), Err(Error::Syntax(SyntaxFault::LetForm)));
    assert_eq!(eval_text("(let 1 2) ", &mut global), Err(Error::Syntax(SyntaxFault::LetClause)));
    assert_eq!(
        eval_text("(let (x 1 2) x) ", &mut global),
        Err(Error::Syntax(SyntaxFault::LetClause))
    );
    assert_eq!(
        eval_text("(let (+ 1) 2) ", &mut global),
        Err(Error::Syntax(SyntaxFault::LetClause))
    );
}

#[test]
fn quote_passes_literals_and_refuses_forms() {
    let mut global = Env::new();
    assert_eq!(
        eval_text("(quote (list 1 2 3)) ", &mut global),
        Err(Error::Syntax(SyntaxFault::NotQuotable))
    );
    assert_eq!(eval_text("(quote 5) ", &mut global), Ok(num(5)));
    assert_eq!(
        eval_text("(quote (f 1 2)) ", &mut global),
        Err(Error::Syntax(SyntaxFault::BareCall))
    );
    assert_eq!(eval_show("(quote (lambda (x) x)) ", &mut global), "<lambda>");
    assert_eq!(eval_text("(quote) ", &mut global), Err(Error::Syntax(SyntaxFault::QuoteForm)));
    assert_eq!(eval_text("(quote 1 2) ", &mut global), Err(Error::Syntax(SyntaxFault::QuoteForm)));
}

#[test]
fn if_evaluates_one_branch_only() {
    let mut global = Env::new();
    assert_eq!(eval_text("(def True true) ", &mut global), Ok(StutterObject::Nil));
    assert_eq!(eval_text("(if True (quote 0) (/ 1 0)) ", &mut global), Ok(num(0)));
    assert_eq!(eval_text("(if (> 3 2) (+ 1 1) (- 1 1)) ", &mut global), Ok(num(2)));
    assert_eq!(eval_text("(if (< 3 2) (+ 1 1) (- 1 1)) ", &mut global), Ok(num(0)));
    assert_eq!(eval_text("(if true 1 (undefined 2)) ", &mut global), Ok(num(1)));
    assert_eq!(eval_text("(if false (% 1 0) 2) ", &mut global), Ok(num(2)));
    assert_eq!(eval_text("(if false (def y 1) 2) ", &mut global), Ok(num(2)));
    assert!(global.get("y").is_none());
}

#[test]
fn if_shapes_that_are_refused() {
    let mut global = Env::new();
    assert_eq!(eval_text("(if true 1) ", &mut global), Err(Error::Syntax(SyntaxFault::IfForm)));
    assert_eq!(eval_text("(if 1 2 3) ", &mut global), Err(Error::Type(TypeFault::Condition)));
}

#[test]
fn take_and_drop_make_the_list_again() {
    let mut global = Env::new();
    assert_eq!(eval_text("(def L (list 1 2 3 4)) ", &mut global), Ok(StutterObject::Nil));
    for i in 1..5 {
        let cmd = format!("(cat (take {} L) (drop {} L)) ", i, i);
        assert_eq!(eval_show(&cmd, &mut global), "(1 2 3 4)");
    }
    assert_eq!(eval_show("(cat (take 0 L) (drop 0 L)) ", &mut global), "()");
    assert_eq!(eval_show("(cat (take 0 (list)) (drop 0 (list))) ", &mut global), "()");
}

#[test]
fn range_is_half_open_and_empty_when_not_ascending() {
    let mut global = Env::new();
    assert_eq!(eval_text("(range 3 3) ", &mut global), Ok(StutterObject::List(vec![])));
    assert_eq!(eval_text("(range 5 2) ", &mut global), Ok(StutterObject::List(vec![])));
    assert_eq!(
        eval_text("(range 0 3) ", &mut global),
        Ok(StutterObject::List(vec![num(0), num(1), num(2)]))
    );
    assert_eq!(eval_show("(range -2 2) ", &mut global), "(-2 -1 0 1)");
}

#[test]
fn range_bounds_that_do_not_fit() {
    let mut global = Env::new();
    assert_eq!(
        eval_text("(range 0 100000000000000000000000000) ", &mut global),
        Err(Error::Arithmetic)
    );
    assert_eq!(
        eval_text("(range 9223372036854775807 9223372036854775809) ", &mut global),
        Err(Error::Arithmetic)
    );
    assert_eq!(eval_text("(range 1 true) ", &mut global), Err(Error::Type(TypeFault::RangeForm)));
    assert_eq!(eval_text("(range 1) ", &mut global), Err(Error::Type(TypeFault::MissingOperand)));
}

#[test]
fn free_names_are_looked_up_where_the_function_is_called() {
    let mut global = Env::new();
    assert_eq!(
        eval_text("(let (g 1) (f (lambda (x) g)) (let (g 2) (f 0))) ", &mut global),
        Ok(num(2))
    );
    assert_eq!(eval_text("(def g 10) ", &mut global), Ok(StutterObject::Nil));
    assert_eq!(eval_text("(def f (lambda (x) (+ x g))) ", &mut global), Ok(StutterObject::Nil));
    assert_eq!(eval_text("(f 1) ", &mut global), Ok(num(11)));
    assert_eq!(eval_text("(let (g 20) (f 1)) ", &mut global), Ok(num(21)));
    assert_eq!(eval_text("(def h (lambda (g) (f 1))) ", &mut global), Ok(StutterObject::Nil));
    assert_eq!(eval_text("(h 100) ", &mut global), Ok(num(101)));
}

#[test]
fn empty_input_is_nil() {
    let mut global = Env::new();
    assert_eq!(eval_text("", &mut global), Ok(StutterObject::Nil));
    assert_eq!(eval_text("   ", &mut global), Ok(StutterObject::Nil));
    assert_eq!(eval_text(" \n\t ", &mut global), Ok(StutterObject::Nil));
    assert_eq!(eval_text("; only a comment", &mut global), Ok(StutterObject::Nil));
}

#[test]
fn a_single_token_is_no_form() {
    let mut global = Env::new();
    assert_eq!(eval_text("42 ", &mut global), Err(Error::Syntax(SyntaxFault::UnmatchedToken)));
    assert_eq!(eval_text("x ", &mut global), Err(Error::Syntax(SyntaxFault::UnmatchedToken)));
}

#[test]
fn literals_evaluate_to_themselves() {
    let mut global = Env::new();
    assert_eq!(eval_text("(quote 42) ", &mut global), Ok(num(42)));
    assert_eq!(eval_text("(quote -42) ", &mut global), Ok(num(-42)));
    assert_eq!(eval_text("(quote true) ", &mut global), Ok(StutterObject::Bool(true)));
    assert_eq!(eval_text("(quote false) ", &mut global), Ok(StutterObject::Bool(false)));
    assert_eq!(eval_text("(quote 2.5) ", &mut global), Ok(StutterObject::Dec(dec(2.5))));
    assert_eq!(eval_text("(quote 1e3) ", &mut global), Ok(StutterObject::Dec(dec(1000.0))));
    assert_eq!(eval_text("(list 1 true) ", &mut global), Ok(StutterObject::List(vec![num(1), StutterObject::Bool(true)])));
}

#[test]
fn arithmetic_on_integers_is_exact() {
    let mut global = Env::new();
    assert_eq!(eval_text("(+ 1 2 3 (- 4 5) (* (- 6 7) 8)) ", &mut global), Ok(num(-3)));
    assert_eq!(eval_text("(* 99999999999 99999999999) ", &mut global), Ok(big("9999999999800000000001")));
    assert_eq!(eval_text("(pow 2 100) ", &mut global), Ok(big("1267650600228229401496703205376")));
    assert_eq!(eval_text("(pow 7 0) ", &mut global), Ok(num(1)));
    assert_eq!(eval_text("(% 7 2) ", &mut global), Ok(num(1)));
    assert_eq!(eval_text("(% -7 2) ", &mut global), Ok(num(-1)));
    assert_eq!(eval_text("(% 7 -2) ", &mut global), Ok(num(1)));
    assert_eq!(eval_text("(- 10 1 2 3) ", &mut global), Ok(num(4)));
    assert_eq!(eval_text("(+ 5) ", &mut global), Ok(num(5)));
}

#[test]
fn comparisons_on_integers() {
    let mut global = Env::new();
    assert_eq!(eval_text("(> 3 2) ", &mut global), Ok(StutterObject::Bool(true)));
    assert_eq!(eval_text("(> 2 3) ", &mut global), Ok(StutterObject::Bool(false)));
    assert_eq!(eval_text("(< 2 3) ", &mut global), Ok(StutterObject::Bool(true)));
    assert_eq!(eval_text("(< 3 3) ", &mut global), Ok(StutterObject::Bool(false)));
    assert_eq!(eval_text("(= 3 3) ", &mut global), Ok(StutterObject::Bool(true)));
    assert_eq!(eval_text("(= 3 4) ", &mut global), Ok(StutterObject::Bool(false)));
    assert_eq!(eval_text("(>= 3 3) ", &mut global), Ok(StutterObject::Bool(true)));
    assert_eq!(eval_text("(>= 2 3) ", &mut global), Ok(StutterObject::Bool(false)));
    assert_eq!(eval_text("(<= 3 3) ", &mut global), Ok(StutterObject::Bool(true)));
    assert_eq!(eval_text("(<= 4 3) ", &mut global), Ok(StutterObject::Bool(false)));
}

#[test]
fn arithmetic_errors_on_integers() {
    let mut global = Env::new();
    assert_eq!(eval_text("(% 1 0) ", &mut global), Err(Error::Arithmetic));
    assert_eq!(eval_text("(pow 2 -1) ", &mut global), Err(Error::Arithmetic));
    assert_eq!(
        eval_text("(pow 2 100000000000000000000000000000) ", &mut global),
        Err(Error::Arithmetic)
    );
}

#[test]
fn decimals_mix_with_integers() {
    let mut global = Env::new();
    assert_eq!(eval_text("(+ 1 2.5) ", &mut global), Ok(StutterObject::Dec(dec(3.5))));
    assert_eq!(eval_text("(+ 2.5 1) ", &mut global), Ok(StutterObject::Dec(dec(3.5))));
    assert_eq!(eval_text("(* 1.5 1.5) ", &mut global), Ok(StutterObject::Dec(dec(2.25))));
    assert_eq!(eval_text("(- 1.5 1) ", &mut global), Ok(StutterObject::Dec(dec(0.5))));
    assert_eq!(eval_text("(> 2.5 2) ", &mut global), Ok(StutterObject::Bool(true)));
    assert_eq!(eval_text("(< 2 1.5) ", &mut global), Ok(StutterObject::Bool(false)));
    assert_eq!(eval_text("(= 2.0 2) ", &mut global), Ok(StutterObject::Bool(true)));
    assert_eq!(eval_text("(pow 2.0 3) ", &mut global), Ok(StutterObject::Dec(dec(8.0))));
    assert_eq!(eval_text("(% 7.5 2) ", &mut global), Ok(StutterObject::Dec(dec(1.5))));
    assert_eq!(eval_text("(/ 1 0) ", &mut global), Ok(StutterObject::Dec(dec(f64::INFINITY))));
}

#[test]
fn operands_of_other_types_are_a_type_error() {
    let mut global = Env::new();
    let result = eval_text("(+ 1 true) ", &mut global);
    assert_eq!(result, Err(Error::Operands(Op::Add, num(1), StutterObject::Bool(true))));
    assert_eq!(result.unwrap_err().kind(), ErrorKind::TypeError);
    assert_eq!(
        eval_text("(< (list 1) 2) ", &mut global),
        Err(Error::Operands(Op::Lt, StutterObject::List(vec![num(1)]), num(2)))
    );
    assert_eq!(eval_text("(+) ", &mut global), Err(Error::Type(TypeFault::MissingOperand)));
}

#[test]
fn def_binds_globally_and_gives_nil() {
    let mut global = Env::new();
    assert_eq!(eval_text("(def x (+ 1 2)) ", &mut global), Ok(StutterObject::Nil));
    assert_eq!(global.get("x"), Some(&num(3)));
    assert_eq!(eval_text("(x) ", &mut global), Ok(num(3)));
    assert_eq!(eval_text("(x) ", &mut global), Ok(num(3)));
    assert_eq!(eval_text("(def x 4) ", &mut global), Ok(StutterObject::Nil));
    assert_eq!(eval_text("(x) ", &mut global), Ok(num(4)));
}

#[test]
fn def_is_not_committed_when_its_expression_fails() {
    let mut global = Env::new();
    assert_eq!(
        eval_text("(def x (+ 1 nothing)) ", &mut global),
        Err(Error::UnboundSymbol(String::from("nothing")))
    );
    assert!(global.get("x").is_none());
}

#[test]
fn def_shapes_that_are_refused() {
    let mut global = Env::new();
    assert_eq!(eval_text("(def x) ", &mut global), Err(Error::Syntax(SyntaxFault::DefForm)));
    assert_eq!(eval_text("(def 1 2) ", &mut global), Err(Error::Syntax(SyntaxFault::DefName)));
    assert_eq!(eval_text("(def (f) 2) ", &mut global), Err(Error::Syntax(SyntaxFault::DefName)));
}

#[test]
fn a_pending_question_leaves_the_definitions_as_they_were() {
    let mut global = Env::new();
    let ledger = Ledger::new();
    let result = run(&String::from("(list (def x 1) (/ 1 2)) "), &mut global, &ledger);
    assert_eq!(result.unwrap_err().kind(), ErrorKind::Pending);
    assert!(global.get("x").is_none());
    assert_eq!(eval_show("(list (def x 1) (/ 1 2)) ", &mut global), "(Nil 0.5)");
    assert_eq!(global.get("x"), Some(&num(1)));
}

#[test]
fn a_failure_keeps_the_definitions_made_before_it() {
    let mut global = Env::new();
    assert_eq!(
        eval_text("(list (def x 1) nothing) ", &mut global),
        Err(Error::UnboundSymbol(String::from("nothing")))
    );
    assert_eq!(global.get("x"), Some(&num(1)));
}

#[test]
fn functions_take_their_arguments_by_position() {
    let mut global = Env::new();
    assert_eq!(eval_text("(def f (lambda (x y z) (+ x (* y z)))) ", &mut global), Ok(StutterObject::Nil));
    assert_eq!(eval_text("(f 1 2 3) ", &mut global), Ok(num(7)));
    assert_eq!(eval_text("(f 1 2 3 4) ", &mut global), Ok(num(7)));
    assert_eq!(
        eval_text("(f 1 2) ", &mut global),
        Err(Error::UnboundSymbol(String::from("z")))
    );
    assert_eq!(
        eval_text("(nothing 1) ", &mut global),
        Err(Error::UnboundSymbol(String::from("nothing")))
    );
}

#[test]
fn functions_may_call_themselves() {
    let mut global = Env::new();
    assert_eq!(
        eval_text("(def fact (lambda (n) (if (< n 2) 1 (* n (fact (- n 1)))))) ", &mut global),
        Ok(StutterObject::Nil)
    );
    assert_eq!(eval_text("(fact 20) ", &mut global), Ok(big("2432902008176640000")));
    assert_eq!(eval_text("(fact 25) ", &mut global), Ok(big("15511210043330985984000000")));
}

#[test]
fn functions_are_values() {
    let mut global = Env::new();
    assert_eq!(
        eval_text(
            "(def map (lambda (f l) (if (= (len l) 0) (list) (cat (list (f (index 0 l))) (map f (drop 1 l)))))) ",
            &mut global
        ),
        Ok(StutterObject::Nil)
    );
    assert_eq!(eval_show("(map (lambda (x) (+ 1 x)) (range 0 5)) ", &mut global), "(1 2 3 4 5)");
}

#[test]
fn runaway_recursion_exhausts_the_depth() {
    let mut global = Env::new();
    let ledger = Ledger::new();
    assert_eq!(eval_text("(def f (lambda (x) (f x))) ", &mut global), Ok(StutterObject::Nil));
    let result = run_within(&String::from("(f 1) "), &mut global, &ledger, 40);
    assert_eq!(result, Err(Error::ResourceExhausted));
    assert_eq!(result.unwrap_err().kind(), ErrorKind::ResourceExhausted);
    assert_eq!(run(&String::from("(f 1) "), &mut global, &ledger), Err(Error::ResourceExhausted));
}

#[test]
fn depth_counts_the_nesting_of_forms() {
    let mut global = Env::new();
    let ledger = Ledger::new();
    let cmd = String::from("(+ 1 (+ 2 3)) ");
    assert_eq!(run_within(&cmd, &mut global, &ledger, 0), Err(Error::ResourceExhausted));
    assert_eq!(run_within(&cmd, &mut global, &ledger, 2), Err(Error::ResourceExhausted));
    assert_eq!(run_within(&cmd, &mut global, &ledger, 3), Ok(num(6)));
    assert_eq!(run_within(&String::from("(quote 7) "), &mut global, &ledger, 1), Err(Error::ResourceExhausted));
    assert_eq!(run_within(&String::from("(quote 7) "), &mut global, &ledger, 2), Ok(num(7)));
}

#[test]
fn lists_are_built_and_read() {
    let mut global = Env::new();
    assert_eq!(eval_show("(list 1 (+ 1 1) (list 3)) ", &mut global), "(1 2 (3))");
    assert_eq!(eval_text("(index 1 (list 10 20 30)) ", &mut global), Ok(num(20)));
    assert_eq!(eval_show("(take 2 (list 10 20 30)) ", &mut global), "(10 20)");
    assert_eq!(eval_show("(take 0 (list 10 20 30)) ", &mut global), "()");
    assert_eq!(eval_show("(drop 1 (list 10 20 30)) ", &mut global), "(20 30)");
    assert_eq!(eval_show("(drop 3 (list 10 20 30)) ", &mut global), "()");
    assert_eq!(eval_show("(drop 0 (list 10 20 30)) ", &mut global), "()");
    assert_eq!(eval_show("(drop -1 (list 10 20 30)) ", &mut global), "()");
    assert_eq!(eval_show("(append 4 (list 1 2 3)) ", &mut global), "(1 2 3 4)");
    assert_eq!(eval_show("(cat (list 1) (list 2 3) (list)) ", &mut global), "(1 2 3)");
    assert_eq!(eval_show("(cat) ", &mut global), "()");
    assert_eq!(eval_text("(len (list 1 2 3)) ", &mut global), Ok(num(3)));
    assert_eq!(eval_text("(len (list)) ", &mut global), Ok(num(0)));
}

#[test]
fn offsets_outside_the_list_are_index_errors() {
    let mut global = Env::new();
    let result = eval_text("(index 3 (list 10 20 30)) ", &mut global);
    assert_eq!(result, Err(Error::Index));
    assert_eq!(result.unwrap_err().kind(), ErrorKind::IndexError);
    assert_eq!(eval_text("(take 4 (list 10 20 30)) ", &mut global), Err(Error::Index));
    assert_eq!(eval_text("(drop 4 (list 10 20 30)) ", &mut global), Err(Error::Index));
    assert_eq!(eval_text("(index -1 (list 10 20 30)) ", &mut global), Err(Error::Arithmetic));
    assert_eq!(eval_text("(take -1 (list 10 20 30)) ", &mut global), Err(Error::Arithmetic));
    assert_eq!(
        eval_text("(index 100000000000000000000000000 (list 1)) ", &mut global),
        Err(Error::Arithmetic)
    );
}

#[test]
fn list_operators_on_other_types_are_type_errors() {
    let mut global = Env::new();
    assert_eq!(eval_text("(index 1 2) ", &mut global), Err(Error::Type(TypeFault::IndexForm)));
    assert_eq!(eval_text("(take true (list)) ", &mut global), Err(Error::Type(TypeFault::TakeForm)));
    assert_eq!(eval_text("(drop 1 2) ", &mut global), Err(Error::Type(TypeFault::DropForm)));
    assert_eq!(eval_text("(append 1 2) ", &mut global), Err(Error::Type(TypeFault::AppendForm)));
    assert_eq!(eval_text("(cat (list 1) 2) ", &mut global), Err(Error::Type(TypeFault::CatForm)));
    assert_eq!(eval_text("(len 2) ", &mut global), Err(Error::Type(TypeFault::LenForm)));
    assert_eq!(eval_text("(len) ", &mut global), Err(Error::Type(TypeFault::MissingOperand)));
    assert_eq!(eval_text("(index 1) ", &mut global), Err(Error::Type(TypeFault::MissingOperand)));
}

#[test]
fn lambda_shapes_that_are_refused() {
    let mut global = Env::new();
    assert_eq!(
        eval_text("(lambda (x)) ", &mut global),
        Err(Error::Syntax(SyntaxFault::LambdaForm))
    );
    assert_eq!(
        eval_text("(lambda x x) ", &mut global),
        Err(Error::Syntax(SyntaxFault::MalformedParameters))
    );
    assert_eq!(
        eval_text("(lambda (x 1) x) ", &mut global),
        Err(Error::Syntax(SyntaxFault::MalformedParameters))
    );
    assert_eq!(
        eval_text("(lambda (+ x) x) ", &mut global),
        Err(Error::Syntax(SyntaxFault::MalformedParameters))
    );
}

#[test]
fn a_keyword_is_no_value() {
    let mut global = Env::new();
    let result = eval_text("(+ 1 +) ", &mut global);
    assert_eq!(result, Err(Error::Syntax(SyntaxFault::NotAnAtom)));
    assert_eq!(result.unwrap_err().kind(), ErrorKind::SyntaxError);
}

#[test]
fn values_are_written() {
    let mut global = Env::new();
    assert_eq!(show(&StutterObject::Nil), "Nil");
    assert_eq!(show(&big("-123456789012345678901234567890")), "-123456789012345678901234567890");
    assert_eq!(show(&num(0)), "0");
    assert_eq!(show(&StutterObject::Bool(true)), "True");
    assert_eq!(show(&StutterObject::Bool(false)), "False");
    assert_eq!(show(&StutterObject::Id(String::from("name"))), "name");
    assert_eq!(show(&StutterObject::Dec(dec(2.5))), "2.5");
    assert_eq!(show(&StutterObject::List(vec![])), "()");
    assert_eq!(show(&StutterObject::List(vec![num(1)])), "(1)");
    assert_eq!(
        show(&StutterObject::List(vec![num(1), StutterObject::List(vec![num(2), num(3)]), StutterObject::Nil])),
        "(1 (2 3) Nil)"
    );
    assert_eq!(eval_show("(lambda (x y) (+ x y)) ", &mut global), "<lambda>");
    assert_eq!(eval_show("(list 1.5 true) ", &mut global), "(1.5 True)");
}

#[test]
fn writing_a_decimal_asks_the_host() {
    let ledger = Ledger::new();
    assert_eq!(
        render(&StutterObject::Dec(dec(2.5)), &ledger),
        Err(Error::NeedsDecimal(DecimalQuery::Display(dec(2.5))))
    );
    assert_eq!(render(&num(7), &ledger), Ok(String::from("7")));
}

#[test]
fn evaluation_gives_no_name() {
    let mut global = Env::new();
    assert_eq!(eval_text("(def x 7) ", &mut global), Ok(StutterObject::Nil));
    assert_eq!(eval_text("(quote x) ", &mut global), Ok(num(7)));
    assert_eq!(eval_text("(list x (quote x)) ", &mut global), Ok(StutterObject::List(vec![num(7), num(7)])));
    assert_eq!(
        eval_text("(quote y) ", &mut global),
        Err(Error::UnboundSymbol(String::from("y")))
    );
    assert_eq!(eval_text("(+ x) ", &mut global), Ok(num(7)));
}

#[test]
fn more_answers_do_not_change_a_result() {
    let mut global = Env::new();
    let mut ledger = Ledger::new();
    let cmd = String::from("(+ (* 2 3) 1) ");
    assert_eq!(run(&cmd, &mut global, &ledger), Ok(num(7)));
    ledger.record(DecimalQuery::Literal(String::from("1.5")), DecimalAnswer::Number(dec(1.5)));
    ledger.record(DecimalQuery::FromInteger(Integer::from_i64(2)), DecimalAnswer::Number(dec(2.0)));
    assert_eq!(run(&cmd, &mut global, &ledger), Ok(num(7)));
    let mixed = String::from("(+ 1.5 2) ");
    assert_eq!(
        run(&mixed, &mut global, &ledger),
        Err(Error::NeedsDecimal(DecimalQuery::Combine(NumericOp::Add, dec(1.5), dec(2.0))))
    );
    ledger.record(
        DecimalQuery::Combine(NumericOp::Add, dec(1.5), dec(2.0)),
        DecimalAnswer::Number(dec(3.5)),
    );
    assert_eq!(run(&mixed, &mut global, &ledger), Ok(StutterObject::Dec(dec(3.5))));
    ledger.record(DecimalQuery::Display(dec(3.5)), DecimalAnswer::Text(String::from("3.5")));
    assert_eq!(run(&mixed, &mut global, &ledger), Ok(StutterObject::Dec(dec(3.5))));
}
