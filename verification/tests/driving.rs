use stutter::decimal::Decimal;
use stutter::decimal::DecimalAnswer;
use stutter::decimal::DecimalQuery;
use stutter::decimal::Ledger;
use stutter::decimal::NumericOp;
use stutter::driver::append_line;
use stutter::driver::classify_input;
use stutter::driver::is_balanced;
use stutter::driver::split_forms;
use stutter::driver::Input;
use stutter::env::Env;
use stutter::integer::Integer;
use stutter::text::chars_of;
use stutter::text::count_chars;
use stutter::text::text_is;
use stutter::tree::StutterObject;

#[test]
fn count_chars_counts_each_occurrence() {
    assert_eq!(count_chars(&String::from("(a (b) c)"), '('), 2);
    assert_eq!(count_chars(&String::from("(a (b) c))"), ')'), 3);
    assert_eq!(count_chars(&String::from(""), '('), 0);
    assert_eq!(count_chars(&String::from("λλaλ"), 'λ'), 3);
    assert_eq!(count_chars(&String::from("abc"), 'x'), 0);
}

#[test]
fn input_is_complete_when_the_parentheses_balance() {
    assert!(is_balanced(&String::from("")));
    assert!(is_balanced(&String::from(" (+ 1 (* 2 3)) ")));
    assert!(!is_balanced(&String::from(" (+ 1 (* 2 3) ")));
    assert!(!is_balanced(&String::from(" (+ 1 2)) ")));
    assert!(is_balanced(&String::from(")(")));
}

#[test]
fn lines_are_added_with_a_blank_on_either_side() {
    let mut input = String::new();
    append_line(&mut input, "(+ 1");
    assert_eq!(input, " (+ 1 ");
    assert!(!is_balanced(&input));
    append_line(&mut input, "2)");
    assert_eq!(input, " (+ 1  2) ");
    assert!(is_balanced(&input));
    let mut empty = String::new();
    append_line(&mut empty, "");
    assert_eq!(empty, "  ");
}

#[test]
fn input_is_classified() {
    assert_eq!(classify_input(String::from(" q ")), Input::Quit);
    assert_eq!(classify_input(String::from("  ")), Input::Nothing);
    assert_eq!(classify_input(String::from(" (q) ")), Input::Command(String::from(" (q) ")));
    assert_eq!(classify_input(String::from("q")), Input::Command(String::from("q")));
    assert_eq!(classify_input(String::from("")), Input::Command(String::from("")));
}

#[test]
fn a_source_text_is_split_into_its_forms() {
    assert_eq!(
        split_forms("(def a 1)\n(def b (+ a 1))\n"),
        vec![String::from("(def a 1)"), String::from("(def b (+ a 1))")]
    );
    assert_eq!(split_forms(""), Vec::<String>::new());
    assert_eq!(split_forms("(a) (b"), vec![String::from("(a)")]);
    assert_eq!(split_forms("(a)(b)"), vec![String::from("(a)"), String::from("(b)")]);
}

#[test]
fn comments_and_line_ends_are_left_out_of_the_forms() {
    assert_eq!(
        split_forms("; a comment (with parentheses\n(def a ; inner )\n 1)\n"),
        vec![String::from("(def a  1)")]
    );
    assert_eq!(split_forms("(a\nb)"), vec![String::from("(ab)")]);
    assert_eq!(split_forms("x (a)"), vec![String::from("x (a)")]);
}

#[test]
fn texts_are_taken_apart_and_put_together() {
    assert_eq!(chars_of("aλb"), vec!['a', 'λ', 'b']);
    assert_eq!(chars_of(""), Vec::<char>::new());
    assert!(text_is("lambda", "lambda"));
    assert!(!text_is("lambda", "lambd"));
    assert!(!text_is("", "x"));
}

#[test]
fn an_env_binds_without_changing_the_one_it_came_from() {
    let empty = Env::new();
    assert!(empty.get("x").is_none());
    let one = empty.insert(String::from("x"), StutterObject::Int(Integer::from_i64(1)));
    assert_eq!(one.get("x"), Some(&StutterObject::Int(Integer::from_i64(1))));
    assert!(empty.get("x").is_none());
    let two = one.insert(String::from("x"), StutterObject::Bool(true));
    assert_eq!(two.get("x"), Some(&StutterObject::Bool(true)));
    assert_eq!(one.get("x"), Some(&StutterObject::Int(Integer::from_i64(1))));
    let three = two.insert(String::from("y"), StutterObject::Nil);
    assert_eq!(three.get("x"), Some(&StutterObject::Bool(true)));
    assert_eq!(three.get("y"), Some(&StutterObject::Nil));
    assert!(two.get("y").is_none());
    let copy = three.clone();
    assert_eq!(copy.get("y"), Some(&StutterObject::Nil));
    assert_eq!(copy.get("x"), Some(&StutterObject::Bool(true)));
}

#[test]
fn define_binds_in_place() {
    let mut global = Env::new();
    global.define(String::from("x"), StutterObject::Nil);
    assert_eq!(global.get("x"), Some(&StutterObject::Nil));
    global.define(String::from("x"), StutterObject::Bool(false));
    assert_eq!(global.get("x"), Some(&StutterObject::Bool(false)));
    assert!(global.get("X").is_none());
}

#[test]
fn a_ledger_gives_the_latest_answer_to_a_question() {
    let mut ledger = Ledger::new();
    let a = Decimal { bits: 1 };
    let b = Decimal { bits: 2 };
    assert!(ledger.answer(&DecimalQuery::Display(a)).is_none());
    ledger.record(DecimalQuery::Display(a), DecimalAnswer::Text(String::from("one")));
    ledger.record(DecimalQuery::Combine(NumericOp::Add, a, b), DecimalAnswer::Number(b));
    ledger.record(DecimalQuery::Combine(NumericOp::Lt, a, b), DecimalAnswer::Truth(true));
    ledger.record(DecimalQuery::FromInteger(Integer::from_i64(3)), DecimalAnswer::Impossible);
    assert_eq!(
        ledger.answer(&DecimalQuery::Display(a)),
        Some(&DecimalAnswer::Text(String::from("one")))
    );
    assert!(ledger.answer(&DecimalQuery::Display(b)).is_none());
    assert_eq!(
        ledger.answer(&DecimalQuery::Combine(NumericOp::Add, a, b)),
        Some(&DecimalAnswer::Number(b))
    );
    assert!(ledger.answer(&DecimalQuery::Combine(NumericOp::Add, b, a)).is_none());
    assert!(ledger.answer(&DecimalQuery::Combine(NumericOp::Sub, a, b)).is_none());
    assert_eq!(
        ledger.answer(&DecimalQuery::Combine(NumericOp::Lt, a, b)),
        Some(&DecimalAnswer::Truth(true))
    );
    assert_eq!(
        ledger.answer(&DecimalQuery::FromInteger(Integer::parse("3").unwrap())),
        Some(&DecimalAnswer::Impossible)
    );
    assert!(ledger.answer(&DecimalQuery::Literal(String::from("3"))).is_none());
    ledger.record(DecimalQuery::Display(a), DecimalAnswer::Text(String::from("uno")));
    assert_eq!(
        ledger.answer(&DecimalQuery::Display(a)),
        Some(&DecimalAnswer::Text(String::from("uno")))
    );
}

#[test]
fn questions_are_the_same_when_they_ask_the_same() {
    let a = Decimal { bits: 1 };
    let b = Decimal { bits: 2 };
    assert!(DecimalQuery::Literal(String::from("1.5")).same(&DecimalQuery::Literal(String::from("1.5"))));
    assert!(!DecimalQuery::Literal(String::from("1.5")).same(&DecimalQuery::Literal(String::from("1.50"))));
    assert!(!DecimalQuery::Display(a).same(&DecimalQuery::Display(b)));
    assert!(DecimalQuery::Combine(NumericOp::Mul, a, b).same(&DecimalQuery::Combine(NumericOp::Mul, a, b)));
    assert!(!DecimalQuery::Combine(NumericOp::Mul, a, b).same(&DecimalQuery::Combine(NumericOp::Div, a, b)));
    assert!(!DecimalQuery::Display(a).same(&DecimalQuery::Literal(String::from("1"))));
    assert!(NumericOp::Lte.is_comparison());
    assert!(!NumericOp::Mod.is_comparison());
    assert_eq!(DecimalQuery::Display(a).clone(), DecimalQuery::Display(a));
}
