use kind_core::book::{Argument, Book, Entry, Operator, Rule, Term};
use kind_core::hvm::{interpret_as_string, to_hvm_book, to_hvm_entry, to_hvm_oper, to_hvm_rule, to_hvm_term};
use kind_core::text::u64_to_dec;

fn var(name: &str) -> Term {
    Term::Var { name: name.to_string() }
}

fn num(numb: u64) -> Term {
    Term::Num { numb }
}

fn arg(name: &str, tipo: &str, eras: bool) -> Argument {
    Argument { name: name.to_string(), tipo: tipo.to_string(), eras }
}

fn entry(name: &str, args: Vec<Argument>, tipo: &str, rules: Vec<Rule>) -> Entry {
    Entry { name: name.to_string(), kdln: None, args, tipo: tipo.to_string(), rules }
}

fn book_of(entries: Vec<Entry>) -> Book {
    Book {
        names: entries.iter().map(|e| e.name.clone()).collect(),
        entrs: entries.into_iter().map(|e| (e.name.clone(), e)).collect(),
    }
}

fn empty_book() -> Book {
    Book { names: vec![], entrs: vec![] }
}

fn string_book() -> Book {
    book_of(vec![
        entry(
            "String.cons",
            vec![arg("head", "U60", false), arg("tail", "String", false)],
            "String",
            vec![],
        ),
        entry("String.nil", vec![], "String", vec![]),
    ])
}

fn cons(head: u64, tail: Term) -> Term {
    Term::Ctr { name: "String.cons".to_string(), args: vec![num(head), tail] }
}

fn nil() -> Term {
    Term::Ctr { name: "String.nil".to_string(), args: vec![] }
}

#[test]
fn operator_symbols() {
    assert_eq!(to_hvm_oper(&Operator::Add), "+");
    assert_eq!(to_hvm_oper(&Operator::Sub), "-");
    assert_eq!(to_hvm_oper(&Operator::Mul), "*");
    assert_eq!(to_hvm_oper(&Operator::Div), "/");
    assert_eq!(to_hvm_oper(&Operator::Mod), "%");
    assert_eq!(to_hvm_oper(&Operator::And), "&");
    assert_eq!(to_hvm_oper(&Operator::Or), "|");
    assert_eq!(to_hvm_oper(&Operator::Xor), "^");
    assert_eq!(to_hvm_oper(&Operator::Shl), "<<");
    assert_eq!(to_hvm_oper(&Operator::Shr), ">>");
    assert_eq!(to_hvm_oper(&Operator::Ltn), "<");
    assert_eq!(to_hvm_oper(&Operator::Lte), "<=");
    assert_eq!(to_hvm_oper(&Operator::Eql), "==");
    assert_eq!(to_hvm_oper(&Operator::Gte), ">=");
    assert_eq!(to_hvm_oper(&Operator::Gtn), ">");
    assert_eq!(to_hvm_oper(&Operator::Neq), "!=");
}

#[test]
fn numeral_renders_decimal_without_decoration() {
    let book = empty_book();
    assert_eq!(to_hvm_term(&book, &num(0)), "0");
    assert_eq!(to_hvm_term(&book, &num(42)), "42");
    assert_eq!(to_hvm_term(&book, &num(u64::MAX)), "18446744073709551615");
}

#[test]
fn add_of_two_numerals() {
    let book = empty_book();
    let t = Term::Op2 {
        oper: Operator::Add,
        val0: Box::new(num(3)),
        val1: Box::new(num(4)),
    };
    assert_eq!(to_hvm_term(&book, &t), "(+ 3 4)");
}

#[test]
fn erased_argument_is_dropped_in_order() {
    let book = book_of(vec![entry(
        "f",
        vec![arg("a", "A", true), arg("b", "B", false)],
        "B",
        vec![],
    )]);
    let t = Term::Fun { name: "f".to_string(), args: vec![var("X"), var("Y")] };
    assert_eq!(to_hvm_term(&book, &t), "(f Y)");
}

#[test]
fn call_with_no_kept_arguments_has_no_trailing_space() {
    let book = book_of(vec![entry("k", vec![arg("a", "A", true)], "A", vec![])]);
    let t = Term::Ctr { name: "k".to_string(), args: vec![var("X")] };
    assert_eq!(to_hvm_term(&book, &t), "(k)");
}

#[test]
fn simple_term_forms() {
    let book = empty_book();
    assert_eq!(to_hvm_term(&book, &Term::Typ), "Type");
    assert_eq!(to_hvm_term(&book, &var("x")), "x");
    let lam = Term::Lam { name: "x".to_string(), body: Box::new(var("x")) };
    assert_eq!(to_hvm_term(&book, &lam), "@x x");
    let app = Term::App { func: Box::new(var("f")), argm: Box::new(var("x")) };
    assert_eq!(to_hvm_term(&book, &app), "(f x)");
    let all = Term::All {
        name: "x".to_string(),
        tipo: Box::new(Term::U60),
        body: Box::new(var("x")),
    };
    assert_eq!(to_hvm_term(&book, &all), "0");
    let bind = Term::Let {
        name: "x".to_string(),
        expr: Box::new(num(1)),
        body: Box::new(var("x")),
    };
    assert_eq!(to_hvm_term(&book, &bind), "let x = 1; x");
    let ann = Term::Ann { expr: Box::new(num(5)), tipo: Box::new(Term::U60) };
    assert_eq!(to_hvm_term(&book, &ann), "5");
    let sub = Term::Sub { name: "s".to_string(), expr: Box::new(var("v")) };
    assert_eq!(to_hvm_term(&book, &sub), "v");
    assert_eq!(to_hvm_term(&book, &Term::Hlp), "0");
    assert_eq!(to_hvm_term(&book, &Term::U60), "0");
    assert_eq!(to_hvm_term(&book, &Term::Hol { numb: 7 }), "_");
}

#[test]
fn string_literals_render_quoted() {
    let book = string_book();
    let t = cons(104, cons(105, nil()));
    assert_eq!(interpret_as_string(&t), Some("hi".to_string()));
    assert_eq!(to_hvm_term(&book, &t), "\"hi\"");
    assert_eq!(to_hvm_term(&book, &nil()), "\"\"");
}

#[test]
fn malformed_string_chain_renders_as_constructors() {
    let book = string_book();
    let t = Term::Ctr {
        name: "String.cons".to_string(),
        args: vec![var("h"), nil()],
    };
    assert_eq!(interpret_as_string(&t), None);
    assert_eq!(to_hvm_term(&book, &t), "(String.cons h \"\")");
}

#[test]
fn rule_filters_erased_patterns() {
    let book = book_of(vec![entry(
        "f",
        vec![arg("a", "A", true), arg("b", "B", false)],
        "B",
        vec![],
    )]);
    let rule = Rule {
        name: "f".to_string(),
        pats: vec![var("p"), num(0)],
        body: num(1),
    };
    assert_eq!(to_hvm_rule(&book, &rule), "(f 0) = 1");
}

#[test]
fn entry_header_lists_all_arguments_unfiltered() {
    let rules = vec![Rule { name: "F".to_string(), pats: vec![num(0), var("q")], body: num(1) }];
    let mut e = entry(
        "F",
        vec![arg("x", "U60", false), arg("e", "Type", true)],
        "U60",
        rules,
    );
    e.kdln = Some("2".to_string());
    let book = book_of(vec![entry(
        "F",
        vec![arg("x", "U60", false), arg("e", "Type", true)],
        "U60",
        vec![],
    )]);
    assert_eq!(
        to_hvm_entry(&book, &e),
        "// F #2 (x: U60) -(e: Type) : U60\n(F 0) = 1\n\n"
    );
}

#[test]
fn entry_without_rules_renders_nothing() {
    let book = empty_book();
    let e = entry("Quiet", vec![arg("x", "U60", false)], "U60", vec![]);
    assert_eq!(to_hvm_entry(&book, &e), "");
}

#[test]
fn logging_primitive_renders_nothing_even_with_rules() {
    let rules = vec![Rule { name: "HVM.log".to_string(), pats: vec![], body: num(0) }];
    let e = entry("HVM.log", vec![], "U60", rules);
    let book = empty_book();
    assert_eq!(to_hvm_entry(&book, &e), "");
}

#[test]
fn book_skips_silent_entries_and_keeps_name_order() {
    let a = entry(
        "A",
        vec![],
        "Type",
        vec![Rule { name: "A".to_string(), pats: vec![], body: num(1) }],
    );
    let b = entry("B", vec![], "Type", vec![]);
    let c = entry(
        "C",
        vec![],
        "Type",
        vec![Rule { name: "C".to_string(), pats: vec![], body: num(2) }],
    );
    let book = book_of(vec![a, b, c]);
    assert_eq!(
        to_hvm_book(&book),
        "// A : Type\n(A) = 1\n\n// C : Type\n(C) = 2\n\n"
    );
}

#[test]
fn decimal_rendering_matches_expected_values() {
    assert_eq!(u64_to_dec(0), "0");
    assert_eq!(u64_to_dec(9), "9");
    assert_eq!(u64_to_dec(10), "10");
    assert_eq!(u64_to_dec(1203), "1203");
}
