use risp::ast::{Assign, Env, EvalError, Expr, GlobalEnv, List, Native, ParamType, Type};
use risp::lisp_parse::{parse, Token};
use risp::number::Number;
use std::sync::Arc;

fn numeral(text: &str) -> Option<Number> {
    text.parse::<f32>().ok().map(|n| Number::from_bits(n.to_bits()))
}

fn read(text: &str) -> Result<Expr, EvalError> {
    let tokens = parse(String::from(text));
    assert_eq!(tokens.len(), 1);
    tokens[0].to_ast(&numeral)
}

fn malformed(result: Result<Expr, EvalError>) -> String {
    match result {
        Err(EvalError::MalformedSyntax(construct)) => construct,
        other => panic!("{:?}", other),
    }
}

fn float_of(expr: &Expr) -> f32 {
    match expr {
        Expr::Value(value) => match &**value {
            Type::Number(n) => f32::from_bits(n.to_bits()),
            other => panic!("{:?}", other),
        },
        other => panic!("{:?}", other),
    }
}

fn name_of(expr: &Expr) -> &str {
    match expr {
        Expr::Variable(name) => name,
        other => panic!("{:?}", other),
    }
}

#[test]
fn numeral_becomes_a_number() {
    assert_eq!(float_of(&read("2").unwrap()), 2.0);
    assert_eq!(float_of(&read("-2.5").unwrap()), -2.5);
    assert_eq!(float_of(&read("1e3").unwrap()), 1000.0);
    assert_eq!(float_of(&read(".5").unwrap()), 0.5);
    assert_eq!(float_of(&read("inf").unwrap()), f32::INFINITY);
}

#[test]
fn quoted_word_becomes_a_text_with_its_quotation_marks() {
    match read("\"yes\"").unwrap() {
        Expr::Value(value) => match &*value {
            Type::Str(text) => assert_eq!(text, "\"yes\""),
            other => panic!("{:?}", other),
        },
        other => panic!("{:?}", other),
    }
    assert!(matches!(read("\"").unwrap(), Expr::Value(_)));
    assert_eq!(name_of(&read("\"open").unwrap()), "\"open");
    assert_eq!(name_of(&read("close\"").unwrap()), "close\"");
}

#[test]
fn empty_group_becomes_unit() {
    match read("()").unwrap() {
        Expr::Value(value) => assert!(matches!(&*value, Type::Unit)),
        other => panic!("{:?}", other),
    }
}

#[test]
fn brackets_become_the_empty_list() {
    match read("[]").unwrap() {
        Expr::Value(value) => match &*value {
            Type::List(list) => assert!(matches!(&**list, List::End)),
            other => panic!("{:?}", other),
        },
        other => panic!("{:?}", other),
    }
}

#[test]
fn other_word_becomes_a_variable() {
    assert_eq!(name_of(&read("yes").unwrap()), "yes");
    assert_eq!(name_of(&read("+").unwrap()), "+");
    assert_eq!(name_of(&read("-").unwrap()), "-");
    assert_eq!(name_of(&read("letter").unwrap()), "letter");
    assert_eq!(name_of(&read("&rest").unwrap()), "&rest");
}

#[test]
fn reserved_word_is_no_variable() {
    assert_eq!(malformed(read("let")), "let");
    assert_eq!(malformed(read("defn")), "defn");
    assert_eq!(malformed(read("if")), "if");
    assert_eq!(malformed(read("(+ 1 let)")), "let");
    assert_eq!(malformed(read("(f if)")), "if");
}

#[test]
fn let_takes_a_name_a_value_and_a_body() {
    match read("(let x 1 (f x))").unwrap() {
        Expr::Assign(Assign::Local(name, value, body)) => {
            assert_eq!(name, "x");
            assert_eq!(float_of(&value), 1.0);
            assert!(matches!(&*body, Expr::Call(_, _)));
        }
        other => panic!("{:?}", other),
    }
    assert_eq!(malformed(read("(let)")), "let");
    assert_eq!(malformed(read("(let x)")), "let");
    assert_eq!(malformed(read("(let x 1)")), "let");
    assert_eq!(malformed(read("(let x 1 2 3)")), "let");
    assert_eq!(malformed(read("(let (x) 1 2)")), "let");
    assert_eq!(malformed(read("(let x defn 2)")), "defn");
    assert_eq!(malformed(read("(let x 1 if)")), "if");
}

#[test]
fn defn_takes_a_name_parameters_and_a_body() {
    match read("(defn f a b &rest (g a))").unwrap() {
        Expr::Defn(defn) => {
            assert_eq!(defn.name, "f");
            assert_eq!(defn.params.len(), 3);
            assert!(matches!(&defn.params[0], ParamType::Singular(name) if name == "a"));
            assert!(matches!(&defn.params[1], ParamType::Singular(name) if name == "b"));
            assert!(matches!(&defn.params[2], ParamType::Rest(name) if name == "rest"));
            assert!(matches!(&*defn.body, Expr::Call(_, _)));
        }
        other => panic!("{:?}", other),
    }
    match read("(defn f 1)").unwrap() {
        Expr::Defn(defn) => {
            assert!(defn.params.is_empty());
            assert_eq!(float_of(&defn.body), 1.0);
        }
        other => panic!("{:?}", other),
    }
    match read("(defn f & 1)").unwrap() {
        Expr::Defn(defn) => {
            assert!(matches!(&defn.params[0], ParamType::Rest(name) if name.is_empty()))
        }
        other => panic!("{:?}", other),
    }
    assert_eq!(malformed(read("(defn)")), "defn");
    assert_eq!(malformed(read("(defn f)")), "defn");
    assert_eq!(malformed(read("(defn (f) 1)")), "defn");
    assert_eq!(malformed(read("(defn f (a) 1)")), "defn");
    assert_eq!(malformed(read("(defn f &rest a 1)")), "defn");
    assert_eq!(malformed(read("(defn f &a &b 1)")), "defn");
    assert_eq!(malformed(read("(defn f a let)")), "let");
}

#[test]
fn if_takes_a_test_and_two_branches() {
    match read("(if a 1 2)").unwrap() {
        Expr::If(test, then, otherwise) => {
            assert_eq!(name_of(&test), "a");
            assert_eq!(float_of(&then), 1.0);
            assert_eq!(float_of(&otherwise), 2.0);
        }
        other => panic!("{:?}", other),
    }
    assert_eq!(malformed(read("(if)")), "if");
    assert_eq!(malformed(read("(if a 1)")), "if");
    assert_eq!(malformed(read("(if a 1 2 3)")), "if");
    assert_eq!(malformed(read("(if let 1 2)")), "let");
}

#[test]
fn other_group_becomes_a_call() {
    match read("(f 1 x)").unwrap() {
        Expr::Call(operator, operands) => {
            assert_eq!(name_of(&operator), "f");
            assert_eq!(operands.len(), 2);
            assert_eq!(float_of(&operands[0]), 1.0);
            assert_eq!(name_of(&operands[1]), "x");
        }
        other => panic!("{:?}", other),
    }
    match read("(f)").unwrap() {
        Expr::Call(_, operands) => assert!(operands.is_empty()),
        other => panic!("{:?}", other),
    }
}

#[test]
fn head_of_a_call_may_be_a_group_or_a_literal() {
    match read("((defn f x x) 1)").unwrap() {
        Expr::Call(operator, operands) => {
            assert!(matches!(&*operator, Expr::Defn(_)));
            assert_eq!(operands.len(), 1);
        }
        other => panic!("{:?}", other),
    }
    match read("(1 2)").unwrap() {
        Expr::Call(operator, _) => assert_eq!(float_of(&operator), 1.0),
        other => panic!("{:?}", other),
    }
    match read("(() 2)").unwrap() {
        Expr::Call(operator, _) => assert!(matches!(&*operator, Expr::Value(_))),
        other => panic!("{:?}", other),
    }
}

#[test]
fn first_failure_is_the_failure_of_the_whole() {
    assert_eq!(malformed(read("(f (let) (if))")), "let");
    assert_eq!(malformed(read("(f (if) (let))")), "if");
    assert_eq!(malformed(read("((defn) (let))")), "defn");
}

#[test]
fn token_built_by_hand_reads_the_same() {
    let by_hand = Token::Group(vec![Token::from("f"), Token::from("1")]);
    assert!(matches!(by_hand.to_ast(&numeral).unwrap(), Expr::Call(_, _)));
}

#[test]
fn builtins_are_bound_where_user_code_starts() {
    let native = |bound: Option<Arc<Expr>>| match &*bound.unwrap().to_type() {
        Type::RustClosure(native) => native.clone(),
        other => panic!("{:?}", other),
    };
    let env = Env::default();
    assert!(matches!(native(Env::lookup(&env, &String::from("+"))), Native::Add));
    assert!(matches!(native(Env::lookup(&env, &String::from("cons"))), Native::Cons));
    assert!(matches!(native(Env::lookup(&env, &String::from("debug"))), Native::Debug));
    assert!(Env::lookup(&env, &String::from("-")).is_none());
    let globals: GlobalEnv = Env::default_global();
    assert_eq!(globals.len(), 5);
    assert!(matches!(native(globals.get("-").cloned()), Native::Sub));
    assert!(matches!(native(globals.get("*").cloned()), Native::Mul));
    assert!(matches!(native(globals.get("=").cloned()), Native::Equals));
    assert!(matches!(native(globals.get("head").cloned()), Native::Head));
    assert!(matches!(native(globals.get("tail").cloned()), Native::Tail));
    assert!(globals.get("+").is_none());
}
