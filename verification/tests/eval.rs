use risp::ast::{Assign, Defn, Env, EvalError, Expr, GlobalEnv, List, Native, ParamType, Type};
use risp::host::{ask, read_numeral};
use risp::lisp_parse::parse;
use risp::model::Kind;
use risp::number::Number;
use std::sync::Arc;

fn float_of(value: &Arc<Type>) -> f32 {
    match &**value {
        Type::Number(n) => f32::from_bits(n.to_bits()),
        _ => panic!("the library hands arithmetic numbers only"),
    }
}

fn number(n: f32) -> Arc<Type> {
    Type::new_number(Number::from_bits(n.to_bits()))
}

/// Reads numerals as single-precision floats.
fn numeral(text: &str) -> Option<Number> {
    text.parse::<f32>().ok().map(|n| Number::from_bits(n.to_bits()))
}

/// The host's natives: arithmetic on single-precision floats.
fn floats(name: &str, args: Vec<Arc<Type>>) -> Result<Arc<Type>, EvalError> {
    match name {
        "+" => Ok(number(args.iter().fold(0.0, |acc, n| acc + float_of(n)))),
        "*" => Ok(number(args.iter().fold(1.0, |acc, n| acc * float_of(n)))),
        "-" => Ok(number(args[1..].iter().fold(float_of(&args[0]), |acc, n| acc - float_of(n)))),
        "debug" => Ok(Type::unit()),
        _ => Err(EvalError::UnboundVariable(String::from(name))),
    }
}

fn run(text: &str, globals: &mut GlobalEnv) -> Result<Arc<Type>, EvalError> {
    let tokens = parse(String::from(text));
    assert_eq!(tokens.len(), 1);
    let expr = tokens[0].to_ast(&numeral)?;
    expr.eval(Env::default(), globals, &floats, 1000)
}

fn run_fresh(text: &str) -> Result<Arc<Type>, EvalError> {
    run(text, &mut Env::default_global())
}

fn as_number(value: &Arc<Type>) -> f32 {
    match &**value {
        Type::Number(n) => f32::from_bits(n.to_bits()),
        other => panic!("not a number: {:?}", other),
    }
}

fn as_list(value: &Arc<Type>) -> Vec<Arc<Type>> {
    let mut items = Vec::new();
    let mut list = match &**value {
        Type::List(list) => Arc::clone(list),
        other => panic!("not a list: {:?}", other),
    };
    loop {
        let next = match &*list {
            List::End => break,
            List::Cons(head, tail) => {
                items.push(Arc::clone(head));
                Arc::clone(tail)
            }
        };
        list = next;
    }
    items
}

fn variable(name: &str) -> Arc<Expr> {
    Arc::new(Expr::Variable(String::from(name)))
}

fn literal(n: f32) -> Arc<Expr> {
    Arc::new(Expr::Value(number(n)))
}

#[test]
fn ast_test_basic() {
    let test_num = 3.0;
    let expr = Expr::Assign(Assign::Local(String::from("x"), literal(test_num), variable("x")));
    let out = expr.eval(Arc::new(None), &mut GlobalEnv::new(), &floats, 100);
    println!("{:?}", out);
    assert_eq!(as_number(&out.unwrap()), 3.0);
}

#[test]
fn eval2_test_basic() {
    let test_num = 3.0;
    let expr = Expr::Assign(Assign::Local(String::from("x"), literal(test_num), variable("x")));
    let out = expr.eval(Arc::new(None), &mut GlobalEnv::new(), &floats, 100);
    println!("{:?}", out);
    assert!(out.is_ok());
}

#[test]
fn identity_of_plus() {
    for n in [0.0f32, 1.0, -2.5, 1.0e30, f32::INFINITY] {
        let expr = Expr::Call(variable("+"), vec![literal(n)]);
        let out = expr.eval(Env::default(), &mut GlobalEnv::new(), &floats, 100).unwrap();
        assert_eq!(as_number(&out).to_bits(), n.to_bits());
    }
    assert_eq!(as_number(&run_fresh("(+ 7)").unwrap()), 7.0);
}

#[test]
fn inner_binding_shadows_outer() {
    assert_eq!(as_number(&run_fresh("(let x 1 (let x 2 x))").unwrap()), 2.0);
}

#[test]
fn outer_binding_is_back_after_the_inner_body() {
    assert_eq!(as_number(&run_fresh("(let x 1 (+ (let x 2 x) x))").unwrap()), 3.0);
}

#[test]
fn global_persists_between_evaluations() {
    let mut globals = GlobalEnv::new();
    let set = Expr::Assign(Assign::Global(String::from("y"), literal(5.0)));
    let out = set.eval(Env::default(), &mut globals, &floats, 100).unwrap();
    assert!(matches!(&*out, Type::Unit));
    let get = Expr::Variable(String::from("y"));
    let out = get.eval(Env::default(), &mut globals, &floats, 100).unwrap();
    assert_eq!(as_number(&out), 5.0);
}

#[test]
fn global_is_overwritten() {
    let mut globals = GlobalEnv::new();
    for n in [5.0, 6.0] {
        let set = Expr::Assign(Assign::Global(String::from("y"), literal(n)));
        set.eval(Env::default(), &mut globals, &floats, 100).unwrap();
    }
    let out = Expr::Variable(String::from("y")).eval(Env::default(), &mut globals, &floats, 100);
    assert_eq!(as_number(&out.unwrap()), 6.0);
}

#[test]
fn local_binding_hides_global() {
    let mut globals = GlobalEnv::new();
    let set = Expr::Assign(Assign::Global(String::from("y"), literal(5.0)));
    set.eval(Env::default(), &mut globals, &floats, 100).unwrap();
    assert_eq!(as_number(&run("(let y 1 y)", &mut globals).unwrap()), 1.0);
    assert_eq!(as_number(&run("y", &mut globals).unwrap()), 5.0);
}

#[test]
fn cons_builds_in_order() {
    let out = run_fresh("(cons 1 2 [])").unwrap();
    let items: Vec<f32> = as_list(&out).iter().map(as_number).collect();
    assert_eq!(items, vec![1.0, 2.0]);
}

#[test]
fn cons_onto_a_list() {
    let out = run_fresh("(cons 1 (cons 2 3 []))").unwrap();
    let items: Vec<f32> = as_list(&out).iter().map(as_number).collect();
    assert_eq!(items, vec![1.0, 2.0, 3.0]);
}

#[test]
fn cons_of_a_list_alone_is_the_list() {
    assert!(as_list(&run_fresh("(cons [])").unwrap()).is_empty());
}

#[test]
fn cons_needs_a_list_last() {
    match run_fresh("(cons 1 2)") {
        Err(EvalError::TypeMismatch(operation, Kind::List, actual)) => {
            assert_eq!(operation, "cons");
            assert_eq!(as_number(&actual), 2.0);
        }
        other => panic!("{:?}", other),
    }
}

#[test]
fn cons_needs_an_argument() {
    match run_fresh("(cons)") {
        Err(EvalError::ArityMismatch(function, 1, 0)) => assert_eq!(function, "cons"),
        other => panic!("{:?}", other),
    }
}

#[test]
fn conditional_takes_else_for_a_number() {
    match &*run_fresh("(if 0 \"yes\" \"no\")").unwrap() {
        Type::Str(text) => assert_eq!(text, "\"no\""),
        other => panic!("{:?}", other),
    }
}

#[test]
fn conditional_takes_then_for_true_only() {
    let text = |s: &str| Arc::new(Expr::Value(Arc::new(Type::Str(String::from(s)))));
    let choose = |test: Type| {
        let expr = Expr::If(Arc::new(Expr::Value(Arc::new(test))), text("yes"), text("no"));
        match &*expr.eval(Env::default(), &mut GlobalEnv::new(), &floats, 100).unwrap() {
            Type::Str(chosen) => chosen.clone(),
            other => panic!("{:?}", other),
        }
    };
    assert_eq!(choose(Type::Bool(true)), "yes");
    assert_eq!(choose(Type::Bool(false)), "no");
    assert_eq!(choose(Type::Number(Number::from_bits(1.0f32.to_bits()))), "no");
    assert_eq!(choose(Type::Unit), "no");
    assert_eq!(choose(Type::Str(String::from("true"))), "no");
    assert_eq!(choose(Type::List(Arc::new(List::End))), "no");
}

#[test]
fn conditional_evaluates_one_branch_only() {
    assert_eq!(as_number(&run_fresh("(if (= 1 1) 1 nowhere)").unwrap()), 1.0);
    assert_eq!(as_number(&run_fresh("(if (= 1 2) nowhere 2)").unwrap()), 2.0);
}

#[test]
fn too_few_arguments_is_an_arity_mismatch() {
    match run_fresh("((defn f x x))") {
        Err(EvalError::ArityMismatch(function, 1, 0)) => assert_eq!(function, "f"),
        other => panic!("{:?}", other),
    }
    match run_fresh("((defn g a b c a) 1 2)") {
        Err(EvalError::ArityMismatch(function, 3, 2)) => assert_eq!(function, "g"),
        other => panic!("{:?}", other),
    }
}

#[test]
fn surplus_arguments_are_dropped() {
    assert_eq!(as_number(&run_fresh("((defn f x x) 1 2 3)").unwrap()), 1.0);
}

#[test]
fn closure_keeps_its_scope() {
    // `f` is made inside the `let` and called outside its body.
    let mut globals = Env::default_global();
    let make = parse(String::from("(let x 7 (defn f y (+ x y)))"));
    let closure = make[0]
        .to_ast(&numeral)
        .unwrap()
        .eval(Env::default(), &mut globals, &floats, 100)
        .unwrap();
    assert!(matches!(&*closure, Type::Closure(_, _)));
    let call = Expr::Call(Arc::new(Expr::Value(closure)), vec![literal(1.0)]);
    let out = call.eval(Env::default(), &mut globals, &floats, 100).unwrap();
    assert_eq!(as_number(&out), 8.0);
}

#[test]
fn closure_sees_its_scope_not_the_callers() {
    let out = run_fresh("(let x 1 (let f (defn f y x) (let x 2 (f 0))))").unwrap();
    assert_eq!(as_number(&out), 1.0);
}

#[test]
fn operands_are_evaluated_in_the_callers_scope() {
    let out = run_fresh("(let f (defn f y y) (let x 2 (f x)))").unwrap();
    assert_eq!(as_number(&out), 2.0);
}

#[test]
fn function_calls_itself_by_name() {
    let text = "((defn count n (if (= n 0) 0 (+ 1 (count (- n 1))))) 5)";
    assert_eq!(as_number(&run_fresh(text).unwrap()), 5.0);
}

#[test]
fn rest_parameter_collects_in_call_order() {
    let out = run_fresh("((defn f a &rest rest) 1 2 3 4)").unwrap();
    let items: Vec<f32> = as_list(&out).iter().map(as_number).collect();
    assert_eq!(items, vec![2.0, 3.0, 4.0]);
    assert!(as_list(&run_fresh("((defn f a &rest rest) 1)").unwrap()).is_empty());
}

#[test]
fn unbound_variable_is_reported_by_name() {
    match run_fresh("nowhere") {
        Err(EvalError::UnboundVariable(name)) => assert_eq!(name, "nowhere"),
        other => panic!("{:?}", other),
    }
}

#[test]
fn calling_a_number_is_not_callable() {
    match run_fresh("(1 2)") {
        Err(EvalError::NotCallable(value)) => assert_eq!(as_number(&value), 1.0),
        other => panic!("{:?}", other),
    }
}

#[test]
fn depth_budget_ends_endless_recursion() {
    assert!(matches!(run_fresh("((defn loop x (loop x)) 1)"), Err(EvalError::DepthExceeded)));
    let expr = Expr::Value(number(1.0));
    let out = expr.eval(Env::default(), &mut GlobalEnv::new(), &floats, 0);
    assert!(matches!(out, Err(EvalError::DepthExceeded)));
}

#[test]
fn what_was_set_before_a_failure_stays_set() {
    let mut globals = Env::default_global();
    let set = Arc::new(Expr::Assign(Assign::Global(String::from("z"), literal(9.0))));
    let call = Expr::Call(variable("+"), vec![set, variable("nowhere")]);
    assert!(call.eval(Env::default(), &mut globals, &floats, 100).is_err());
    assert_eq!(as_number(&run("z", &mut globals).unwrap()), 9.0);
}

#[test]
fn arithmetic_folds() {
    assert_eq!(as_number(&run_fresh("(+)").unwrap()), 0.0);
    assert_eq!(as_number(&run_fresh("(+ 1 2 3.5)").unwrap()), 6.5);
    assert_eq!(as_number(&run_fresh("(*)").unwrap()), 1.0);
    assert_eq!(as_number(&run_fresh("(* 2 3 4)").unwrap()), 24.0);
    assert_eq!(as_number(&run_fresh("(- 10 1 2)").unwrap()), 7.0);
    assert_eq!(as_number(&run_fresh("(- 10)").unwrap()), 10.0);
}

#[test]
fn arithmetic_rejects_what_is_no_number() {
    match run_fresh("(+ 1 [] \"a\")") {
        Err(EvalError::TypeMismatch(operation, Kind::Number, actual)) => {
            assert_eq!(operation, "+");
            assert!(as_list(&actual).is_empty());
        }
        other => panic!("{:?}", other),
    }
    assert!(matches!(run_fresh("(* \"a\")"), Err(EvalError::TypeMismatch(_, Kind::Number, _))));
    assert!(matches!(run_fresh("(- 1 \"a\")"), Err(EvalError::TypeMismatch(_, Kind::Number, _))));
    match run_fresh("(-)") {
        Err(EvalError::ArityMismatch(function, 1, 0)) => assert_eq!(function, "-"),
        other => panic!("{:?}", other),
    }
}

#[test]
fn head_and_tail() {
    assert_eq!(as_number(&run_fresh("(head (cons 1 2 []))").unwrap()), 1.0);
    let rest: Vec<f32> =
        as_list(&run_fresh("(tail (cons 1 2 3 []))").unwrap()).iter().map(as_number).collect();
    assert_eq!(rest, vec![2.0, 3.0]);
    assert!(as_list(&run_fresh("(head [])").unwrap()).is_empty());
    assert!(as_list(&run_fresh("(tail [])").unwrap()).is_empty());
    assert!(matches!(run_fresh("(head 1)"), Err(EvalError::TypeMismatch(_, Kind::List, _))));
    assert!(matches!(run_fresh("(tail 1)"), Err(EvalError::TypeMismatch(_, Kind::List, _))));
    assert!(matches!(run_fresh("(head)"), Err(EvalError::ArityMismatch(_, 1, 0))));
    assert!(matches!(run_fresh("(tail)"), Err(EvalError::ArityMismatch(_, 1, 0))));
}

#[test]
fn debug_returns_unit() {
    assert!(matches!(&*run_fresh("(debug 1 2)").unwrap(), Type::Unit));
}

#[test]
fn host_native_is_called_by_name() {
    let twice = Type::new_rust_closure(Native::Host(String::from("*")));
    let call = Expr::Call(Arc::new(Expr::Value(twice)), vec![literal(2.0), literal(4.0)]);
    let out = call.eval(Env::default(), &mut GlobalEnv::new(), &floats, 100).unwrap();
    assert_eq!(as_number(&out), 8.0);
}

#[test]
fn definition_does_not_run_the_body() {
    let defn = Defn {
        name: String::from("f"),
        params: vec![ParamType::Singular(String::from("x"))],
        body: variable("nowhere"),
    };
    let out = Expr::Defn(Arc::new(defn)).eval(Env::default(), &mut GlobalEnv::new(), &floats, 100);
    assert!(matches!(&*out.unwrap(), Type::Closure(_, _)));
}

#[test]
fn functions_are_values() {
    let text = "(let twice (defn twice f x (f (f x))) (twice (defn inc n (+ n 1)) 5))";
    assert_eq!(as_number(&run_fresh(text).unwrap()), 7.0);
}

#[test]
fn function_returns_a_closure_over_its_argument() {
    let text = "(let adder (defn adder a (defn add b (+ a b))) ((adder 3) 4))";
    assert_eq!(as_number(&run_fresh(text).unwrap()), 7.0);
}

#[test]
fn parameter_hides_the_functions_own_name() {
    assert_eq!(as_number(&run_fresh("((defn f f f) 5)").unwrap()), 5.0);
}

#[test]
fn function_sums_a_list_by_calling_itself() {
    let text = "((defn sum l (if (= l []) 0 (+ (head l) (sum (tail l))))) (cons 1 2 3 4 []))";
    assert_eq!(as_number(&run_fresh(text).unwrap()), 10.0);
}

#[test]
fn rest_parameter_feeds_a_recursion() {
    let text = "(let count (defn count l (if (= l []) 0 (+ 1 (count (tail l))))) \
                ((defn f &all (count all)) 7 8 9))";
    assert_eq!(as_number(&run_fresh(text).unwrap()), 3.0);
}

#[test]
fn global_set_inside_a_function_is_seen_after_it() {
    let mut globals = Env::default_global();
    let set = Arc::new(Expr::Assign(Assign::Global(String::from("seen"), variable("x"))));
    let defn = Defn {
        name: String::from("remember"),
        params: vec![ParamType::Singular(String::from("x"))],
        body: set,
    };
    let call = Expr::Call(Arc::new(Expr::Defn(Arc::new(defn))), vec![literal(4.0)]);
    let out = call.eval(Env::default(), &mut globals, &floats, 100).unwrap();
    assert!(matches!(&*out, Type::Unit));
    assert_eq!(as_number(&run("seen", &mut globals).unwrap()), 4.0);
}

#[test]
fn bound_expression_is_evaluated_where_it_is_read() {
    // A binding that is not yet a value is evaluated when the name is read.
    let env = Env::with(
        Env::default(),
        String::from("three"),
        Arc::new(Expr::Call(variable("+"), vec![literal(1.0), literal(2.0)])),
    );
    let out = Expr::Variable(String::from("three")).eval(env, &mut GlobalEnv::new(), &floats, 100);
    assert_eq!(as_number(&out.unwrap()), 3.0);
}

#[test]
fn depth_that_suffices_gives_the_same_as_more() {
    let text = "((defn count n (if (= n 0) 0 (+ 1 (count (- n 1))))) 5)";
    let tokens = parse(String::from(text));
    let expr = tokens[0].to_ast(&numeral).unwrap();
    let mut least = 0;
    for depth in 0..200 {
        let out = expr.eval(Env::default(), &mut Env::default_global(), &floats, depth);
        match out {
            Err(EvalError::DepthExceeded) => assert_eq!(least, 0),
            Ok(value) => {
                assert_eq!(as_number(&value), 5.0);
                if least == 0 {
                    least = depth;
                }
            }
            other => panic!("{:?}", other),
        }
    }
    assert!(least > 0);
}

#[test]
fn operands_are_evaluated_from_left_to_right() {
    let mut globals = Env::default_global();
    let set = |n: f32| Arc::new(Expr::Assign(Assign::Global(String::from("last"), literal(n))));
    let call = Expr::Call(variable("debug"), vec![set(1.0), set(2.0), set(3.0)]);
    call.eval(Env::default(), &mut globals, &floats, 100).unwrap();
    assert_eq!(as_number(&run("last", &mut globals).unwrap()), 3.0);
}

#[test]
fn operands_are_not_evaluated_for_what_cannot_be_called() {
    let mut globals = Env::default_global();
    let set = Arc::new(Expr::Assign(Assign::Global(String::from("touched"), literal(1.0))));
    let call = Expr::Call(literal(1.0), vec![set]);
    assert!(matches!(
        call.eval(Env::default(), &mut globals, &floats, 100),
        Err(EvalError::NotCallable(_))
    ));
    assert!(matches!(run("touched", &mut globals), Err(EvalError::UnboundVariable(_))));
}

#[test]
fn host_is_asked_as_it_is() {
    let out = ask(&floats, "+", vec![number(1.0), number(2.0)]).unwrap();
    assert_eq!(as_number(&out), 3.0);
    assert!(matches!(ask(&floats, "nowhere", vec![]), Err(EvalError::UnboundVariable(_))));
    assert_eq!(read_numeral(&numeral, "1.5").map(|n| n.to_bits()), Some(1.5f32.to_bits()));
    assert!(read_numeral(&numeral, "x").is_none());
}
