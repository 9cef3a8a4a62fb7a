use risp::ast::{Defn, Env, Expr, List, Native, Type};
use risp::default_env::native_equals;
use risp::number::Number;
use std::sync::Arc;

fn number(n: f32) -> Arc<Type> {
    Type::new_number(Number::from_bits(n.to_bits()))
}

fn text(s: &str) -> Arc<Type> {
    Arc::new(Type::Str(String::from(s)))
}

fn list(items: &[Arc<Type>]) -> Arc<Type> {
    let mut list = Arc::new(List::End);
    for item in items.iter().rev() {
        list = Type::cons(item, &list);
    }
    Arc::new(Type::List(list))
}

fn closure() -> Arc<Type> {
    let defn = Defn {
        name: String::from("f"),
        params: vec![],
        body: Arc::new(Expr::Value(Type::unit())),
    };
    Arc::new(Type::Closure(Arc::new(None), Arc::new(defn)))
}

/// Values that hold no function, no free reference and no NaN.
fn comparable_values() -> Vec<Arc<Type>> {
    vec![
        Type::unit(),
        number(0.0),
        number(-0.0),
        number(1.5),
        number(f32::INFINITY),
        number(f32::MIN_POSITIVE),
        text(""),
        text("abc"),
        Arc::new(Type::Bool(true)),
        Arc::new(Type::Bool(false)),
        Arc::new(Type::Tuple(number(1.0), text("x"))),
        Arc::new(Type::Tuple(Type::unit(), list(&[number(1.0)]))),
        Type::new_empty_list(),
        list(&[number(1.0), number(2.0)]),
        list(&[list(&[]), list(&[text("a"), Type::unit()])]),
    ]
}

#[test]
fn equality_is_reflexive_on_comparable_values() {
    for value in comparable_values() {
        assert!(value.equals(&value), "{:?}", value);
    }
}

#[test]
fn equality_is_symmetric() {
    let mut values = comparable_values();
    values.push(closure());
    values.push(number(f32::NAN));
    for a in &values {
        for b in &values {
            assert_eq!(a.equals(b), b.equals(a), "{:?} {:?}", a, b);
        }
    }
}

#[test]
fn different_kinds_are_not_equal() {
    assert!(!Type::unit().equals(&number(0.0)));
    assert!(!number(1.0).equals(&text("1")));
    assert!(!Arc::new(Type::Bool(true)).equals(&number(1.0)));
    assert!(!Type::new_empty_list().equals(&Type::unit()));
    assert!(!text("true").equals(&Type::Bool(true)));
}

#[test]
fn numbers_compare_by_value() {
    assert!(number(1.5).equals(&number(1.5)));
    assert!(!number(1.5).equals(&number(2.5)));
    assert!(number(0.0).equals(&number(-0.0)));
    assert!(!number(f32::NAN).equals(&number(f32::NAN)));
    assert!(!number(f32::NAN).equals(&number(1.0)));
    assert!(number(f32::INFINITY).equals(&number(f32::INFINITY)));
    assert!(!number(f32::INFINITY).equals(&number(f32::NEG_INFINITY)));
}

#[test]
fn texts_and_booleans_compare_by_content() {
    assert!(text("abc").equals(&text("abc")));
    assert!(!text("abc").equals(&text("abd")));
    assert!(!text("abc").equals(&text("ab")));
    assert!(Type::Bool(true).equals(&Type::Bool(true)));
    assert!(!Type::Bool(true).equals(&Type::Bool(false)));
}

#[test]
fn pairs_compare_both_components() {
    let pair = |a: f32, b: f32| Type::Tuple(number(a), number(b));
    assert!(pair(1.0, 2.0).equals(&pair(1.0, 2.0)));
    assert!(!pair(1.0, 2.0).equals(&pair(1.0, 3.0)));
    assert!(!pair(1.0, 2.0).equals(&pair(0.0, 2.0)));
}

#[test]
fn lists_compare_length_and_items() {
    assert!(list(&[]).equals(&list(&[])));
    assert!(list(&[number(1.0), number(2.0)]).equals(&list(&[number(1.0), number(2.0)])));
    assert!(!list(&[number(1.0), number(2.0)]).equals(&list(&[number(2.0), number(1.0)])));
    assert!(!list(&[number(1.0)]).equals(&list(&[number(1.0), number(2.0)])));
    assert!(!list(&[number(1.0), number(2.0)]).equals(&list(&[number(1.0)])));
    assert!(!list(&[]).equals(&list(&[Type::unit()])));
    assert!(List::End.equals(&List::End));
    let one = Type::cons(&number(1.0), &Arc::new(List::End));
    assert!(one.equals(&Type::cons(&number(1.0), &Arc::new(List::End))));
    assert!(!one.equals(&List::End));
    assert!(!List::End.equals(&one));
}

#[test]
fn functions_and_free_references_equal_nothing() {
    let f = closure();
    assert!(!f.equals(&f));
    let native = Type::new_rust_closure(Native::Cons);
    assert!(!native.equals(&native));
    let free = Arc::new(Type::Free(Arc::new(Expr::Variable(String::from("x")))));
    assert!(!free.equals(&free));
    assert!(!free.equals(&Type::unit()));
    assert!(!Type::unit().equals(&free));
    assert!(!list(&[f.clone()]).equals(&list(&[f])));
}

#[test]
fn equals_builtin_compares_all_with_the_first() {
    let is = |args: Vec<Arc<Type>>| match &*native_equals(&args).unwrap() {
        Type::Bool(b) => *b,
        other => panic!("{:?}", other),
    };
    assert!(is(vec![number(1.0)]));
    assert!(is(vec![number(1.0), number(1.0), number(1.0)]));
    assert!(!is(vec![number(1.0), number(1.0), number(2.0)]));
    assert!(!is(vec![number(1.0), number(2.0), number(1.0)]));
    assert!(!is(vec![number(2.0), number(1.0), number(1.0)]));
    assert!(is(vec![closure()]));
    assert!(!is(vec![closure(), closure()]));
    assert!(native_equals(&vec![]).is_err());
}

#[test]
fn environment_finds_the_innermost_binding() {
    let value = |n: f32| Arc::new(Expr::Value(number(n)));
    let env = Env::with(Arc::new(None), String::from("x"), value(1.0));
    let env = Env::with(env, String::from("y"), value(2.0));
    let inner = Env::with(Arc::clone(&env), String::from("x"), value(3.0));
    let found = |env: &Arc<Option<Env>>, name: &str| {
        Env::lookup(env, &String::from(name)).map(|expr| match &*expr.to_type() {
            Type::Number(n) => f32::from_bits(n.to_bits()),
            other => panic!("{:?}", other),
        })
    };
    assert_eq!(found(&inner, "x"), Some(3.0));
    assert_eq!(found(&inner, "y"), Some(2.0));
    assert_eq!(found(&inner, "z"), None);
    // The node that was extended is as it was.
    assert_eq!(found(&env, "x"), Some(1.0));
    assert_eq!(found(&Arc::new(None), "x"), None);
}
