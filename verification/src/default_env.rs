//! The built-in functions, and the environment and global table that make
//! them reachable by name.

use crate::ast::{
    globals_of, outcome_of, share, values_of, Env, EvalError, Expr, GlobalEnv, List, Native, Type,
};
use crate::equals::equal;
use crate::host::{answers, answers_all, ask};
use crate::model::{
    bind, literal, Binding, Failure, Kind, Natives, Primitive, Term, Value,
};
use std::sync::Arc;
use vstd::prelude::*;

verus! {

/// Whether `k` is the place of the first argument that is not a number.
pub open spec fn is_first_non_number(args: Seq<Value>, k: int) -> bool {
    &&& 0 <= k < args.len()
    &&& !(args[k] is Number)
    &&& forall|j: int| 0 <= j < k ==> args[j] is Number
}

/// Whether every argument is a number.
pub open spec fn all_numbers(args: Seq<Value>) -> bool {
    forall|i: int| 0 <= i < args.len() ==> args[i] is Number
}

/// An arithmetic built-in: the first argument that is not a number is a type
/// mismatch; on numbers alone the result is whatever the host computes.
pub open spec fn arithmetic(
    natives: Natives,
    operation: Seq<char>,
    args: Seq<Value>,
) -> Result<Value, Failure> {
    if all_numbers(args) {
        natives(operation, args)
    } else {
        Err(
            Failure::TypeMismatch(
                operation,
                Kind::Number,
                args[choose|k: int| is_first_non_number(args, k)],
            ),
        )
    }
}

/// The failure of a built-in that needs an argument and got none.
pub open spec fn no_argument(function: Seq<char>) -> Failure {
    Failure::ArityMismatch(function, 1, 0)
}

/// `=`: whether every further argument equals the first.
pub open spec fn equals_all(args: Seq<Value>) -> Result<Value, Failure> {
    if args.len() == 0 {
        Err(no_argument("="@))
    } else {
        Ok(Value::Bool(forall|i: int| 1 <= i < args.len() ==> equal(#[trigger] args[i], args[0])))
    }
}

/// `cons`: the last argument is a list; the arguments before it are put in
/// front of it, in the order they were given.
pub open spec fn cons_onto(args: Seq<Value>) -> Result<Value, Failure> {
    if args.len() == 0 {
        Err(no_argument("cons"@))
    } else {
        match args.last() {
            Value::List(items) => Ok(Value::List(args.drop_last() + items)),
            other => Err(Failure::TypeMismatch("cons"@, Kind::List, other)),
        }
    }
}

/// `head`: the first item of the list that the first argument is; of the
/// empty list, the list itself. Further arguments are not looked at.
pub open spec fn head_of(args: Seq<Value>) -> Result<Value, Failure> {
    if args.len() == 0 {
        Err(no_argument("head"@))
    } else {
        match args[0] {
            Value::List(items) => Ok(
                if items.len() == 0 {
                    args[0]
                } else {
                    items[0]
                },
            ),
            other => Err(Failure::TypeMismatch("head"@, Kind::List, other)),
        }
    }
}

/// `tail`: the list that the first argument is, without its first item; of
/// the empty list, the list itself. Further arguments are not looked at.
pub open spec fn tail_of(args: Seq<Value>) -> Result<Value, Failure> {
    if args.len() == 0 {
        Err(no_argument("tail"@))
    } else {
        match args[0] {
            Value::List(items) => Ok(
                if items.len() == 0 {
                    args[0]
                } else {
                    Value::List(items.drop_first())
                },
            ),
            other => Err(Failure::TypeMismatch("tail"@, Kind::List, other)),
        }
    }
}

/// What a native function returns on already evaluated arguments. `debug`
/// shows the host its arguments and returns unit, whatever the host answers.
pub open spec fn apply(
    natives: Natives,
    primitive: Primitive,
    args: Seq<Value>,
) -> Result<Value, Failure> {
    match primitive {
        Primitive::Add => arithmetic(natives, "+"@, args),
        Primitive::Sub => if args.len() == 0 {
            Err(no_argument("-"@))
        } else {
            arithmetic(natives, "-"@, args)
        },
        Primitive::Mul => arithmetic(natives, "*"@, args),
        Primitive::Equals => equals_all(args),
        Primitive::Cons => cons_onto(args),
        Primitive::Head => head_of(args),
        Primitive::Tail => tail_of(args),
        Primitive::Debug => Ok(Value::Unit),
        Primitive::Host(name) => natives(name, args),
    }
}

/// The failure of a built-in that needs an argument and got none.
fn missing_argument(function: &str) -> (error: EvalError)
    ensures
        error@ == no_argument(function@),
{
    EvalError::ArityMismatch(function.to_owned(), 1, 0)
}

/// Checks that every argument is a number; the first that is not is
/// reported as a type mismatch of `operation`.
pub fn check_numbers(operation: &str, args: &Vec<Arc<Type>>) -> (checked: Result<(), EvalError>)
    ensures
        checked is Ok == all_numbers(values_of(args@)),
        checked matches Err(error) ==> error@ == Failure::TypeMismatch(
            operation@,
            Kind::Number,
            values_of(args@)[choose|k: int| is_first_non_number(values_of(args@), k)],
        ),
{
    let ghost values = values_of(args@);
    let mut i: usize = 0;
    while i < args.len()
        invariant
            i <= args.len(),
            values == values_of(args@),
            forall|j: int| 0 <= j < i ==> values[j] is Number,
        decreases args.len() - i,
    {
        match &*args[i] {
            Type::Number(_) => {},
            _ => {
                proof {
                    assert(is_first_non_number(values, i as int));
                }
                return Err(
                    EvalError::TypeMismatch(operation.to_owned(), Kind::Number, share(&args[i])),
                );
            },
        }
        i += 1;
    }
    Ok(())
}

/// `+`, `-` and `*`: checks the arguments, then has the host compute.
fn native_arithmetic<F: Fn(&str, Vec<Arc<Type>>) -> Result<Arc<Type>, EvalError>>(
    operation: &str,
    args: Vec<Arc<Type>>,
    natives: &F,
) -> (result: Result<Arc<Type>, EvalError>)
    requires
        answers_all(natives),
    ensures
        forall|table: Natives| #[trigger]
            answers(natives, table) ==> outcome_of(result) == arithmetic(
                table,
                operation@,
                values_of(args@),
            ),
{
    match check_numbers(operation, &args) {
        Err(error) => Err(error),
        Ok(()) => ask(natives, operation, args),
    }
}

/// `=`: whether every further argument equals the first.
pub fn native_equals(args: &Vec<Arc<Type>>) -> (result: Result<Arc<Type>, EvalError>)
    ensures
        outcome_of(result) == equals_all(values_of(args@)),
{
    if args.len() == 0 {
        return Err(missing_argument("="));
    }
    let ghost values = values_of(args@);
    let mut i: usize = 1;
    while i < args.len()
        invariant
            1 <= i <= args.len(),
            values == values_of(args@),
            forall|j: int| 1 <= j < i ==> equal(#[trigger] values[j], values[0]),
        decreases args.len() - i,
    {
        if !args[i].equals(&*args[0]) {
            assert(!equal(values[i as int], values[0]));
            return Ok(Arc::new(Type::Bool(false)));
        }
        i += 1;
    }
    Ok(Arc::new(Type::Bool(true)))
}

/// `cons`: puts the arguments before the last in front of the list that
/// the last argument is.
pub fn native_cons(args: &Vec<Arc<Type>>) -> (result: Result<Arc<Type>, EvalError>)
    ensures
        outcome_of(result) == cons_onto(values_of(args@)),
{
    let n = args.len();
    if n == 0 {
        return Err(missing_argument("cons"));
    }
    let ghost values = values_of(args@);
    match &*args[n - 1] {
        Type::List(tail) => {
            let mut list = share(tail);
            let mut k: usize = n - 1;
            while k > 0
                invariant
                    k <= n - 1,
                    n == args.len(),
                    values == values_of(args@),
                    list@ == values.subrange(k as int, n - 1) + tail@,
                decreases k,
            {
                k -= 1;
                list = Type::cons(&args[k], &list);
            }
            Ok(Arc::new(Type::List(list)))
        },
        _ => Err(EvalError::TypeMismatch("cons".to_owned(), Kind::List, share(&args[n - 1]))),
    }
}

/// `head`: the first item of the list that the first argument is.
pub fn native_head(args: &Vec<Arc<Type>>) -> (result: Result<Arc<Type>, EvalError>)
    ensures
        outcome_of(result) == head_of(values_of(args@)),
{
    if args.len() == 0 {
        return Err(missing_argument("head"));
    }
    match &*args[0] {
        Type::List(list) => match &**list {
            List::End => {
                assert(list@.len() == 0);
                Ok(share(&args[0]))
            },
            List::Cons(first, _) => {
                assert(list@[0] == first@);
                Ok(share(first))
            },
        },
        _ => Err(EvalError::TypeMismatch("head".to_owned(), Kind::List, share(&args[0]))),
    }
}

/// `tail`: the list that the first argument is, without its first item.
pub fn native_tail(args: &Vec<Arc<Type>>) -> (result: Result<Arc<Type>, EvalError>)
    ensures
        outcome_of(result) == tail_of(values_of(args@)),
{
    if args.len() == 0 {
        return Err(missing_argument("tail"));
    }
    match &*args[0] {
        Type::List(list) => match &**list {
            List::End => {
                Ok(share(&args[0]))
            },
            List::Cons(_, rest) => {
                assert(list@.drop_first() =~= rest@);
                Ok(Arc::new(Type::List(share(rest))))
            },
        },
        _ => Err(EvalError::TypeMismatch("tail".to_owned(), Kind::List, share(&args[0]))),
    }
}

impl Native {
    /// Calls this native function on already evaluated arguments.
    pub fn apply<F: Fn(&str, Vec<Arc<Type>>) -> Result<Arc<Type>, EvalError>>(
        &self,
        args: Vec<Arc<Type>>,
        natives: &F,
    ) -> (result: Result<Arc<Type>, EvalError>)
        requires
            answers_all(natives),
        ensures
            forall|table: Natives| #[trigger]
                answers(natives, table) ==> outcome_of(result) == apply(
                    table,
                    self@,
                    values_of(args@),
                ),
    {
        match self {
            Native::Add => native_arithmetic("+", args, natives),
            Native::Sub => if args.len() == 0 {
                Err(missing_argument("-"))
            } else {
                native_arithmetic("-", args, natives)
            },
            Native::Mul => native_arithmetic("*", args, natives),
            Native::Equals => native_equals(&args),
            Native::Cons => native_cons(&args),
            Native::Head => native_head(&args),
            Native::Tail => native_tail(&args),
            Native::Debug => {
                let _ = ask(natives, "debug", args);
                Ok(Type::unit())
            },
            Native::Host(name) => ask(natives, name.as_str(), args),
        }
    }
}

/// The term a native function is bound as.
pub open spec fn native(primitive: Primitive) -> Term {
    literal(Value::Native(primitive))
}

/// The scope that user code starts in: `+`, `cons` and `debug`.
pub open spec fn default_scope() -> Seq<Binding> {
    bind(
        bind(bind(Seq::empty(), "+"@, native(Primitive::Add)), "cons"@, native(Primitive::Cons)),
        "debug"@,
        native(Primitive::Debug),
    )
}

/// The global table that user code starts with: `-`, `*`, `=`, `head` and
/// `tail`.
pub open spec fn default_globals() -> Map<Seq<char>, Term> {
    Map::<Seq<char>, Term>::empty().insert("-"@, native(Primitive::Sub)).insert(
        "*"@,
        native(Primitive::Mul),
    ).insert("="@, native(Primitive::Equals)).insert("head"@, native(Primitive::Head)).insert(
        "tail"@,
        native(Primitive::Tail),
    )
}

/// The expression a native function is bound as.
fn native_expr(native: Native) -> (expr: Arc<Expr>)
    ensures
        expr@ == self::native(native@),
{
    Arc::new(Expr::Value(Type::new_rust_closure(native)))
}

impl Env {
    /// The environment that user code starts in.
    pub fn default() -> (env: Arc<Option<Env>>)
        ensures
            Env::scope(&env) == default_scope(),
    {
        let e = Arc::new(None);
        let e = Env::with(e, "+".to_owned(), native_expr(Native::Add));
        let e = Env::with(e, "cons".to_owned(), native_expr(Native::Cons));
        let e = Env::with(e, "debug".to_owned(), native_expr(Native::Debug));
        e
    }

    /// The global table that user code starts with.
    pub fn default_global() -> (table: GlobalEnv)
        ensures
            globals_of(table@) == default_globals(),
    {
        let mut e = GlobalEnv::new();
        let bound = native_expr(Native::Sub);
        e.insert("-".to_owned(), bound);
        let bound = native_expr(Native::Mul);
        e.insert("*".to_owned(), bound);
        let bound = native_expr(Native::Equals);
        e.insert("=".to_owned(), bound);
        let bound = native_expr(Native::Head);
        e.insert("head".to_owned(), bound);
        let bound = native_expr(Native::Tail);
        e.insert("tail".to_owned(), bound);
        e
    }
}

/// `cons` keeps the order it was given: the arguments before the list come
/// first, as they came, and then what the list held.
pub proof fn lemma_cons_keeps_order(items: Seq<Value>, tail: Seq<Value>)
    ensures
        cons_onto(items.push(Value::List(tail))) == Ok::<Value, Failure>(Value::List(items + tail)),
{
    assert(items.push(Value::List(tail)).drop_last() =~= items);
}

} // verus!
