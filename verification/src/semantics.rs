//! What a term means.
//!
//! `evaluate` gives the meaning of a term as a function of the term, the
//! scope, the global table, the answers of the host's native functions and a
//! budget of depth.

use crate::default_env::apply;
use crate::model::{
    bind, literal, resolve, Binding, Failure, Function, Natives, Param, Term, Value,
};
use vstd::prelude::*;

verus! {

/// How an evaluation ended, and the global table it left behind. What was
/// set before a failure stays set.
pub struct Outcome {
    pub result: Result<Value, Failure>,
    pub globals: Map<Seq<char>, Term>,
}

/// How the evaluation of a call's operands ended.
pub struct Arguments {
    pub result: Result<Seq<Value>, Failure>,
    pub globals: Map<Seq<char>, Term>,
}

/// The number of parameters that take exactly one argument.
pub open spec fn fixed_count(params: Seq<Param>) -> nat
    decreases params.len(),
{
    if params.len() == 0 {
        0
    } else {
        fixed_count(params.drop_last()) + if params.last() is Fixed {
            1nat
        } else {
            0nat
        }
    }
}

/// Binds parameters to arguments, one after the other, on top of `scope`.
/// A fixed parameter takes the next argument, and there is no binding when
/// none is left. A rest parameter takes all that are left, as a list in the
/// order they were given. Arguments that no parameter takes are dropped.
pub open spec fn bind_parameters(
    params: Seq<Param>,
    args: Seq<Value>,
    scope: Seq<Binding>,
) -> Option<Seq<Binding>>
    decreases params.len(),
{
    if params.len() == 0 {
        Some(scope)
    } else {
        match params[0] {
            Param::Fixed(name) => if args.len() == 0 {
                None
            } else {
                bind_parameters(
                    params.drop_first(),
                    args.drop_first(),
                    bind(scope, name, literal(args[0])),
                )
            },
            Param::Rest(name) => bind_parameters(
                params.drop_first(),
                Seq::empty(),
                bind(scope, name, literal(Value::List(args))),
            ),
        }
    }
}

/// The scope a function's body runs in: the captured scope, then the
/// function itself under its own name, then its parameters.
pub open spec fn frame(
    captured: Seq<Binding>,
    function: Function,
    args: Seq<Value>,
) -> Option<Seq<Binding>> {
    bind_parameters(
        function.params,
        args,
        bind(captured, function.name, literal(Value::Closure(captured, Box::new(function)))),
    )
}

/// The meaning of a term in a scope and a global table, for evaluations
/// that nest at most `depth` deep.
pub open spec fn evaluate(
    natives: Natives,
    term: Term,
    scope: Seq<Binding>,
    globals: Map<Seq<char>, Term>,
    depth: nat,
) -> Outcome
    decreases depth, 0nat,
{
    if depth == 0 {
        Outcome { result: Err(Failure::DepthExceeded), globals }
    } else {
        let below = (depth - 1) as nat;
        match term {
            Term::Literal(value) => Outcome { result: Ok(*value), globals },
            Term::Variable(name) => match resolve(scope, globals, name) {
                None => Outcome { result: Err(Failure::UnboundVariable(name)), globals },
                Some(bound) => evaluate(natives, bound, scope, globals, below),
            },
            Term::Definition(function) => Outcome {
                result: Ok(Value::Closure(scope, function)),
                globals,
            },
            Term::Local(name, value, body) => {
                let first = evaluate(natives, *value, scope, globals, below);
                match first.result {
                    Err(_) => first,
                    Ok(bound) => evaluate(
                        natives,
                        *body,
                        bind(scope, name, literal(bound)),
                        first.globals,
                        below,
                    ),
                }
            },
            Term::Global(name, value) => {
                let first = evaluate(natives, *value, scope, globals, below);
                match first.result {
                    Err(_) => first,
                    Ok(bound) => Outcome {
                        result: Ok(Value::Unit),
                        globals: first.globals.insert(name, literal(bound)),
                    },
                }
            },
            Term::Conditional(test, then, otherwise) => {
                let first = evaluate(natives, *test, scope, globals, below);
                match first.result {
                    Err(_) => first,
                    Ok(Value::Bool(true)) => evaluate(natives, *then, scope, first.globals, below),
                    Ok(_) => evaluate(natives, *otherwise, scope, first.globals, below),
                }
            },
            Term::Call(operator, operands) => {
                let first = evaluate(natives, *operator, scope, globals, below);
                match first.result {
                    Err(_) => first,
                    Ok(Value::Closure(captured, function)) => {
                        let args = evaluate_all(natives, operands, scope, first.globals, below);
                        match args.result {
                            Err(failure) => Outcome { result: Err(failure), globals: args.globals },
                            Ok(values) => called(
                                natives,
                                captured,
                                *function,
                                values,
                                args.globals,
                                below,
                            ),
                        }
                    },
                    Ok(Value::Native(primitive)) => {
                        let args = evaluate_all(natives, operands, scope, first.globals, below);
                        match args.result {
                            Err(failure) => Outcome { result: Err(failure), globals: args.globals },
                            Ok(values) => Outcome {
                                result: apply(natives, primitive, values),
                                globals: args.globals,
                            },
                        }
                    },
                    Ok(other) => Outcome {
                        result: Err(Failure::NotCallable(other)),
                        globals: first.globals,
                    },
                }
            },
        }
    }
}

/// The meaning of a call of a closure on evaluated arguments: an arity
/// mismatch where an argument is missing, and else what the function's body
/// means in the frame.
pub open spec fn called(
    natives: Natives,
    captured: Seq<Binding>,
    function: Function,
    args: Seq<Value>,
    globals: Map<Seq<char>, Term>,
    depth: nat,
) -> Outcome
    decreases depth, 1nat,
{
    match frame(captured, function, args) {
        None => Outcome {
            result: Err(
                Failure::ArityMismatch(function.name, fixed_count(function.params), args.len()),
            ),
            globals,
        },
        Some(inner) => evaluate(natives, function.body, inner, globals, depth),
    }
}

/// The values of a call's operands, evaluated from left to right, each in
/// the table the one before it left behind; the first failure ends it.
pub open spec fn evaluate_all(
    natives: Natives,
    operands: Seq<Term>,
    scope: Seq<Binding>,
    globals: Map<Seq<char>, Term>,
    depth: nat,
) -> Arguments
    decreases depth, operands.len() + 1,
{
    if operands.len() == 0 {
        Arguments { result: Ok(Seq::empty()), globals }
    } else {
        let first = evaluate(natives, operands[0], scope, globals, depth);
        match first.result {
            Err(failure) => Arguments { result: Err(failure), globals: first.globals },
            Ok(value) => {
                let rest = evaluate_all(
                    natives,
                    operands.drop_first(),
                    scope,
                    first.globals,
                    depth,
                );
                match rest.result {
                    Err(_) => rest,
                    Ok(values) => Arguments {
                        result: Ok(seq![value] + values),
                        globals: rest.globals,
                    },
                }
            },
        }
    }
}

/// The terms that stand for already evaluated values.
pub open spec fn literals(values: Seq<Value>) -> Seq<Term> {
    Seq::new(values.len(), |i: int| literal(values[i]))
}

} // verus!
