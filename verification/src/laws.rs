//! What holds of every evaluation, proved of `evaluate`.

use crate::default_env::{all_numbers, default_scope, native};
use crate::model::{
    bind, find, literal, resolve, Binding, Failure, Function, Natives, Primitive, Term, Value,
};
use crate::semantics::{
    called, evaluate, evaluate_all, fixed_count, frame, literals, Arguments, Outcome,
};
use vstd::prelude::*;

verus! {

/// Operands that are already evaluated evaluate to themselves and leave the
/// global table as it was.
pub proof fn lemma_literals_evaluate(
    natives: Natives,
    values: Seq<Value>,
    scope: Seq<Binding>,
    globals: Map<Seq<char>, Term>,
    depth: nat,
)
    requires
        depth >= 1,
    ensures
        evaluate_all(natives, literals(values), scope, globals, depth) == (Arguments {
            result: Ok(values),
            globals,
        }),
    decreases values.len(),
{
    if values.len() == 0 {
        assert(values =~= Seq::<Value>::empty());
    } else {
        lemma_literals_evaluate(natives, values.drop_first(), scope, globals, depth);
        assert(literals(values).drop_first() =~= literals(values.drop_first()));
        assert(seq![values[0]] + values.drop_first() =~= values);
        assert(evaluate(natives, literal(values[0]), scope, globals, depth) == (Outcome {
            result: Ok(values[0]),
            globals,
        }));
    }
}

/// An inner binding hides an outer binding of the same name: inside both,
/// the name means what the inner one bound it to.
pub proof fn lemma_inner_binding_wins(
    natives: Natives,
    name: Seq<char>,
    outer: Value,
    inner: Value,
    scope: Seq<Binding>,
    globals: Map<Seq<char>, Term>,
    depth: nat,
)
    requires
        depth >= 4,
    ensures
        evaluate(
            natives,
            Term::Local(
                name,
                Box::new(literal(outer)),
                Box::new(
                    Term::Local(name, Box::new(literal(inner)), Box::new(Term::Variable(name))),
                ),
            ),
            scope,
            globals,
            depth,
        ) == (Outcome { result: Ok(inner), globals }),
{
    reveal_with_fuel(evaluate, 4);
}

/// A local binding is for its body alone: the whole means what the body
/// means where the name is bound to the value, and the scope it stands in is
/// the same before and after.
pub proof fn lemma_local_binds_for_its_body(
    natives: Natives,
    name: Seq<char>,
    value: Term,
    body: Term,
    scope: Seq<Binding>,
    globals: Map<Seq<char>, Term>,
    depth: nat,
)
    requires
        depth >= 1,
    ensures
        ({
            let first = evaluate(natives, value, scope, globals, (depth - 1) as nat);
            first.result matches Ok(bound) ==> evaluate(
                natives,
                Term::Local(name, Box::new(value), Box::new(body)),
                scope,
                globals,
                depth,
            ) == evaluate(
                natives,
                body,
                bind(scope, name, literal(bound)),
                first.globals,
                (depth - 1) as nat,
            )
        }),
{
}

/// What one evaluation sets in the global table, a later evaluation on the
/// same table finds, in every scope that does not bind the name itself.
pub proof fn lemma_global_persists(
    natives: Natives,
    name: Seq<char>,
    value: Value,
    setting_scope: Seq<Binding>,
    reading_scope: Seq<Binding>,
    globals: Map<Seq<char>, Term>,
    setting_depth: nat,
    reading_depth: nat,
)
    requires
        setting_depth >= 2,
        reading_depth >= 2,
        find(reading_scope, name) is None,
    ensures
        ({
            let set = evaluate(
                natives,
                Term::Global(name, Box::new(literal(value))),
                setting_scope,
                globals,
                setting_depth,
            );
            &&& set.result == Ok::<Value, Failure>(Value::Unit)
            &&& set.globals == globals.insert(name, literal(value))
            &&& evaluate(natives, Term::Variable(name), reading_scope, set.globals, reading_depth)
                == (Outcome { result: Ok(value), globals: set.globals })
        }),
{
    reveal_with_fuel(evaluate, 2);
}

/// A conditional takes its first branch when the test is the boolean true,
/// and its second branch on every other value.
pub proof fn lemma_conditional_is_strict(
    natives: Natives,
    test: Term,
    then: Term,
    otherwise: Term,
    scope: Seq<Binding>,
    globals: Map<Seq<char>, Term>,
    depth: nat,
)
    requires
        depth >= 1,
    ensures
        ({
            let below = (depth - 1) as nat;
            let first = evaluate(natives, test, scope, globals, below);
            let whole = evaluate(
                natives,
                Term::Conditional(Box::new(test), Box::new(then), Box::new(otherwise)),
                scope,
                globals,
                depth,
            );
            first.result matches Ok(decided) ==> whole == if decided == Value::Bool(true) {
                evaluate(natives, then, scope, first.globals, below)
            } else {
                evaluate(natives, otherwise, scope, first.globals, below)
            }
        }),
{
}

/// A call that gives no argument to a function whose first parameter takes
/// one fails with an arity mismatch, whatever the function's body is.
pub proof fn lemma_missing_argument_fails(
    natives: Natives,
    operator: Term,
    captured: Seq<Binding>,
    function: Function,
    scope: Seq<Binding>,
    globals: Map<Seq<char>, Term>,
    depth: nat,
)
    requires
        depth >= 1,
        function.params.len() > 0,
        function.params[0] is Fixed,
        evaluate(natives, operator, scope, globals, (depth - 1) as nat).result == Ok::<
            Value,
            Failure,
        >(Value::Closure(captured, Box::new(function))),
    ensures
        evaluate(
            natives,
            Term::Call(Box::new(operator), Seq::empty()),
            scope,
            globals,
            depth,
        ).result == Err::<Value, Failure>(
            Failure::ArityMismatch(function.name, fixed_count(function.params), 0),
        ),
{
    let below = (depth - 1) as nat;
    let first = evaluate(natives, operator, scope, globals, below);
    let args = evaluate_all(natives, Seq::<Term>::empty(), scope, first.globals, below);
    assert(called(natives, captured, function, Seq::empty(), args.globals, below).result is Err);
}

/// A closure keeps the scope it was made in: a function made inside a local
/// binding, and called anywhere else, still finds what that binding bound.
pub proof fn lemma_closure_keeps_its_scope(
    natives: Natives,
    bound: Seq<char>,
    value: Value,
    function: Function,
    defining_scope: Seq<Binding>,
    calling_scope: Seq<Binding>,
    globals: Map<Seq<char>, Term>,
    later_globals: Map<Seq<char>, Term>,
    defining_depth: nat,
    calling_depth: nat,
)
    requires
        defining_depth >= 2,
        calling_depth >= 3,
        function.params.len() == 0,
        function.body == Term::Variable(bound),
        function.name != bound,
    ensures
        ({
            let closure = Value::Closure(
                bind(defining_scope, bound, literal(value)),
                Box::new(function),
            );
            &&& evaluate(
                natives,
                Term::Local(
                    bound,
                    Box::new(literal(value)),
                    Box::new(Term::Definition(Box::new(function))),
                ),
                defining_scope,
                globals,
                defining_depth,
            ) == (Outcome { result: Ok(closure), globals })
            &&& evaluate(
                natives,
                Term::Call(Box::new(literal(closure)), Seq::empty()),
                calling_scope,
                later_globals,
                calling_depth,
            ) == (Outcome { result: Ok(value), globals: later_globals })
        }),
{
    let captured = bind(defining_scope, bound, literal(value));
    let closure = Value::Closure(captured, Box::new(function));
    let own = bind(captured, function.name, literal(closure));
    let made = (defining_depth - 1) as nat;
    assert(evaluate(natives, literal(value), defining_scope, globals, made) == (Outcome {
        result: Ok(value),
        globals,
    }));
    assert(evaluate(natives, Term::Definition(Box::new(function)), captured, globals, made)
        == (Outcome { result: Ok(closure), globals }));
    lemma_call_runs_in_the_captured_scope(
        natives,
        captured,
        function,
        Seq::empty(),
        calling_scope,
        later_globals,
        calling_depth,
    );
    assert(literals(Seq::empty()) =~= Seq::<Term>::empty());
    assert(own.drop_first() =~= captured);
    assert(find(captured, bound) == Some(literal(value)));
    let below = (calling_depth - 1) as nat;
    assert(evaluate(natives, literal(value), own, later_globals, (below - 1) as nat) == (Outcome {
        result: Ok(value),
        globals: later_globals,
    }));
}

/// A call runs the function's body in the scope the closure captured, not
/// in the scope of the caller: with arguments that are already evaluated,
/// the outcome is the same from every scope.
pub proof fn lemma_call_runs_in_the_captured_scope(
    natives: Natives,
    captured: Seq<Binding>,
    function: Function,
    args: Seq<Value>,
    calling_scope: Seq<Binding>,
    globals: Map<Seq<char>, Term>,
    depth: nat,
)
    requires
        depth >= 2,
    ensures
        evaluate(
            natives,
            Term::Call(
                Box::new(literal(Value::Closure(captured, Box::new(function)))),
                literals(args),
            ),
            calling_scope,
            globals,
            depth,
        ) == called(natives, captured, function, args, globals, (depth - 1) as nat),
{
    let below = (depth - 1) as nat;
    let closure = Value::Closure(captured, Box::new(function));
    assert(evaluate(natives, literal(closure), calling_scope, globals, below) == (Outcome {
        result: Ok(closure),
        globals,
    }));
    lemma_literals_evaluate(natives, args, calling_scope, globals, below);
}

/// Whether an evaluation ran out of depth.
pub open spec fn ran_out(result: Result<Value, Failure>) -> bool {
    result == Err::<Value, Failure>(Failure::DepthExceeded)
}

/// The depth is a budget and nothing else: an outcome that was reached
/// within one budget is the outcome within every larger one.
pub proof fn lemma_depth_is_a_budget(
    natives: Natives,
    term: Term,
    scope: Seq<Binding>,
    globals: Map<Seq<char>, Term>,
    depth: nat,
    more: nat,
)
    requires
        depth <= more,
        !ran_out(evaluate(natives, term, scope, globals, depth).result),
    ensures
        evaluate(natives, term, scope, globals, more) == evaluate(
            natives,
            term,
            scope,
            globals,
            depth,
        ),
    decreases depth, 0nat,
{
    let below = (depth - 1) as nat;
    let above = (more - 1) as nat;
    match term {
        Term::Literal(_) => {},
        Term::Definition(_) => {},
        Term::Variable(name) => {
            if let Some(bound) = resolve(scope, globals, name) {
                lemma_depth_is_a_budget(natives, bound, scope, globals, below, above);
            }
        },
        Term::Local(name, value, body) => {
            let first = evaluate(natives, *value, scope, globals, below);
            lemma_depth_is_a_budget(natives, *value, scope, globals, below, above);
            if let Ok(bound) = first.result {
                lemma_depth_is_a_budget(
                    natives,
                    *body,
                    bind(scope, name, literal(bound)),
                    first.globals,
                    below,
                    above,
                );
            }
        },
        Term::Global(_, value) => {
            lemma_depth_is_a_budget(natives, *value, scope, globals, below, above);
        },
        Term::Conditional(test, then, otherwise) => {
            let first = evaluate(natives, *test, scope, globals, below);
            lemma_depth_is_a_budget(natives, *test, scope, globals, below, above);
            match first.result {
                Err(_) => {},
                Ok(Value::Bool(true)) => {
                    lemma_depth_is_a_budget(natives, *then, scope, first.globals, below, above);
                },
                Ok(_) => {
                    lemma_depth_is_a_budget(
                        natives,
                        *otherwise,
                        scope,
                        first.globals,
                        below,
                        above,
                    );
                },
            }
        },
        Term::Call(operator, operands) => {
            let first = evaluate(natives, *operator, scope, globals, below);
            lemma_depth_is_a_budget(natives, *operator, scope, globals, below, above);
            match first.result {
                Ok(Value::Closure(captured, function)) => {
                    let args = evaluate_all(natives, operands, scope, first.globals, below);
                    lemma_depth_is_a_budget_for_operands(
                        natives,
                        operands,
                        scope,
                        first.globals,
                        below,
                        above,
                    );
                    if let Ok(values) = args.result {
                        if let Some(inner) = frame(captured, *function, values) {
                            lemma_depth_is_a_budget(
                                natives,
                                function.body,
                                inner,
                                args.globals,
                                below,
                                above,
                            );
                        }
                        assert(called(natives, captured, *function, values, args.globals, above)
                            == called(natives, captured, *function, values, args.globals, below));
                    }
                },
                Ok(Value::Native(_)) => {
                    lemma_depth_is_a_budget_for_operands(
                        natives,
                        operands,
                        scope,
                        first.globals,
                        below,
                        above,
                    );
                },
                _ => {},
            }
        },
    }
}

/// The same for the operands of a call.
pub proof fn lemma_depth_is_a_budget_for_operands(
    natives: Natives,
    operands: Seq<Term>,
    scope: Seq<Binding>,
    globals: Map<Seq<char>, Term>,
    depth: nat,
    more: nat,
)
    requires
        depth <= more,
        evaluate_all(natives, operands, scope, globals, depth).result != Err::<
            Seq<Value>,
            Failure,
        >(Failure::DepthExceeded),
    ensures
        evaluate_all(natives, operands, scope, globals, more) == evaluate_all(
            natives,
            operands,
            scope,
            globals,
            depth,
        ),
    decreases depth, operands.len() + 1,
{
    if operands.len() > 0 {
        let first = evaluate(natives, operands[0], scope, globals, depth);
        lemma_depth_is_a_budget(natives, operands[0], scope, globals, depth, more);
        if first.result is Ok {
            lemma_depth_is_a_budget_for_operands(
                natives,
                operands.drop_first(),
                scope,
                first.globals,
                depth,
                more,
            );
        }
    }
}

/// Where user code starts, `+` on numbers is whatever the host computes for
/// them, and the global table stays as it was.
pub proof fn lemma_plus_asks_the_host(
    natives: Natives,
    numbers: Seq<Value>,
    globals: Map<Seq<char>, Term>,
    depth: nat,
)
    requires
        depth >= 3,
        all_numbers(numbers),
    ensures
        evaluate(
            natives,
            Term::Call(Box::new(Term::Variable("+"@)), literals(numbers)),
            default_scope(),
            globals,
            depth,
        ) == (Outcome { result: natives("+"@, numbers), globals }),
{
    let scope = default_scope();
    let inner = bind(Seq::empty(), "+"@, native(Primitive::Add));
    let middle = bind(inner, "cons"@, native(Primitive::Cons));
    let below = (depth - 1) as nat;
    assert(find(scope, "+"@) == Some(native(Primitive::Add))) by {
        reveal_strlit("+");
        reveal_strlit("cons");
        reveal_strlit("debug");
        assert(middle[0].name == "cons"@ && scope[0].name == "debug"@);
        assert(scope.drop_first() =~= middle);
        assert(middle.drop_first() =~= inner);
        assert(find(middle, "+"@) == find(inner, "+"@));
    }
    let plus = Outcome { result: Ok(Value::Native(Primitive::Add)), globals };
    assert(evaluate(natives, native(Primitive::Add), scope, globals, (below - 1) as nat) == plus);
    assert(evaluate(natives, Term::Variable("+"@), scope, globals, below) == plus);
    lemma_literals_evaluate(natives, numbers, scope, globals, below);
}

} // verus!
