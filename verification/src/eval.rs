//! The evaluator: the function that computes what a term means.

use crate::ast::{
    globals_of, lemma_call_term, lemma_defn_function, outcome_of, params_of, share, terms_of,
    values_of, Assign, Env, EvalError, Expr, GlobalEnv, List, ParamType, Type,
};
use crate::host::{answers, answers_all};
use crate::model::{Failure, Natives, Term, Value};
use crate::semantics::{
    bind_parameters, called, evaluate, evaluate_all, fixed_count, Arguments, Outcome,
};
use std::sync::Arc;
use vstd::prelude::*;

verus! {

/// The number of parameters that take exactly one argument.
fn count_fixed(params: &Vec<ParamType>) -> (count: usize)
    ensures
        count == fixed_count(params_of(params@)),
{
    let ghost all = params_of(params@);
    let mut count: usize = 0;
    let mut i: usize = 0;
    while i < params.len()
        invariant
            i <= params.len(),
            all == params_of(params@),
            count <= i,
            count == fixed_count(all.take(i as int)),
        decreases params.len() - i,
    {
        assert(all.take(i + 1).drop_last() =~= all.take(i as int));
        if let ParamType::Singular(_) = &params[i] {
            count += 1;
        }
        i += 1;
    }
    assert(all.take(params.len() as int) =~= all);
    count
}

/// The arguments from place `from` on, as a list in the same order.
fn rest_list(args: &Vec<Arc<Type>>, from: usize) -> (list: Arc<List>)
    requires
        from <= args.len(),
    ensures
        list@ == values_of(args@).skip(from as int),
{
    let ghost values = values_of(args@);
    let mut list = Arc::new(List::End);
    let mut k: usize = args.len();
    while k > from
        invariant
            from <= k <= args.len(),
            values == values_of(args@),
            list@ == values.skip(k as int),
        decreases k,
    {
        k -= 1;
        list = Type::cons(&args[k], &list);
    }
    list
}

/// Binds parameters to arguments on top of `env`.
#[verifier::loop_isolation(false)]
fn bind_params(
    params: &Vec<ParamType>,
    args: &Vec<Arc<Type>>,
    env: Arc<Option<Env>>,
) -> (bound: Option<Arc<Option<Env>>>)
    ensures
        match bound {
            Some(inner) => bind_parameters(
                params_of(params@),
                values_of(args@),
                Env::scope(&env),
            ) == Some(Env::scope(&inner)),
            None => bind_parameters(params_of(params@), values_of(args@), Env::scope(&env)) is None,
        },
{
    let ghost all = params_of(params@);
    let ghost values = values_of(args@);
    let ghost goal = bind_parameters(all, values, Env::scope(&env));
    let mut cur = env;
    let mut i: usize = 0;
    let mut j: usize = 0;
    assert(all.skip(0) =~= all);
    assert(values.skip(0) =~= values);
    while i < params.len()
        invariant
            i <= params.len(),
            j <= args.len(),
            all == params_of(params@),
            values == values_of(args@),
            bind_parameters(all.skip(i as int), values.skip(j as int), Env::scope(&cur)) == goal,
        decreases params.len() - i,
    {
        let ghost left = all.skip(i as int);
        let ghost unused = values.skip(j as int);
        assert(left.drop_first() =~= all.skip(i + 1));
        match &params[i] {
            ParamType::Singular(name) => {
                if j >= args.len() {
                    return None;
                }
                assert(unused.drop_first() =~= values.skip(j + 1));
                let bound = Arc::new(Expr::Value(share(&args[j])));
                cur = Env::with(cur, name.clone(), bound);
                j += 1;
            },
            ParamType::Rest(name) => {
                let rest = rest_list(args, j);
                let collected = Arc::new(Type::List(rest));
                assert(collected@ == Value::List(unused));
                let bound = Arc::new(Expr::Value(collected));
                cur = Env::with(cur, name.clone(), bound);
                j = args.len();
                assert(values.skip(j as int) =~= Seq::<Value>::empty());
            },
        }
        i += 1;
    }
    Some(cur)
}

/// Puts `values` in front of what `rest` holds.
spec fn after(values: Seq<Value>, rest: Arguments) -> Arguments {
    match rest.result {
        Err(_) => rest,
        Ok(more) => Arguments { result: Ok(values + more), globals: rest.globals },
    }
}

/// Whether a result and the global table left behind are those of an
/// outcome.
pub open spec fn evaluated(
    result: Result<Arc<Type>, EvalError>,
    left: Map<Seq<char>, Arc<Expr>>,
    outcome: Outcome,
) -> bool {
    outcome_of(result) == outcome.result && globals_of(left) == outcome.globals
}

/// The same for the operands of a call.
spec fn evaluated_all(
    result: Result<Vec<Arc<Type>>, EvalError>,
    left: Map<Seq<char>, Arc<Expr>>,
    arguments: Arguments,
) -> bool {
    &&& globals_of(left) == arguments.globals
    &&& match result {
        Ok(values) => arguments.result == Ok::<Seq<Value>, Failure>(values_of(values@)),
        Err(error) => arguments.result == Err::<Seq<Value>, Failure>(error@),
    }
}

/// Evaluates the operands of a call from left to right.
#[verifier::loop_isolation(false)]
fn eval_operands<F: Fn(&str, Vec<Arc<Type>>) -> Result<Arc<Type>, EvalError>>(
    operands: &Vec<Arc<Expr>>,
    env: &Arc<Option<Env>>,
    g_env: &mut GlobalEnv,
    natives: &F,
    depth: usize,
) -> (result: Result<Vec<Arc<Type>>, EvalError>)
    requires
        answers_all(natives),
    ensures
        forall|table: Natives| #[trigger]
            answers(natives, table) ==> evaluated_all(
                result,
                final(g_env)@,
                evaluate_all(
                    table,
                    terms_of(operands@),
                    Env::scope(env),
                    globals_of(old(g_env)@),
                    depth as nat,
                ),
            ),
    decreases depth, 3nat,
{
    let ghost terms = terms_of(operands@);
    let ghost scope = Env::scope(env);
    let ghost start = globals_of(g_env@);
    let mut values: Vec<Arc<Type>> = Vec::new();
    let mut i: usize = 0;
    assert(terms.skip(0) =~= terms);
    while i < operands.len()
        invariant
            i <= operands.len(),
            terms == terms_of(operands@),
            scope == Env::scope(env),
            forall|table: Natives| #[trigger]
                answers(natives, table) ==> evaluate_all(
                    table,
                    terms,
                    scope,
                    start,
                    depth as nat,
                ) == after(
                    values_of(values@),
                    evaluate_all(
                        table,
                        terms.skip(i as int),
                        scope,
                        globals_of(g_env@),
                        depth as nat,
                    ),
                ),
        decreases operands.len() - i,
    {
        let ghost before = values_of(values@);
        let ghost remaining = terms.skip(i as int);
        assert(remaining.drop_first() =~= terms.skip(i + 1));
        match operands[i].eval(share(env), g_env, natives, depth) {
            Err(error) => {
                return Err(error);
            },
            Ok(value) => {
                values.push(value);
                proof {
                    assert forall|table: Natives| #[trigger] answers(natives, table) implies {
                        let rest = evaluate_all(
                            table,
                            terms.skip(i + 1),
                            scope,
                            globals_of(g_env@),
                            depth as nat,
                        );
                        rest.result matches Ok(more) ==> before + (seq![value@] + more)
                            == values_of(values@) + more
                    } by {
                        let rest = evaluate_all(
                            table,
                            terms.skip(i + 1),
                            scope,
                            globals_of(g_env@),
                            depth as nat,
                        );
                        if let Ok(more) = rest.result {
                        }
                    }
                }
            },
        }
        i += 1;
    }
    Ok(values)
}

/// Evaluates a variable: the local chain first, then the global table, and
/// then what was found.
fn eval_variable<F: Fn(&str, Vec<Arc<Type>>) -> Result<Arc<Type>, EvalError>>(
    name: &String,
    env: Arc<Option<Env>>,
    g_env: &mut GlobalEnv,
    natives: &F,
    depth: usize,
) -> (result: Result<Arc<Type>, EvalError>)
    requires
        answers_all(natives),
        depth > 0,
    ensures
        forall|table: Natives| #[trigger]
            answers(natives, table) ==> evaluated(
                result,
                final(g_env)@,
                evaluate(
                    table,
                    Term::Variable(name@),
                    Env::scope(&env),
                    globals_of(old(g_env)@),
                    depth as nat,
                ),
            ),
    decreases depth, 1nat,
{
    let bound = match Env::lookup(&env, name) {
        Some(expr) => Some(expr),
        None => match g_env.get(name.as_str()) {
            Some(expr) => Some(share(expr)),
            None => None,
        },
    };
    match bound {
        None => Err(EvalError::UnboundVariable(name.clone())),
        Some(expr) => expr.eval(env, g_env, natives, depth - 1),
    }
}

/// Evaluates a local binding: the value, and then the body with the name
/// bound to it.
fn eval_local<F: Fn(&str, Vec<Arc<Type>>) -> Result<Arc<Type>, EvalError>>(
    name: &String,
    value: &Arc<Expr>,
    body: &Arc<Expr>,
    env: Arc<Option<Env>>,
    g_env: &mut GlobalEnv,
    natives: &F,
    depth: usize,
) -> (result: Result<Arc<Type>, EvalError>)
    requires
        answers_all(natives),
        depth > 0,
    ensures
        forall|table: Natives| #[trigger]
            answers(natives, table) ==> evaluated(
                result,
                final(g_env)@,
                evaluate(
                    table,
                    Term::Local(name@, Box::new(value@), Box::new(body@)),
                    Env::scope(&env),
                    globals_of(old(g_env)@),
                    depth as nat,
                ),
            ),
    decreases depth, 1nat,
{
    match value.eval(share(&env), g_env, natives, depth - 1) {
        Err(error) => Err(error),
        Ok(bound) => body.eval(
            Env::with(env, name.clone(), Arc::new(Expr::Value(bound))),
            g_env,
            natives,
            depth - 1,
        ),
    }
}

/// Evaluates a global assignment: the value, and then the table is set.
fn eval_global<F: Fn(&str, Vec<Arc<Type>>) -> Result<Arc<Type>, EvalError>>(
    name: &String,
    value: &Arc<Expr>,
    env: Arc<Option<Env>>,
    g_env: &mut GlobalEnv,
    natives: &F,
    depth: usize,
) -> (result: Result<Arc<Type>, EvalError>)
    requires
        answers_all(natives),
        depth > 0,
    ensures
        forall|table: Natives| #[trigger]
            answers(natives, table) ==> evaluated(
                result,
                final(g_env)@,
                evaluate(
                    table,
                    Term::Global(name@, Box::new(value@)),
                    Env::scope(&env),
                    globals_of(old(g_env)@),
                    depth as nat,
                ),
            ),
    decreases depth, 1nat,
{
    match value.eval(env, g_env, natives, depth - 1) {
        Err(error) => Err(error),
        Ok(bound) => {
            let ghost before = g_env@;
            let stored = Arc::new(Expr::Value(bound));
            g_env.insert(name.clone(), stored);
            assert(globals_of(g_env@) =~= globals_of(before).insert(name@, stored@));
            Ok(Type::unit())
        },
    }
}

/// Evaluates a conditional: the test, and then one of the branches.
fn eval_if<F: Fn(&str, Vec<Arc<Type>>) -> Result<Arc<Type>, EvalError>>(
    test: &Arc<Expr>,
    then: &Arc<Expr>,
    otherwise: &Arc<Expr>,
    env: Arc<Option<Env>>,
    g_env: &mut GlobalEnv,
    natives: &F,
    depth: usize,
) -> (result: Result<Arc<Type>, EvalError>)
    requires
        answers_all(natives),
        depth > 0,
    ensures
        forall|table: Natives| #[trigger]
            answers(natives, table) ==> evaluated(
                result,
                final(g_env)@,
                evaluate(
                    table,
                    Term::Conditional(Box::new(test@), Box::new(then@), Box::new(otherwise@)),
                    Env::scope(&env),
                    globals_of(old(g_env)@),
                    depth as nat,
                ),
            ),
    decreases depth, 1nat,
{
    match test.eval(share(&env), g_env, natives, depth - 1) {
        Err(error) => Err(error),
        Ok(decided) => match &*decided {
            Type::Bool(true) => then.eval(env, g_env, natives, depth - 1),
            _ => otherwise.eval(env, g_env, natives, depth - 1),
        },
    }
}

/// Calls a closure on evaluated arguments: binds the function's own name
/// and its parameters on top of the captured environment, and evaluates the
/// body there.
fn call_closure<F: Fn(&str, Vec<Arc<Type>>) -> Result<Arc<Type>, EvalError>>(
    callee: &Arc<Type>,
    args: Vec<Arc<Type>>,
    g_env: &mut GlobalEnv,
    natives: &F,
    depth: usize,
) -> (result: Result<Arc<Type>, EvalError>)
    requires
        answers_all(natives),
        callee@ is Closure,
    ensures
        forall|table: Natives| #[trigger]
            answers(natives, table) ==> evaluated(
                result,
                final(g_env)@,
                called(
                    table,
                    callee@->Closure_0,
                    *callee@->Closure_1,
                    values_of(args@),
                    globals_of(old(g_env)@),
                    depth as nat,
                ),
            ),
    decreases depth, 3nat,
{
    match &**callee {
        Type::Closure(captured, defn) => {
            proof {
                lemma_defn_function(&**defn);
            }
            let own = Env::with(
                share(captured),
                defn.name.clone(),
                Arc::new(Expr::Value(share(callee))),
            );
            match bind_params(&defn.params, &args, own) {
                None => Err(
                    EvalError::ArityMismatch(
                        defn.name.clone(),
                        count_fixed(&defn.params),
                        args.len(),
                    ),
                ),
                Some(inner) => defn.body.eval(inner, g_env, natives, depth),
            }
        },
        _ => Err(EvalError::NotCallable(share(callee))),
    }
}

/// Evaluates a call: the operator, then the operands, and then the closure
/// or the native function on them.
fn eval_call<F: Fn(&str, Vec<Arc<Type>>) -> Result<Arc<Type>, EvalError>>(
    operator: &Arc<Expr>,
    operands: &Vec<Arc<Expr>>,
    env: Arc<Option<Env>>,
    g_env: &mut GlobalEnv,
    natives: &F,
    depth: usize,
) -> (result: Result<Arc<Type>, EvalError>)
    requires
        answers_all(natives),
        depth > 0,
    ensures
        forall|table: Natives| #[trigger]
            answers(natives, table) ==> evaluated(
                result,
                final(g_env)@,
                evaluate(
                    table,
                    Term::Call(Box::new(operator@), terms_of(operands@)),
                    Env::scope(&env),
                    globals_of(old(g_env)@),
                    depth as nat,
                ),
            ),
    decreases depth, 1nat,
{
    match operator.eval(share(&env), g_env, natives, depth - 1) {
        Err(error) => Err(error),
        Ok(callee) => match &*callee {
            Type::Closure(_, _) => {
                match eval_operands(operands, &env, g_env, natives, depth - 1) {
                    Err(error) => Err(error),
                    Ok(args) => call_closure(&callee, args, g_env, natives, depth - 1),
                }
            },
            Type::RustClosure(native) => {
                match eval_operands(operands, &env, g_env, natives, depth - 1) {
                    Err(error) => Err(error),
                    Ok(args) => native.apply(args, natives),
                }
            },
            _ => Err(EvalError::NotCallable(share(&callee))),
        },
    }
}

impl Expr {
    /// Evaluates this expression in the environment `env` and the global
    /// table `g_env`, nesting at most `depth` evaluations deep.
    ///
    /// For every table of answers that `natives` keeps to, the result and
    /// the table left behind are those that `evaluate` gives.
    pub fn eval<F: Fn(&str, Vec<Arc<Type>>) -> Result<Arc<Type>, EvalError>>(
        &self,
        env: Arc<Option<Env>>,
        g_env: &mut GlobalEnv,
        natives: &F,
        depth: usize,
    ) -> (result: Result<Arc<Type>, EvalError>)
        requires
            answers_all(natives),
        ensures
            forall|table: Natives| #[trigger]
                answers(natives, table) ==> evaluated(
                    result,
                    final(g_env)@,
                    evaluate(
                        table,
                        self@,
                        Env::scope(&env),
                        globals_of(old(g_env)@),
                        depth as nat,
                    ),
                ),
        decreases depth, 2nat,
    {
        if depth == 0 {
            return Err(EvalError::DepthExceeded);
        }
        match self {
            Expr::Value(value) => Ok(share(value)),
            Expr::Variable(name) => eval_variable(name, env, g_env, natives, depth),
            Expr::Assign(Assign::Local(name, value, body)) => eval_local(
                name,
                value,
                body,
                env,
                g_env,
                natives,
                depth,
            ),
            Expr::Assign(Assign::Global(name, value)) => eval_global(
                name,
                value,
                env,
                g_env,
                natives,
                depth,
            ),
            Expr::Defn(defn) => Ok(Arc::new(Type::Closure(env, share(defn)))),
            Expr::If(test, then, otherwise) => eval_if(
                test,
                then,
                otherwise,
                env,
                g_env,
                natives,
                depth,
            ),
            Expr::Call(operator, operands) => {
                proof {
                    lemma_call_term(operator, operands);
                }
                eval_call(operator, operands, env, g_env, natives, depth)
            },
        }
    }
}

} // verus!
