//! The executable representation of values, expressions and environments,
//! with the view of each into the model.

use crate::model::{
    bind, find, literal, Binding, Failure, Function, Kind, Param, Primitive, Term, Value,
};
use crate::number::Number;
use std::sync::Arc;
use vstd::hash_map::StringHashMap;
use vstd::prelude::*;

verus! {

/// A runtime value.
#[derive(Debug, Clone)]
pub enum Type {
    Unit,
    Free(Arc<Expr>),
    Number(Number),
    Str(String),
    Bool(bool),
    Tuple(Arc<Type>, Arc<Type>),
    Closure(Arc<Option<Env>>, Arc<Defn>),
    List(Arc<List>),
    RustClosure(Native),
}

/// A function implemented outside the language: one of the built-ins, or
/// one that the host offers under a name.
#[derive(Debug, Clone)]
pub enum Native {
    Add,
    Sub,
    Mul,
    Equals,
    Cons,
    Head,
    Tail,
    Debug,
    Host(String),
}

/// An immutable list, shared by reference.
#[derive(Debug, Clone)]
pub enum List {
    End,
    Cons(Arc<Type>, Arc<List>),
}

/// How a parameter takes its arguments.
#[derive(Debug, Clone)]
pub enum ParamType {
    Singular(String),
    Rest(String),
}

/// A function definition.
#[derive(Debug, Clone)]
pub struct Defn {
    pub name: String,
    pub params: Vec<ParamType>,
    pub body: Arc<Expr>,
}

/// The two forms of assignment.
#[derive(Debug, Clone)]
pub enum Assign {
    Local(String, Arc<Expr>, Arc<Expr>),
    Global(String, Arc<Expr>),
}

/// An expression before evaluation.
#[derive(Debug, Clone)]
pub enum Expr {
    Value(Arc<Type>),
    Variable(String),
    Defn(Arc<Defn>),
    Call(Arc<Expr>, Vec<Arc<Expr>>),
    Assign(Assign),
    If(Arc<Expr>, Arc<Expr>, Arc<Expr>),
}

/// One node of the local environment. A node is never changed once built, so
/// any number of closures and frames may hold the same parent.
#[derive(Debug, Clone)]
pub struct Env {
    pub name: String,
    pub bind: Arc<Expr>,
    pub old: Arc<Option<Env>>,
}

/// The global table: names set by global assignment, read after the local
/// chain.
pub type GlobalEnv = StringHashMap<Arc<Expr>>;

/// Why an evaluation or a reading stopped.
#[derive(Debug, Clone)]
pub enum EvalError {
    UnboundVariable(String),
    NotCallable(Arc<Type>),
    /// `ArityMismatch(function, expected, got)`.
    ArityMismatch(String, usize, usize),
    /// `TypeMismatch(operation, expected, actual)`.
    TypeMismatch(String, Kind, Arc<Type>),
    MalformedSyntax(String),
    /// The evaluation nested deeper than its budget allowed.
    DepthExceeded,
}

impl View for Native {
    type V = Primitive;

    open spec fn view(&self) -> Primitive {
        match self {
            Native::Add => Primitive::Add,
            Native::Sub => Primitive::Sub,
            Native::Mul => Primitive::Mul,
            Native::Equals => Primitive::Equals,
            Native::Cons => Primitive::Cons,
            Native::Head => Primitive::Head,
            Native::Tail => Primitive::Tail,
            Native::Debug => Primitive::Debug,
            Native::Host(name) => Primitive::Host(name@),
        }
    }
}

impl View for ParamType {
    type V = Param;

    open spec fn view(&self) -> Param {
        match self {
            ParamType::Singular(name) => Param::Fixed(name@),
            ParamType::Rest(name) => Param::Rest(name@),
        }
    }
}

impl Type {
    /// The value this stands for.
    pub open spec fn model(&self) -> Value
        decreases self,
    {
        match self {
            Type::Unit => Value::Unit,
            Type::Free(expr) => Value::Free(Box::new(expr.model())),
            Type::Number(n) => Value::Number(n@),
            Type::Str(s) => Value::Str(s@),
            Type::Bool(b) => Value::Bool(*b),
            Type::Tuple(first, second) => Value::Tuple(
                Box::new(first.model()),
                Box::new(second.model()),
            ),
            Type::Closure(env, defn) => Value::Closure(Env::scope(env), Box::new(defn.model())),
            Type::List(list) => Value::List(list.model()),
            Type::RustClosure(native) => Value::Native(native@),
        }
    }
}

impl List {
    /// The items of the list, head first.
    pub open spec fn model(&self) -> Seq<Value>
        decreases self,
    {
        match self {
            List::End => Seq::empty(),
            List::Cons(head, tail) => seq![head.model()] + tail.model(),
        }
    }
}

impl Defn {
    /// The function this stands for.
    pub open spec fn model(&self) -> Function
        decreases self,
    {
        Function {
            name: self.name@,
            params: Seq::new(self.params.len() as nat, |i: int| self.params[i]@),
            body: self.body.model(),
        }
    }
}

impl Expr {
    /// The term this stands for.
    pub open spec fn model(&self) -> Term
        decreases self,
    {
        match self {
            Expr::Value(value) => Term::Literal(Box::new(value.model())),
            Expr::Variable(name) => Term::Variable(name@),
            Expr::Defn(defn) => Term::Definition(Box::new(defn.model())),
            Expr::Call(operator, operands) => Term::Call(
                Box::new(operator.model()),
                Seq::new(
                    operands.len() as nat,
                    |i: int|
                        if 0 <= i < operands.len() {
                            operands[i].model()
                        } else {
                            Term::Variable(Seq::empty())
                        },
                ),
            ),
            Expr::Assign(Assign::Local(name, value, body)) => Term::Local(
                name@,
                Box::new(value.model()),
                Box::new(body.model()),
            ),
            Expr::Assign(Assign::Global(name, value)) => Term::Global(
                name@,
                Box::new(value.model()),
            ),
            Expr::If(test, then, otherwise) => Term::Conditional(
                Box::new(test.model()),
                Box::new(then.model()),
                Box::new(otherwise.model()),
            ),
        }
    }
}

impl Env {
    /// The bindings of a chain, innermost first.
    pub open spec fn scope(env: &Arc<Option<Env>>) -> Seq<Binding>
        decreases env,
    {
        match **env {
            None => Seq::empty(),
            Some(node) => bind(Env::scope(&node.old), node.name@, node.bind.model()),
        }
    }
}

impl View for Type {
    type V = Value;

    open spec fn view(&self) -> Value {
        self.model()
    }
}

impl View for List {
    type V = Seq<Value>;

    open spec fn view(&self) -> Seq<Value> {
        self.model()
    }
}

impl View for Defn {
    type V = Function;

    open spec fn view(&self) -> Function {
        self.model()
    }
}

impl View for Expr {
    type V = Term;

    open spec fn view(&self) -> Term {
        self.model()
    }
}

impl View for EvalError {
    type V = Failure;

    open spec fn view(&self) -> Failure {
        match self {
            EvalError::UnboundVariable(name) => Failure::UnboundVariable(name@),
            EvalError::NotCallable(value) => Failure::NotCallable(value@),
            EvalError::ArityMismatch(function, expected, got) => Failure::ArityMismatch(
                function@,
                *expected as nat,
                *got as nat,
            ),
            EvalError::TypeMismatch(operation, expected, actual) => Failure::TypeMismatch(
                operation@,
                *expected,
                actual@,
            ),
            EvalError::MalformedSyntax(construct) => Failure::MalformedSyntax(construct@),
            EvalError::DepthExceeded => Failure::DepthExceeded,
        }
    }
}

/// The terms a sequence of shared expressions stands for.
pub open spec fn terms_of(exprs: Seq<Arc<Expr>>) -> Seq<Term> {
    Seq::new(exprs.len(), |i: int| exprs[i]@)
}

/// The parameters a sequence of parameter types stands for.
pub open spec fn params_of(params: Seq<ParamType>) -> Seq<Param> {
    Seq::new(params.len(), |i: int| params[i]@)
}

/// A call's term holds the terms of its operands, in order.
pub proof fn lemma_call_term(operator: &Arc<Expr>, operands: &Vec<Arc<Expr>>)
    ensures
        Expr::Call(*operator, *operands)@ == Term::Call(Box::new(operator@), terms_of(operands@)),
{
    assert(Expr::Call(*operator, *operands).model()->Call_1 =~= terms_of(operands@));
}

/// A definition's function holds its parameters, in order.
pub proof fn lemma_defn_function(defn: &Defn)
    ensures
        defn@ == (Function { name: defn.name@, params: params_of(defn.params@), body: defn.body@ }),
{
}

/// The values a sequence of shared values stands for.
pub open spec fn values_of(values: Seq<Arc<Type>>) -> Seq<Value> {
    Seq::new(values.len(), |i: int| values[i]@)
}

/// The table a global environment stands for.
pub open spec fn globals_of(table: Map<Seq<char>, Arc<Expr>>) -> Map<Seq<char>, Term> {
    Map::new(|name: Seq<char>| table.contains_key(name), |name: Seq<char>| table[name]@)
}

/// The outcome a result stands for.
pub open spec fn outcome_of(result: Result<Arc<Type>, EvalError>) -> Result<Value, Failure> {
    match result {
        Ok(value) => Ok(value@),
        Err(error) => Err(error@),
    }
}

/// `Arc::clone`: the new pointer points to the same value as the one it was
/// made from.
#[verifier::external_body]
pub(crate) fn share<T>(pointer: &Arc<T>) -> (copy: Arc<T>)
    ensures
        copy == *pointer,
{
    Arc::clone(pointer)
}

impl Type {
    /// The empty list.
    pub fn new_empty_list() -> (value: Arc<Type>)
        ensures
            value@ == Value::List(Seq::empty()),
    {
        let end = Arc::new(List::End);
        assert(end.model() == Seq::<Value>::empty());
        Arc::new(Type::List(end))
    }

    /// The number `n`.
    pub fn new_number(n: Number) -> (value: Arc<Type>)
        ensures
            value@ == Value::Number(n@),
    {
        Arc::new(Type::Number(n))
    }

    /// The unit value.
    pub fn unit() -> (value: Arc<Type>)
        ensures
            value@ == Value::Unit,
    {
        Arc::new(Type::Unit)
    }

    /// The native function `r` as a value.
    pub fn new_rust_closure(r: Native) -> (value: Arc<Type>)
        ensures
            value@ == Value::Native(r@),
    {
        Arc::new(Type::RustClosure(r))
    }

    /// The list `b` with `a` in front of it.
    pub fn cons(a: &Arc<Type>, b: &Arc<List>) -> (list: Arc<List>)
        ensures
            list@ == seq![a@] + b@,
    {
        Arc::new(List::Cons(share(a), share(b)))
    }
}

impl Expr {
    /// The value of an expression that is already evaluated.
    pub fn to_type(&self) -> (value: Arc<Type>)
        requires
            self@ is Literal,
        ensures
            self@ == literal(value@),
    {
        match self {
            Expr::Value(value) => share(value),
            _ => Type::unit(),
        }
    }
}

impl Env {
    /// The chain `old` extended by one innermost node binding `name` to
    /// `bind`. `old` itself is left as it is.
    pub fn with(old: Arc<Option<Env>>, name: String, bind: Arc<Expr>) -> (env: Arc<Option<Env>>)
        ensures
            Env::scope(&env) == crate::model::bind(Env::scope(&old), name@, bind@),
    {
        Arc::new(Some(Env { name, bind, old }))
    }

    /// The expression bound to `name` by the innermost node of that name, if
    /// any node binds it.
    pub fn lookup(env: &Arc<Option<Env>>, name: &String) -> (found: Option<Arc<Expr>>)
        ensures
            match found {
                Some(bound) => find(Env::scope(env), name@) == Some(bound@),
                None => find(Env::scope(env), name@) is None,
            },
    {
        let mut cur = env;
        loop
            invariant
                find(Env::scope(cur), name@) == find(Env::scope(env), name@),
            decreases **cur,
        {
            match &**cur {
                None => {
                    return None;
                },
                Some(node) => {
                    assert(Env::scope(cur).drop_first() =~= Env::scope(&node.old));
                    if node.name == *name {
                        return Some(share(&node.bind));
                    }
                    cur = &node.old;
                },
            }
        }
    }
}

} // verus!
