//! The mathematical model of the language: values, terms, scopes and
//! failures as plain algebraic data over sequences and maps. Every contract
//! of the evaluator, the built-ins and the reader is stated over these types;
//! the executable types of `ast` are viewed into them.

use vstd::prelude::*;

verus! {

/// A runtime value.
pub enum Value {
    Unit,
    /// An unresolved reference, kept for later reporting.
    Free(Box<Term>),
    /// A single-precision number, by its bit pattern.
    Number(u32),
    Str(Seq<char>),
    Bool(bool),
    Tuple(Box<Value>, Box<Value>),
    /// A function together with the scope it was defined in.
    Closure(Seq<Binding>, Box<Function>),
    List(Seq<Value>),
    /// A function implemented outside the language.
    Native(Primitive),
}

/// The functions implemented outside the language: the built-ins, and
/// whatever else the host offers under a name.
pub enum Primitive {
    Add,
    Sub,
    Mul,
    Equals,
    Cons,
    Head,
    Tail,
    Debug,
    Host(Seq<char>),
}

/// A function definition.
pub struct Function {
    pub name: Seq<char>,
    pub params: Seq<Param>,
    pub body: Term,
}

/// How a parameter takes its arguments: exactly one, or all that remain.
pub enum Param {
    Fixed(Seq<char>),
    Rest(Seq<char>),
}

/// An expression before evaluation.
pub enum Term {
    Literal(Box<Value>),
    Variable(Seq<char>),
    Definition(Box<Function>),
    Call(Box<Term>, Seq<Term>),
    /// `Local(name, value, body)`: `name` is bound to `value` inside `body` only.
    Local(Seq<char>, Box<Term>, Box<Term>),
    /// `Global(name, value)`: `name` is set in the global table.
    Global(Seq<char>, Box<Term>),
    Conditional(Box<Term>, Box<Term>, Box<Term>),
}

/// One node of a scope: a name and the term bound to it.
pub struct Binding {
    pub name: Seq<char>,
    pub bound: Term,
}

/// The kind of value an operation asked for.
#[derive(Clone, Copy, Debug, PartialEq, Eq, Structural)]
pub enum Kind {
    Number,
    List,
}

/// Why an evaluation or a reading stopped.
pub enum Failure {
    UnboundVariable(Seq<char>),
    NotCallable(Value),
    /// `ArityMismatch(function, expected, got)`.
    ArityMismatch(Seq<char>, nat, nat),
    /// `TypeMismatch(operation, expected, actual)`.
    TypeMismatch(Seq<char>, Kind, Value),
    MalformedSyntax(Seq<char>),
    /// The evaluation nested deeper than its budget allowed.
    DepthExceeded,
}

/// What the host's native functions return: for a name and the arguments,
/// a value or a failure.
pub type Natives = spec_fn(Seq<char>, Seq<Value>) -> Result<Value, Failure>;

/// What the host reads words as: for a word, the bits of a number where the
/// word is a numeral.
pub type Numerals = spec_fn(Seq<char>) -> Option<u32>;

/// The term that stands for an already evaluated value.
pub open spec fn literal(value: Value) -> Term {
    Term::Literal(Box::new(value))
}

/// The scope `scope` extended by one innermost binding.
pub open spec fn bind(scope: Seq<Binding>, name: Seq<char>, bound: Term) -> Seq<Binding> {
    seq![Binding { name, bound }] + scope
}

/// The term bound to `name` by the innermost binding of that name in `scope`.
pub open spec fn find(scope: Seq<Binding>, name: Seq<char>) -> Option<Term>
    decreases scope.len(),
{
    if scope.len() == 0 {
        None
    } else if scope[0].name == name {
        Some(scope[0].bound)
    } else {
        find(scope.drop_first(), name)
    }
}

/// Name resolution: the local scope first, then the global table.
pub open spec fn resolve(
    scope: Seq<Binding>,
    globals: Map<Seq<char>, Term>,
    name: Seq<char>,
) -> Option<Term> {
    match find(scope, name) {
        Some(bound) => Some(bound),
        None => if globals.contains_key(name) {
            Some(globals[name])
        } else {
            None
        },
    }
}

} // verus!
