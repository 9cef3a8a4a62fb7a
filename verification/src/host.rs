//! What the evaluator needs from the program that embeds it.
//!
//! The verified core holds numbers only by their bit pattern and performs no
//! input or output. Reading a numeral, computing with numbers and printing
//! are left to the host, which hands the library two functions: one that
//! reads numerals, and one that runs its native functions by name. Both
//! must take whatever they are given. The library's contracts say what it
//! returns for every table of answers that the host keeps to.

use crate::ast::{outcome_of, values_of, EvalError, Type};
use crate::model::{Natives, Numerals};
use crate::number::Number;
use std::sync::Arc;
use vstd::prelude::*;

verus! {

/// The bit pattern a number stands for, if there is a number.
pub open spec fn bits_of(number: Option<Number>) -> Option<u32> {
    match number {
        Some(n) => Some(n@),
        None => None,
    }
}

/// Whether `numeral` can be given any text.
pub open spec fn reads_all<P: Fn(&str) -> Option<Number>>(numeral: &P) -> bool {
    forall|text: &str| #[trigger] call_requires(*numeral, (text,))
}

/// Whether `numeral` reads every text as `table` says.
pub open spec fn reads<P: Fn(&str) -> Option<Number>>(numeral: &P, table: Numerals) -> bool {
    forall|text: &str, number: Option<Number>| #[trigger]
        call_ensures(*numeral, (text,), number) ==> bits_of(number) == table(text@)
}

/// Has `numeral` read `text`.
pub fn read_numeral<P: Fn(&str) -> Option<Number>>(
    numeral: &P,
    text: &str,
) -> (number: Option<Number>)
    requires
        reads_all(numeral),
    ensures
        forall|table: Numerals| #[trigger]
            reads(numeral, table) ==> bits_of(number) == table(text@),
{
    numeral(text)
}

/// Whether `natives` can be asked for any name on any arguments.
pub open spec fn answers_all<F: Fn(&str, Vec<Arc<Type>>) -> Result<Arc<Type>, EvalError>>(
    natives: &F,
) -> bool {
    forall|name: &str, args: Vec<Arc<Type>>| #[trigger] call_requires(*natives, (name, args))
}

/// Whether `natives` answers every question as `table` says.
pub open spec fn answers<F: Fn(&str, Vec<Arc<Type>>) -> Result<Arc<Type>, EvalError>>(
    natives: &F,
    table: Natives,
) -> bool {
    forall|name: &str, args: Vec<Arc<Type>>, result: Result<Arc<Type>, EvalError>| #[trigger]
        call_ensures(*natives, (name, args), result) ==> outcome_of(result) == table(
            name@,
            values_of(args@),
        )
}

/// Asks `natives` for `name` on `args`.
pub fn ask<F: Fn(&str, Vec<Arc<Type>>) -> Result<Arc<Type>, EvalError>>(
    natives: &F,
    name: &str,
    args: Vec<Arc<Type>>,
) -> (result: Result<Arc<Type>, EvalError>)
    requires
        answers_all(natives),
    ensures
        forall|table: Natives| #[trigger]
            answers(natives, table) ==> outcome_of(result) == table(name@, values_of(args@)),
{
    natives(name, args)
}

} // verus!
