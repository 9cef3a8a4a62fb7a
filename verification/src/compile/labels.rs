//! Fresh numbers for the labels of generated code.

use vstd::prelude::*;

verus! {

/// A source of numbers that hands each one out once.
pub struct Counter(pub u64);

impl View for Counter {
    type V = nat;

    open spec fn view(&self) -> nat {
        self.0 as nat
    }
}

impl Counter {
    /// A counter whose first number is 0.
    pub fn new() -> (counter: Counter)
        ensures
            counter@ == 0,
    {
        Counter(0)
    }

    /// Hands out the next number.
    pub fn take(&mut self) -> (number: u64)
        requires
            old(self)@ < u64::MAX,
        ensures
            number == old(self)@,
            final(self)@ == old(self)@ + 1,
    {
        let result = self.0;
        self.0 += 1;
        result
    }
}

} // verus!
