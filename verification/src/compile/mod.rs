//! A second backend: the same surface syntax, lowered to assembly text over
//! bit-tagged immediate values.

pub mod builtins;
pub mod compile;
pub mod immed;
pub mod labels;
pub mod text;
