use vstd::prelude::*;

pub mod error;
pub mod expr;
pub mod glox;
pub mod interpreter;
pub mod parser;
pub mod scanner;
pub mod token;

verus! {

} // verus!
