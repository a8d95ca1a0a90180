use vstd::prelude::*;

pub mod config;
pub mod files;
pub mod grammar;
pub mod kernel;
pub mod laws;
pub mod lex;
pub mod parse;
pub mod peg;
pub mod report;
pub mod rust;
pub mod sections;
pub mod shape;
pub mod text;

verus! {
}
