//! A parser for PromQL-style metric queries: text in, a typed expression tree out.
//!
//! The grammar is defined by the spec functions of `lexer`, `modifier`, `selector` and
//! `expr`; every parsing function is proved to compute exactly what they define.
use vstd::prelude::*;

pub mod ast;
pub mod error;
pub mod expr;
pub mod laws;
pub mod lexer;
pub mod modifier;
pub mod parser;
pub mod selector;

pub use parser::parse_expr;

verus! {

} // verus!
