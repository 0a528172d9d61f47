//! A small interpreter for a parenthesised prefix language: source text is
//! split into tokens, the tokens are parsed into one expression tree, and the
//! tree is evaluated against a single flat environment of bindings.
//!
//! Every function here is verified against a mathematical model of what it
//! computes: the lexer against `lex::tokenise_spec`, the parser against
//! `parse::parse_expr_spec`, the evaluator against `eval::eval_spec`.

pub mod ast;
pub mod builtins;
pub mod env;
pub mod eval;
pub mod grammar;
pub mod lex;
pub mod parse;
pub mod text;
pub mod theorems;
