//! A small compiler from parenthesized arithmetic expressions with `let`
//! bindings to instructions for a machine with one accumulator and a stack
//! of slots.
//!
//! A text is read as a [`term::Term`], the term is built into an
//! [`ast::Expr`] by [`builder::parse_expr`], and the expression is turned
//! into [`instr::Instr`]s by [`codegen::generate`]. [`render`] gives the
//! assembly text, [`laws`] and [`machine`] state what holds of the whole.
pub mod term;
pub mod ast;
pub mod error;
pub mod builder;
pub mod instr;
pub mod env;
pub mod codegen;
pub mod render;
pub mod reader;
pub mod compiler;
pub mod laws;
pub mod machine;
