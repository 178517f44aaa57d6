//! A template rendering engine: a dynamic value model, a chain of variable
//! scopes, and a renderer that walks a parsed template tree.

pub mod abc;
pub mod btype;
pub mod container;
pub mod context;
pub mod evaluator;
pub mod laws;
pub mod lexer;
pub mod renderer;
pub mod types;
