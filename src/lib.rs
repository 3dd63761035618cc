//! A tree-walking interpreter for a small dynamically typed scripting
//! language: a lexer, a Pratt parser, an evaluator with arbitrary-precision
//! integers, and a statement runner that threads `return` out of nested
//! blocks.
mod text;
pub mod integer;
pub mod lexer;
pub mod ast;
pub mod parser;
pub mod float;
pub mod value;
pub mod table;
pub mod format;
pub mod interp;
pub mod semantics;

pub use ast::Expr;
pub use ast::Statement;
pub use float::FloatArith;
pub use integer::Integer;
pub use interp::Emission;
pub use interp::Origin;
pub use interp::StatementRecord;
pub use interp::run_program;
pub use lexer::Lexer;
pub use lexer::Token;
pub use parser::Parser;
pub use value::Value;
