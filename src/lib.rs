//! Front end for a small PHP-like scripting language: a lexer that turns
//! source text into tokens with byte spans, and a parser that builds a syntax
//! tree with expressions stored in postfix order. Both keep going after an
//! error and hand back diagnostics beside their best-effort result.
pub mod span;
pub mod text;
pub mod ast;
pub mod token;
pub mod diagnostic;
pub mod lexer;
pub mod expression;
pub mod ident;
pub mod parser;
pub mod laws;
