//! A lexer and Pratt parser for a small LaTeX-like math expression language.

mod error;
mod lexer;
mod parser;
mod token_set;

pub use error::ParseError;
pub use lexer::Lexer;
pub use lexer::Token;
pub use lexer::TokenKind;
pub use parser::infix_binding_power;
pub use parser::parse;
pub use parser::prefix_binding_power;
pub use parser::ASTNode;
pub use parser::Parser;
pub use parser::TokenStream;
pub use token_set::infix_operators;
pub use token_set::operators;
pub use token_set::parenthesis;
pub use token_set::prefix_binary_operators;
pub use token_set::prefix_uniary_commands_operators;
pub use token_set::prefix_uniary_operators;
pub use token_set::sub_sup_operators;
pub use token_set::TokenKindSet;
