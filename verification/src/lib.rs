//! A scanner for a small dynamically-typed scripting language: it turns
//! source text into tokens, collects what it cannot read as errors, and keeps
//! going after each of them.

mod classify;
pub mod error;
pub mod grammar;
pub mod laws;
pub mod scanner;
pub mod token;

pub use error::{RloxError, RloxSyntaxError, SyntaxErrorKind};
pub use scanner::{scan, Scanner};
pub use token::{Decimal, Literal, Token, TokenType};
