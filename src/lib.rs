//! A lexical scanner for a small scripting language: source text in,
//! a sequence of classified tokens with line numbers out, and a list of
//! diagnostics for malformed input.

pub mod classify;
pub mod diagnostic;
pub mod laws;
pub mod model;
pub mod scanner;
pub mod token;

pub use classify::{is_alpha, is_alphanumeric, is_digit};
pub use diagnostic::{error, ScanError, ScanErrorKind};
pub use token::{Token, TokenKind};
pub use scanner::Scanner;
