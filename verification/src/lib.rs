//! A scanner for a small scripting language: it turns source text into a
//! flat sequence of tokens, closed by one `EOF` token, and a list of
//! diagnostics for what it could not scan. A scan never fails and never
//! stops early.
//!
//! [`grammar`] says in mathematical terms which tokens and diagnostics a
//! text amounts to, and [`scanner`] computes them. [`laws`] proves what
//! holds of every scan, [`munch`] what the text of each token looks like
//! and that no token could be longer.

pub mod chars;
pub mod diagnostic;
pub mod grammar;
pub mod laws;
pub mod literal;
pub mod munch;
pub mod scanner;
pub mod text;
pub mod token;

pub use diagnostic::{Diagnostic, DiagnosticKind};
pub use scanner::{scan, Scanner};
pub use literal::{Decimal, Literal};
pub use token::{Token, TokenType};
