//! A lexical scanner for a small C-like scripting language.
//!
//! The scanner turns source text into a stream of typed tokens, one token per
//! call, and reports the end of input with a token of its own. It never
//! fails: a character that begins no token becomes an illegal token, and the
//! scan goes on behind it.
//!
//! - [`token`]: the tokens, and which token a whole spelling is.
//! - [`keyword`]: the reserved words.
//! - [`charclass`]: the character classes, and runs of characters of a class.
//! - [`scan`]: one scanning step, as mathematics.
//! - [`lexer`]: the scanner itself.
//! - [`stream`]: what call after call of the scanner yields.

pub mod charclass;
pub mod keyword;
pub mod lexer;
pub mod scan;
pub mod stream;
pub mod token;
