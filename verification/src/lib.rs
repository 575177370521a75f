//! A lexical-analysis engine.
//!
//! A front-end declares an ordered table of patterns, each with the
//! constructor of the tokens it stands for, and a whitespace classifier. A
//! [`lexer::LexerBuilder`] compiles them into a [`lexer::Lexer`], which takes
//! one step at a time: behind the whitespace, the first rule whose pattern
//! matches at the cursor makes the token. A [`stream::Tokens`] drives an
//! engine over one source text and tags each token with its position; a
//! [`filter::Filter`] drops the tokens of one category from a stream. The
//! front-ends for three notations are in [`lang`], and what holds of every
//! engine and every stream is proved in [`laws`].
pub mod error;
pub mod filter;
pub mod lang;
pub mod laws;
pub mod lexer;
pub mod pattern;
pub mod position;
pub mod scan;
pub mod stream;
pub mod text;
pub mod token;
