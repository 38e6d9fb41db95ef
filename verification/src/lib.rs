//! A syntax highlighter for a small C-like language.
//!
//! Source text is cut into tokens by [`scanner::Scanner`], the tokens are
//! recognised by the recursive-descent [`parser::Parser`], and every token the
//! parser accepts is written out wrapped in the colour that
//! [`prettifier::Prettifier`] holds for its category.
//!
//! What the scanner produces is stated in [`lexicon`], on the characters of
//! the source alone; what the parser writes is stated in [`grammar`], on the
//! tokens alone. The executable code is proved against these two, and
//! [`lexicon_laws`] and [`grammar_laws`] prove what holds of every source and
//! of every parse.

pub mod character_stream;
pub mod error;
pub mod grammar;
pub mod grammar_laws;
pub mod lexicon;
pub mod lexicon_laws;
pub mod parser;
pub mod prettifier;
pub mod scanner;
pub mod text;
pub mod token;
