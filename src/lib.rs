//! Tokenizer for TOML-like configuration text, and the status model of the
//! containers that the configuration describes.
pub mod container;
pub mod laws;
pub mod lexer_spec;
pub mod text;
pub mod tokens;
