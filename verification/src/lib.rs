//! Rewrites a flat sequence of lexical tokens so that a postfix macro call
//! of the form `RECEIVER.NAME!(ARGS)` becomes the ordinary prefix invocation
//! `NAME!(RECEIVER, ARGS)`. The rewrite works purely on lexical structure:
//! it has no parser, so the boundary of the receiver expression is inferred
//! from local lexical cues under a deliberately restricted grammar, and
//! unsupported input is rejected rather than misrewritten.
//!
//! The pieces: [`token`] holds the token model and its mathematical view;
//! [`scanner`] finds the receiver's boundary by scanning backward from a
//! trigger; [`builder`] folds the receiver into the call's argument group;
//! [`walker`] drives the pass over the stream, depth-first through nested
//! groups; [`laws`] states and proves the properties that relate them.

pub mod builder;
pub mod laws;
pub mod scanner;
pub mod token;
pub mod walker;

pub use builder::prepend_macro_arg_to_group;
pub use scanner::expression_length;
pub use token::Delim;
pub use token::RewriteError;
pub use token::Spacing;
pub use token::Tok;
pub use token::Token;
pub use walker::rewrite;
