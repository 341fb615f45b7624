//! A small interpreted stack-based scripting language: a tokenizer that turns
//! source text into a typed instruction sequence, and a virtual machine that
//! executes that sequence against a value stack, a call/return stack and a
//! table of built-in and user-defined words.

pub mod built_in_words;
pub mod errors;
pub mod float;
pub mod interpreter;
pub mod lexer;
pub mod stack;
pub mod text;
