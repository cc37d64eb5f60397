pub mod codegen;
pub mod compile;
pub mod control;
pub mod emitter;
pub mod error;
pub mod fragments;
pub mod function_parser;
pub mod grammar;
pub mod holders;
pub mod laws;
pub mod listing;
pub mod parse;
pub mod token_cursor;
pub mod tokenizer;
pub mod types;
pub mod typing;
