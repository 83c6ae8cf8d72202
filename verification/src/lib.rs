//! A single-line arithmetic calculator front end: a deterministic
//! finite-state-machine matching engine, matcher definitions for the token
//! classes, an incremental longest-match tokenizer, a recursive-descent
//! parser with a single precedence-rotation pass, and the evaluator's error
//! type.

pub mod eval;
pub mod fsm;
pub mod lexer;
pub mod parser;
