//! A small postfix scripting language: values, tokenizer and evaluation engine.
//!
//! The engine never touches the outside world. Whatever needs the host (reading a
//! numeral, arithmetic on doubles, a prompt, the clock) is handed out as a
//! question; the host answers and the engine goes on.

pub mod text;
pub mod numeral;
pub mod order;
pub mod host;
pub mod laws;
pub mod value;
pub mod store;
pub mod syntax;
pub mod command;
pub mod executor;
pub mod report;
