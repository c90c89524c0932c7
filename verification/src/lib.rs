//! A small interpreter for a terse, character-keyed scripting language.
//!
//! The pipeline runs leaves first:
//!
//! - [`scanner`] gives each character of a source text its offset in bytes;
//! - [`tokenizer`] groups the characters into tokens with their spans;
//! - [`parser`] turns the tokens into a flat list of instructions and a label table;
//! - [`interpreter`] executes the instructions as a state machine. The machine takes one
//!   transition at a time and tells its embedder what to do before the next: write a text,
//!   read a line, end the process. Output, input and the end of the process so stay with
//!   the embedder, and the machine keeps its own stack, so that neither nested calls nor
//!   chains of `f:` grow the stack of the host.
//!
//! [`builtins`] holds what each built-in function does with the values of its arguments,
//! and [`session`] an embedder that works from lines given in advance.
//!
//! [`semantics`] says what a program means by recursion over its calls, and proves that
//! the machine computes it. [`machine_laws`], [`parser_laws`] and [`tokenizer_laws`] hold
//! what is proved of every run, of every program and of every token list.

pub mod builtins;
pub mod errors;
pub mod interpreter;
pub mod machine_laws;
pub mod parser;
pub mod parser_laws;
pub mod scanner;
pub mod semantics;
pub mod session;
pub mod text;
pub mod tokenizer;
pub mod tokenizer_laws;
