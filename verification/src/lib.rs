//! An interpreter for a small dynamically typed scripting language: strings,
//! numbers and shared arrays, functions, conditionals, loops and scoped
//! variables.
//!
//! The parser (`parse`, stated by `grammar`) turns a token stream (`lex`)
//! into one flat list of statements (`exprs`).  The evaluation engine
//! (`eval`, stated by `semantics`) walks that list on the interpreter's
//! state (`ctx`): the scope stack, the function table and the array store.
//! Values and the operators are in `value`, the built-in functions that only
//! read their arguments in `builtins`.  `visualize` lists a parsed program
//! as text.
//!
//! Numbers are IEEE-754 binary64 values.  The library carries them as bit
//! patterns and compares them (`number`); it computes nothing else on them
//! and does no input or output.  The engine runs step by step, and whenever
//! a step needs arithmetic, a conversion between numbers and text, a line of
//! input or a line printed, it says so to its host (`host`), which does the
//! work and calls for the next step.

pub mod builtins;
pub mod ctx;
pub mod error;
pub mod eval;
pub mod exprs;
pub mod grammar;
pub mod host;
pub mod lex;
pub mod number;
pub mod parse;
pub mod semantics;
pub mod table;
pub mod text;
pub mod value;
pub mod visualize;
