//! A verified interpreter for a small Lisp-family language.
//!
//! Source text is lexed into tokens (`lex`), parsed into an expression
//! tree with a fixed table of special forms (`parse`), and reduced by a
//! tree-walking evaluator over a stack of lexical frames (`eval`). The
//! meaning of every phase is a spec-level function over ghost views of
//! the data — `semantics` holds the interpreter's, `parse` and `lex`
//! their own — and each executable function is proved to return exactly
//! what its spec function says. `laws` states and proves the language's
//! cross-cutting properties: fold identities of the arithmetic
//! builtins, the one-branch guarantee of `if`, the scoping of `setq`
//! against the global reach of `defun`, and the numeral round trip.
//!
//! The interpreter performs no I/O of its own: `read` and `write` work
//! against input and output line buffers carried by the evaluation
//! context, and the surrounding program moves real lines in and out.

pub mod ast;
pub mod base;
pub mod builtins;
pub mod display;
pub mod eval;
pub mod frame;
pub mod laws;
pub mod lex;
pub mod parse;
pub mod scan;
pub mod semantics;
pub mod value;
