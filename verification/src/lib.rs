//! A small interpreter for a Lisp-family expression language.
//!
//! Source text is tokenized and parsed into a tree of [`atom::Atom`]
//! values, which the evaluator walks against a chain of lexical scopes
//! ([`environment::Environment`]), producing a result value or an error.
//! Every executable function is specified against a mathematical model:
//! values are modelled by [`atom::SpecAtom`], scope chains by sequences
//! of [`environment::SpecScope`], and the evaluator itself by the
//! recursive specification function [`interpreter::spec_eval`].

pub mod atom;
pub mod builtins;
pub mod environment;
pub mod errors;
pub mod interpreter;
pub mod laws;
pub mod numtext;
pub mod parse;
