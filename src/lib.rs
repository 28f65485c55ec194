//! A verified rewriting engine for the `->>` pipe notation: a flat token
//! sequence `input ->> operand` is parsed into an operator tree over
//! callables and folded into one nested-call expression; a failure names the
//! index of the token where it was found.

pub mod token;
pub mod text;
pub mod error;
pub mod expr;
pub mod parse;
pub mod marker;
pub mod grammar;
pub mod pipe;
pub mod algebra;
pub mod hkt;
pub mod category;
pub mod laws;
