//! Resolution of bitvector widths and rewriting of bitvector builtins into
//! plain integer operations.
//!
//! Type nodes live in one arena and are referred to by index, so a width
//! written through a function's locals is seen by its parameter list too.
pub mod ast;
pub mod integer;
pub mod laws;
pub mod locals;
pub mod pass;
pub mod rules;
