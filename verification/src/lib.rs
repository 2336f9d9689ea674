//! An interpreter for a small, typed, instruction-based intermediate
//! representation: a program is a set of named functions, each a flat list of
//! labeled instructions over typed local variables, with explicit control
//! transfer, function calls, an optional reference-counted heap, and a
//! restricted speculative-execution mode.
pub mod program;
pub mod collector;
pub mod values;
pub mod heap;
pub mod env;
pub mod text;
pub mod render;
pub mod semantics;
pub mod interp;
pub mod extensions;
pub mod parse;
