use vstd::prelude::*;

pub mod ast;
pub mod text;
pub mod numeric;
pub mod diff;
pub mod simplify;
pub mod integrate;
pub mod render;
pub mod fft;
pub mod lexer;
pub mod parser;
pub mod analysis;
pub mod readback;
pub mod calculus;
pub mod semantics;
pub mod laws;
