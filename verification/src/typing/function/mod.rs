//! Compiling function bodies: dropping values at the end of their lives.

pub mod destructor_compiler;
pub mod function_body_compiler;
