//! Compiling expressions: locals and temporaries, and dropping what a block leaves behind.

pub mod local_helper;
pub mod expression_compiler;
pub mod call_compiler;
pub mod pattern_compiler;
pub mod optional_types;
